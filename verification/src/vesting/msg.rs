//! The messages of the vesting contract and the answers to its queries.

use vstd::prelude::*;
use crate::vesting::state::{FeeConfig, Vesting};

verus! {

#[derive(Debug)]
pub struct InstantiateMsg {
    pub owner: String,
    pub terraland_token: String,
    pub name: String,
    pub fee_config: Vec<FeeConfig>,
    pub vesting: Vesting,
}

#[derive(Debug)]
pub enum ExecuteMsg {
    UpdateConfig {
        owner: Option<String>,
        name: Option<String>,
        fee_config: Option<Vec<FeeConfig>>,
        vesting: Option<Vesting>,
    },
    RegisterMembers(Vec<RegisterMemberItem>),
    Claim {},
    UstWithdraw { recipient: String, amount: u128 },
    TokenWithdraw { token: String, recipient: String },
}

#[derive(Debug)]
pub enum QueryMsg {
    Config {},
    Member { address: String },
    ListMembers { start_after: Option<String>, limit: Option<u32> },
}

#[derive(Debug)]
pub struct RegisterMemberItem {
    pub address: String,
    pub amount: u128,
    pub claimed: Option<u128>,
}

#[derive(Clone, Copy, Debug, PartialEq, Eq, Structural)]
pub struct MemberResponseItem {
    pub amount: u128,
    pub available_to_claim: u128,
    pub claimed: u128,
}

#[derive(Clone, Copy, Debug, PartialEq, Eq, Structural)]
pub struct MemberResponse {
    pub member: Option<MemberResponseItem>,
}

#[derive(Debug)]
pub struct MemberListResponseItem {
    pub address: String,
    pub info: MemberResponseItem,
}

#[derive(Debug)]
pub struct MemberListResponse {
    pub members: Vec<MemberListResponseItem>,
}

} // verus!
