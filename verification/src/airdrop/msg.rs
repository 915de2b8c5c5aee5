//! The messages of the airdrop contract and the answers to its queries.

use vstd::prelude::*;

verus! {

#[derive(Debug)]
pub struct InstantiateMsg {
    pub owner: String,
    pub terraland_token: String,
    pub mission_smart_contracts: Option<InstantiateMissionSmartContracts>,
}

/// The contracts that are asked whether a member has passed a mission.
#[derive(Debug)]
pub struct InstantiateMissionSmartContracts {
    pub lp_staking: Option<String>,
    pub tland_staking: Option<String>,
    pub platform_registry: Option<String>,
}

#[derive(Debug)]
pub enum ExecuteMsg {
    UpdateConfig {
        new_owner: Option<String>,
        mission_smart_contracts: Option<InstantiateMissionSmartContracts>,
    },
    Claim {},
    RegisterMembers { members: Vec<NewMember> },
    UstWithdraw { recipient: String, amount: u128 },
    TokenWithdraw { token: String, recipient: String },
}

#[derive(Debug)]
pub enum QueryMsg {
    Config {},
    Member { address: String },
}

#[derive(Debug)]
pub struct NewMember {
    pub address: String,
    pub amount: u128,
    pub claimed: u128,
}

#[derive(Clone, Copy, Debug, PartialEq, Eq, Structural)]
pub struct MemberStats {
    pub amount: u128,
    pub claimed: u128,
    pub passed_missions: Missions,
}

/// The missions a member has passed.
#[derive(Clone, Copy, Debug, PartialEq, Eq, Structural)]
pub struct Missions {
    pub is_in_lp_staking: bool,
    pub is_in_tland_staking: bool,
    pub is_registered_on_platform: bool,
    pub is_property_shareholder: bool,
}

#[derive(Clone, Copy, Debug, PartialEq, Eq, Structural)]
pub struct MemberResponse {
    pub stats: Option<MemberStats>,
}

} // verus!
