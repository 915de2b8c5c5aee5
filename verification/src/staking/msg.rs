//! The messages of the staking contract and the answers to its queries.

use vstd::prelude::*;
use crate::staking::claims::Claim;
use crate::staking::state::Schedule;

verus! {

/// The settings a staking instance is created with.
#[derive(Debug)]
pub struct InstantiateMsg {
    pub owner: String,
    pub staking_token: String,
    pub terraland_token: String,
    pub unbonding_period: u64,
    pub burn_address: String,
    pub instant_claim_percentage_loss: u64,
    pub distribution_schedule: Vec<Schedule>,
}

/// The settings to replace; what is `None` stays as it is.
#[derive(Debug)]
pub struct NewConfig {
    pub owner: Option<String>,
    pub burn_address: Option<String>,
    pub unbonding_period: Option<u64>,
    pub instant_claim_percentage_loss: Option<u64>,
    pub distribution_schedule: Option<Vec<Schedule>>,
}

/// What a token contract passes on when tokens are sent to the staking
/// contract: who sent them, how many, and what for.
#[derive(Debug)]
pub struct Cw20ReceiveMsg {
    pub sender: String,
    pub amount: u128,
    pub msg: ReceiveMsg,
}

#[derive(Debug)]
pub enum ExecuteMsg {
    /// Replaces settings; only the owner may.
    UpdateConfig(NewConfig),
    /// Starts the unbonding of the given number of tokens. The sender loses
    /// the weight of these tokens at once and can claim them back after the
    /// unbonding period.
    Unbond { tokens: u128 },
    /// Pays out the tokens whose unbonding period has passed.
    Claim {},
    /// Pays out every unbonding token at once, less the percentage fee.
    InstantClaim {},
    /// Pays out the reward earned and not yet paid.
    Withdraw {},
    /// Tokens sent by way of a token contract.
    Receive(Cw20ReceiveMsg),
    /// Sends the contract's native balance to `recipient`; only the owner
    /// may.
    UstWithdraw { recipient: String },
    /// Sends the contract's balance of `token` to `recipient`; only the
    /// owner may.
    TokenWithdraw { token: String, recipient: String },
}

#[derive(Clone, Copy, Debug, PartialEq, Eq, Structural)]
pub enum ReceiveMsg {
    /// The only purpose tokens can be sent for is to bond them.
    Bond {},
}

#[derive(Debug)]
pub enum QueryMsg {
    /// The settings of the contract.
    Config {},
    /// The tokens of this address that are unbonding.
    Claims { address: String },
    /// The tokens this address has staked.
    Staked { address: String },
    /// The reward this address can withdraw.
    Reward { address: String },
    /// The total of staked tokens.
    Total {},
    /// Stake, reward, withdrawals and claims of this address.
    Member { address: String },
    /// The reward this address has withdrawn.
    Withdrawn { address: String },
    /// The accounts in the order of their addresses, from the one after
    /// `start_after` on, at most `limit` of them.
    ListMembers { start_after: Option<String>, limit: Option<u32> },
}

#[derive(Debug)]
pub struct ClaimsResponse {
    pub claims: Vec<Claim>,
}

#[derive(Debug)]
pub struct StakedResponse {
    pub stake: u128,
    pub denom: String,
}

#[derive(Clone, Copy, Debug, PartialEq, Eq, Structural)]
pub struct TotalResponse {
    pub total: u128,
}

#[derive(Clone, Copy, Debug, PartialEq, Eq, Structural)]
pub struct RewardResponse {
    pub reward: u128,
}

#[derive(Clone, Copy, Debug, PartialEq, Eq, Structural)]
pub struct WithdrawnResponse {
    pub withdrawn: u128,
}

/// What the listing says of one account.
#[derive(Debug)]
pub struct MemberResponseItem {
    pub stake: u128,
    pub reward: u128,
    pub withdrawn: u128,
    pub claims: Vec<Claim>,
}

/// What is known of an address: nothing where it has never bonded.
#[derive(Debug)]
pub struct MemberResponse {
    pub member: Option<MemberResponseItem>,
}

#[derive(Debug)]
pub struct MemberListResponseItem {
    pub address: String,
    pub info: MemberResponseItem,
}

#[derive(Debug)]
pub struct MemberListResponse {
    pub members: Vec<MemberListResponseItem>,
}

} // verus!
