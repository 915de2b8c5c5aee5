//! What the airdrop contract stores.

use vstd::prelude::*;

verus! {

#[derive(Debug)]
pub struct Config {
    pub owner: String,
    pub terraland_token: String,
    pub fee_config: Vec<FeeConfig>,
    pub mission_smart_contracts: MissionSmartContracts,
}

#[derive(Debug)]
pub struct MissionSmartContracts {
    pub lp_staking: Option<String>,
    pub tland_staking: Option<String>,
    pub platform_registry: Option<String>,
}

/// The fee that an operation costs.
#[derive(Debug)]
pub struct FeeConfig {
    pub fee: u128,
    pub operation: String,
    pub denom: String,
}

/// The allotment of a member and what it has claimed of it.
#[derive(Clone, Copy, Debug, PartialEq, Eq, Structural)]
pub struct Member {
    pub amount: u128,
    pub claimed: u128,
}

} // verus!
