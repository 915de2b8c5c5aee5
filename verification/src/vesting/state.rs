//! What the vesting contract stores.

use vstd::prelude::*;

verus! {

/// The fee that an operation costs.
#[derive(Debug)]
pub struct FeeConfig {
    pub fee: u128,
    pub operation: String,
    pub denom: String,
}

/// When an allotment is released: `initial_percentage` hundredths at
/// `start_time`, the rest in equal parts on each whole day between
/// `cliff_end_time` and `end_time`.
#[derive(Clone, Copy, Debug, PartialEq, Eq, Structural)]
pub struct Vesting {
    pub start_time: u64,
    pub end_time: u64,
    pub initial_percentage: u64,
    pub cliff_end_time: u64,
}

#[derive(Debug)]
pub struct Config {
    pub owner: String,
    pub terraland_token: String,
    pub name: String,
    pub fee_config: Vec<FeeConfig>,
    pub vesting: Vesting,
}

/// The allotment of a member and what it has claimed of it.
#[derive(Clone, Copy, Debug, PartialEq, Eq, Structural)]
pub struct Member {
    pub amount: u128,
    pub claimed: u128,
}

} // verus!
