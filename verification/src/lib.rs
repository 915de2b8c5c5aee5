//! Verified ledgers for the TerraLand contracts: time-weighted staking
//! rewards, the unbonding claims queue, vesting, airdrop missions and the
//! token's swap fee.

pub mod airdrop;
pub mod error;
pub mod math;
pub mod paging;
pub mod payment;
pub mod platform_registry;
pub mod response;
pub mod staking;
pub mod token;
pub mod vesting;
