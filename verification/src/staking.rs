//! The staking contract: an epoch-weighted reward ledger with an unbonding
//! claims queue.

pub mod accrual;
pub mod claims;
pub mod contract;
pub mod entry;
pub mod epoch;
pub mod index;
pub mod laws;
pub mod ledger;
pub mod model;
pub mod monotone;
pub mod msg;
pub mod order;
pub mod reward;
pub mod schedule;
pub mod state;
