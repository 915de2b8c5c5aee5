//! The vesting contract: an allotment is released in part at the start and
//! then day by day after a cliff.

pub mod contract;
pub mod msg;
pub mod state;
