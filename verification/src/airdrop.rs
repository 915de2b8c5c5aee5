//! The airdrop contract: members earn their allotment mission by mission.

pub mod contract;
pub mod msg;
pub mod state;
