//! The TerraLand token: a swap fee on sends, logo checks and the tax on
//! native transfers.

pub mod contract;
pub mod logo;
pub mod querier;
pub mod state;
