//! What the token contract stores beyond its balances.

use vstd::prelude::*;
use crate::math::Decimal;

verus! {

#[derive(Debug)]
pub struct Config {
    pub owner: String,
}

#[derive(Debug)]
pub struct SwapFeeConfig {
    pub fee_admin: String,
    /// Whether a fee is taken from swaps.
    pub enable_swap_fee: bool,
    /// The fee taken from every swap of the token, in percent.
    pub swap_percent_fee: Decimal,
    /// The address that receives the fee.
    pub fee_receiver: String,
}

#[derive(Debug)]
pub struct SwapFeeConfigResponse {
    pub fee_admin: String,
    pub enable_swap_fee: bool,
    pub swap_percent_fee: Decimal,
    pub fee_receiver: String,
}

} // verus!
