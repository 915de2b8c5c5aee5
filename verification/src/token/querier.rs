//! The tax that the chain takes from a native transfer.

use vstd::prelude::*;
use crate::error::ContractError;
use crate::math::{Decimal, DECIMAL_FRACTIONAL, lemma_ratio_within_amount, multiply_ratio};
use crate::payment::Coin;

verus! {

/// The amount that arrives when `amount` is sent at the tax rate `rate`:
/// `amount / (1 + rate)`, rounded down.
pub open spec fn after_tax(amount: u128, rate: Decimal) -> int {
    amount * (DECIMAL_FRACTIONAL as int) / (rate.atomics + DECIMAL_FRACTIONAL)
}

/// The tax on sending `coin`: none on `uluna`; else what the rate takes
/// from the amount, but no more than the cap.
pub open spec fn tax_of(coin: Coin, rate: Decimal, cap: u128) -> Result<u128, ContractError> {
    let tax = coin.amount - after_tax(coin.amount, rate);
    if coin.denom@ == "uluna"@ {
        Ok(0)
    } else if rate.atomics + DECIMAL_FRACTIONAL > u128::MAX {
        Err(ContractError::Overflow)
    } else if tax < cap {
        Ok(tax as u128)
    } else {
        Ok(cap)
    }
}

/// The tax on sending `coin`, at the rate and with the cap that the chain
/// reports for its denomination. Fails with `Overflow` where one plus the
/// rate leaves `u128`.
pub fn compute_tax(coin: &Coin, tax_rate: Decimal, tax_cap: u128) -> (r: Result<
    u128,
    ContractError,
>)
    ensures
        r == tax_of(*coin, tax_rate, tax_cap),
        r matches Ok(tax) ==> tax <= coin.amount,
{
    if coin.denom == "uluna".to_owned() {
        return Ok(0);
    }
    let denominator = match tax_rate.atomics.checked_add(DECIMAL_FRACTIONAL) {
        Some(d) => d,
        None => { return Err(ContractError::Overflow); },
    };
    proof {
        lemma_ratio_within_amount(coin.amount, DECIMAL_FRACTIONAL, denominator);
    }
    let remains = multiply_ratio(coin.amount, DECIMAL_FRACTIONAL, denominator);
    let tax = coin.amount - remains;
    if tax < tax_cap {
        Ok(tax)
    } else {
        Ok(tax_cap)
    }
}

/// The coin that remains of `coin` once the tax on sending it is set aside.
pub fn deduct_tax(coin: Coin, tax_rate: Decimal, tax_cap: u128) -> (r: Result<Coin, ContractError>)
    ensures
        match tax_of(coin, tax_rate, tax_cap) {
            Ok(tax) => r is Ok && r->Ok_0.denom == coin.denom && r->Ok_0.amount == coin.amount
                - tax,
            Err(e) => r == Err::<Coin, ContractError>(e),
        },
{
    let tax = match compute_tax(&coin, tax_rate, tax_cap) {
        Ok(tax) => tax,
        Err(e) => { return Err(e); },
    };
    Ok(Coin { amount: coin.amount - tax, denom: coin.denom })
}

} // verus!
