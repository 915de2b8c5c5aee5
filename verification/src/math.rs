//! Fixed-point numbers with eighteen decimal places, and ratios of amounts.

use vstd::prelude::*;

verus! {

/// One, as a fixed-point number: ten to the eighteenth.
pub const DECIMAL_FRACTIONAL: u128 = 1_000_000_000_000_000_000;

/// A fixed-point number: `atomics` parts of `DECIMAL_FRACTIONAL`.
#[derive(Clone, Copy, Debug, PartialEq, Eq, Structural)]
pub struct Decimal {
    pub atomics: u128,
}

/// `amount` times `numerator` over `denominator`, rounded down.
pub open spec fn ratio_of(amount: u128, numerator: u128, denominator: u128) -> int {
    amount * numerator / (denominator as int)
}

/// `amount` times the fixed-point number `factor`, rounded down.
pub open spec fn times(amount: u128, factor: Decimal) -> int {
    amount * factor.atomics / (DECIMAL_FRACTIONAL as int)
}

/// Calls `Uint128::multiply_ratio` of cosmwasm_std, which multiplies in 256
/// bits and returns `amount * numerator / denominator` rounded down. It
/// does not return where the denominator is zero or the result leaves
/// `u128`; both are left out here.
#[verifier::external_body]
pub(crate) fn multiply_ratio(amount: u128, numerator: u128, denominator: u128) -> (r: u128)
    requires
        denominator != 0,
        ratio_of(amount, numerator, denominator) <= u128::MAX,
    ensures
        r == ratio_of(amount, numerator, denominator),
{
    cosmwasm_std::Uint128::new(amount).multiply_ratio(numerator, denominator).u128()
}

/// A ratio whose numerator does not exceed its denominator never exceeds
/// the amount.
pub proof fn lemma_ratio_within_amount(amount: u128, numerator: u128, denominator: u128)
    requires
        0 < denominator,
        numerator <= denominator,
    ensures
        0 <= ratio_of(amount, numerator, denominator) <= amount,
{
    let a = amount as int;
    let n = numerator as int;
    let d = denominator as int;
    assert(0 <= a * n <= a * d) by (nonlinear_arith)
        requires
            0 <= a,
            0 <= n <= d,
    ;
    assert(0 <= (a * n) / d <= a) by (nonlinear_arith)
        requires
            0 <= a * n <= a * d,
            0 < d,
    ;
}

/// `amount` times `factor`, rounded down; `None` exactly when the product
/// leaves `u128`.
pub fn mul_decimal(amount: u128, factor: Decimal) -> (r: Option<u128>)
    ensures
        times(amount, factor) > u128::MAX ==> r is None,
        times(amount, factor) <= u128::MAX ==> r == Some(times(amount, factor) as u128),
{
    let whole = factor.atomics / DECIMAL_FRACTIONAL;
    let part = factor.atomics % DECIMAL_FRACTIONAL;
    let high = amount / DECIMAL_FRACTIONAL;
    let low = amount % DECIMAL_FRACTIONAL;
    let ghost unit = DECIMAL_FRACTIONAL as int;
    assert(low * part < unit * unit) by (nonlinear_arith)
        requires
            0 <= low < unit,
            0 <= part < unit,
    ;
    let carried: u128 = low * part / DECIMAL_FRACTIONAL;
    proof {
        let a = amount as int;
        let product = a * whole + high * part;
        assert(a * factor.atomics == product * unit + low * part) by (nonlinear_arith)
            requires
                a == high * unit + low,
                factor.atomics == whole * unit + part,
                product == a * whole + high * part,
        ;
        assert(a * whole >= 0 && high * part >= 0 && product >= 0) by (nonlinear_arith)
            requires
                a >= 0,
                whole >= 0,
                high >= 0,
                part >= 0,
                product == a * whole + high * part,
        ;
        assert((product * unit + low * part) / unit == product + (low * part) / unit)
            by (nonlinear_arith)
            requires
                unit == 1_000_000_000_000_000_000,
        ;
        assert(times(amount, factor) == a * whole + high * part + carried);
    }
    let first = match amount.checked_mul(whole) {
        Some(p) => p,
        None => { return None; },
    };
    let second = match high.checked_mul(part) {
        Some(p) => p,
        None => { return None; },
    };
    let sum = match first.checked_add(second) {
        Some(s) => s,
        None => { return None; },
    };
    sum.checked_add(carried)
}

} // verus!
