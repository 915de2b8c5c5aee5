//! The unbonding claims queue: principal that waits for its release.

use vstd::prelude::*;
use crate::error::ContractError;
use crate::staking::state::Config;

verus! {

/// Unbonded principal that can be paid out from `release_at` on.
#[derive(Clone, Copy, Debug, PartialEq, Eq, Structural)]
pub struct Claim {
    pub amount: u128,
    pub release_at: u64,
}

/// What an instant claim pays: `payout` to the account and `fee` to the burn
/// address.
#[derive(Clone, Copy, Debug, PartialEq, Eq, Structural)]
pub struct InstantClaim {
    pub payout: u128,
    pub fee: u128,
}

/// A claim has matured once its release time has come.
pub open spec fn matured(claim: Claim, now: int) -> bool {
    claim.release_at <= now
}

/// The sum of the claims that have matured at `now`.
pub open spec fn matured_sum(claims: Seq<Claim>, now: int) -> int
    decreases claims.len(),
{
    if claims.len() == 0 {
        0
    } else {
        matured_sum(claims.drop_last(), now) + if matured(claims.last(), now) {
            claims.last().amount as int
        } else {
            0
        }
    }
}

/// The claims that have not matured at `now`, in their order.
pub open spec fn waiting(claims: Seq<Claim>, now: int) -> Seq<Claim>
    decreases claims.len(),
{
    if claims.len() == 0 {
        Seq::empty()
    } else if matured(claims.last(), now) {
        waiting(claims.drop_last(), now)
    } else {
        waiting(claims.drop_last(), now).push(claims.last())
    }
}

/// The result of a claim at `now`: the matured sum, unless it is zero or
/// leaves `u128`.
pub open spec fn claim_outcome(claims: Seq<Claim>, now: int) -> Result<u128, ContractError> {
    let sum = matured_sum(claims, now);
    if sum > u128::MAX {
        Err(ContractError::Overflow)
    } else if sum == 0 {
        Err(ContractError::NothingToClaim)
    } else {
        Ok(sum as u128)
    }
}

/// The result of an instant claim at `now`: every claim that matures within
/// the unbonding period is released, and `percentage` hundredths of the sum,
/// rounded down, are kept as the fee.
pub open spec fn instant_claim_outcome(
    unbonding_period: u64,
    percentage: u64,
    claims: Seq<Claim>,
    now: int,
) -> Result<InstantClaim, ContractError> {
    let horizon = now + unbonding_period;
    let sum = matured_sum(claims, horizon);
    let fee = sum * percentage / 100;
    if horizon > u64::MAX {
        Err(ContractError::Overflow)
    } else if sum > u128::MAX {
        Err(ContractError::Overflow)
    } else if sum == 0 {
        Err(ContractError::NothingToClaim)
    } else if sum * percentage > u128::MAX {
        Err(ContractError::Overflow)
    } else if fee > sum {
        Err(ContractError::Underflow)
    } else {
        Ok(InstantClaim { payout: (sum - fee) as u128, fee: fee as u128 })
    }
}

/// The sum of all claims, matured or not.
pub open spec fn claims_sum(claims: Seq<Claim>) -> int
    decreases claims.len(),
{
    if claims.len() == 0 {
        0
    } else {
        claims_sum(claims.drop_last()) + claims.last().amount
    }
}

/// Releasing loses nothing: what is released and what is left waiting add
/// up to what was there.
pub proof fn release_conserves_claims(claims: Seq<Claim>, now: int)
    ensures
        claims_sum(claims) == matured_sum(claims, now) + claims_sum(waiting(claims, now)),
    decreases claims.len(),
{
    if claims.len() > 0 {
        release_conserves_claims(claims.drop_last(), now);
        if !matured(claims.last(), now) {
            assert(waiting(claims, now).drop_last() =~= waiting(claims.drop_last(), now));
        }
    }
}

/// A claim waits for its release time: before it there is nothing to
/// claim, from it on the claim is paid in full.
pub proof fn claim_waits_for_its_release(claim: Claim, now: int)
    requires
        claim.amount > 0,
    ensures
        claim_outcome(seq![claim], now) == if now < claim.release_at {
            Err::<u128, ContractError>(ContractError::NothingToClaim)
        } else {
            Ok(claim.amount)
        },
        now >= claim.release_at ==> waiting(seq![claim], now) == Seq::<Claim>::empty(),
{
    let claims = seq![claim];
    assert(claims.drop_last() =~= Seq::<Claim>::empty());
    assert(matured_sum(claims.drop_last(), now) == 0);
    assert(waiting(claims.drop_last(), now) =~= Seq::<Claim>::empty());
}

/// No sum of matured claims is negative, and it never shrinks as claims are
/// added at the back.
pub proof fn lemma_matured_sum_grows(claims: Seq<Claim>, now: int, n: int)
    requires
        0 <= n <= claims.len(),
    ensures
        0 <= matured_sum(claims.take(n), now) <= matured_sum(claims, now),
    decreases claims.len() - n,
{
    if n == claims.len() {
        assert(claims.take(n) =~= claims);
        lemma_matured_sum_nonnegative(claims, now);
    } else {
        lemma_matured_sum_grows(claims, now, n + 1);
        assert(claims.take(n + 1).drop_last() =~= claims.take(n));
        lemma_matured_sum_nonnegative(claims.take(n), now);
    }
}

/// No sum of matured claims is negative.
pub proof fn lemma_matured_sum_nonnegative(claims: Seq<Claim>, now: int)
    ensures
        matured_sum(claims, now) >= 0,
    decreases claims.len(),
{
    if claims.len() > 0 {
        lemma_matured_sum_nonnegative(claims.drop_last(), now);
    }
}

/// A claim added at the back waits until its release time and is then part
/// of the matured sum.
pub proof fn lemma_claim_pushed(claims: Seq<Claim>, claim: Claim, now: int)
    ensures
        matured_sum(claims.push(claim), now) == matured_sum(claims, now) + if matured(claim, now) {
            claim.amount as int
        } else {
            0
        },
        waiting(claims.push(claim), now) == if matured(claim, now) {
            waiting(claims, now)
        } else {
            waiting(claims, now).push(claim)
        },
{
    assert(claims.push(claim).drop_last() =~= claims);
}

/// Adds a claim for `amount` that matures at `release_at`.
pub fn create_claim(claims: &mut Vec<Claim>, amount: u128, release_at: u64)
    ensures
        final(claims)@ == old(claims)@.push(Claim { amount, release_at }),
{
    claims.push(Claim { amount, release_at });
}

/// Sums the claims that have matured at `now` and returns the sum with the
/// claims that still wait. Fails with `Overflow` exactly when the sum leaves
/// `u128`.
pub fn release_matured(claims: &Vec<Claim>, now: u64) -> (r: Result<
    (u128, Vec<Claim>),
    ContractError,
>)
    ensures
        match r {
            Ok((sum, kept)) => sum == matured_sum(claims@, now as int) && kept@ == waiting(
                claims@,
                now as int,
            ),
            Err(e) => e is Overflow && matured_sum(claims@, now as int) > u128::MAX,
        },
{
    let mut sum: u128 = 0;
    let mut kept: Vec<Claim> = Vec::new();
    let mut i: usize = 0;
    while i < claims.len()
        invariant
            i <= claims@.len(),
            sum == matured_sum(claims@.take(i as int), now as int),
            kept@ == waiting(claims@.take(i as int), now as int),
        decreases claims@.len() - i,
    {
        let claim = claims[i];
        proof {
            assert(claims@.take(i + 1).drop_last() =~= claims@.take(i as int));
            assert(claims@.take(i + 1).last() == claim);
        }
        if claim.release_at <= now {
            sum = match sum.checked_add(claim.amount) {
                Some(s) => s,
                None => {
                    proof {
                        lemma_matured_sum_grows(claims@, now as int, i + 1);
                    }
                    return Err(ContractError::Overflow);
                },
            };
        } else {
            kept.push(claim);
        }
        i = i + 1;
    }
    assert(claims@.take(i as int) =~= claims@);
    Ok((sum, kept))
}

/// Releases every claim that has matured at `now`: the claims are removed
/// from the queue and their sum is returned for payout. Fails with
/// `NothingToClaim` when the sum is zero and with `Overflow` when it leaves
/// `u128`; the queue is then left as it was.
pub fn execute_claim(claims: &mut Vec<Claim>, now: u64) -> (r: Result<u128, ContractError>)
    ensures
        r == claim_outcome(old(claims)@, now as int),
        r is Ok ==> final(claims)@ == waiting(old(claims)@, now as int),
        r is Err ==> final(claims)@ == old(claims)@,
{
    let (sum, kept) = match release_matured(claims, now) {
        Ok(released) => released,
        Err(_) => { return Err(ContractError::Overflow); },
    };
    if sum == 0 {
        return Err(ContractError::NothingToClaim);
    }
    *claims = kept;
    Ok(sum)
}

/// Releases at once every claim that would mature within the unbonding
/// period, at the price of the configured percentage: the fee goes to the
/// burn address, the rest to the account. On failure the queue is left as it
/// was.
pub fn execute_instant_claim(cfg: &Config, claims: &mut Vec<Claim>, now: u64) -> (r: Result<
    InstantClaim,
    ContractError,
>)
    ensures
        r == instant_claim_outcome(
            cfg.unbonding_period,
            cfg.instant_claim_percentage_loss,
            old(claims)@,
            now as int,
        ),
        r is Ok ==> final(claims)@ == waiting(old(claims)@, now + cfg.unbonding_period),
        r is Err ==> final(claims)@ == old(claims)@,
{
    let horizon = match now.checked_add(cfg.unbonding_period) {
        Some(h) => h,
        None => { return Err(ContractError::Overflow); },
    };
    let (sum, kept) = match release_matured(claims, horizon) {
        Ok(released) => released,
        Err(_) => { return Err(ContractError::Overflow); },
    };
    if sum == 0 {
        return Err(ContractError::NothingToClaim);
    }
    let fee = match sum.checked_mul(cfg.instant_claim_percentage_loss as u128) {
        Some(product) => product / 100,
        None => { return Err(ContractError::Overflow); },
    };
    let payout = match sum.checked_sub(fee) {
        Some(rest) => rest,
        None => { return Err(ContractError::Underflow); },
    };
    *claims = kept;
    Ok(InstantClaim { payout, fee })
}

} // verus!
