//! Reward settlement: what an account has earned up to a point in time.

use vstd::prelude::*;
use crate::error::ContractError;
use crate::staking::accrual::{
    accrue_underflows,
    projected,
    settle,
    settle_overflows,
    settled,
    stake_seconds,
    epoch_overlap,
    stored_weight,
};
use crate::staking::epoch::{WEEK, epoch_id, epoch_of, epoch_start};
use crate::staking::schedule::{epoch_rate, epoch_rate_of};
use crate::staking::state::{Config, Stake};

verus! {

/// The seconds of epoch `e` that have passed at `now`: the whole epoch once
/// it is over, the part gone by while it is open, nothing before it begins.
pub open spec fn elapsed_in(start: int, now: int, e: int) -> int {
    let current = epoch_of(start, now);
    if e < current {
        WEEK as int
    } else if e == current {
        now - epoch_start(start, e)
    } else {
        0
    }
}

/// What epoch `e` has emitted at `now`: its rate per second, rounded down,
/// for every second of it that has passed.
pub open spec fn emission_of(cfg: Config, now: int, e: int) -> int {
    (epoch_rate_of(cfg, e) / (WEEK as int)) * elapsed_in(cfg.start_time as int, now, e)
}

/// A member's part of an emission, in proportion to its weight, rounded
/// down; nothing where nobody holds weight.
pub open spec fn share_of(emission: int, member_weight: int, epoch_weight: int) -> int {
    if epoch_weight == 0 {
        0
    } else {
        emission * member_weight / epoch_weight
    }
}

/// The member's share of epoch `e` at `now`, with both the member's stake
/// and the total settled up to `now`.
pub open spec fn earned_in(
    cfg: Config,
    member: Stake,
    total: Stake,
    member_weights: Seq<u128>,
    epoch_weights: Seq<u128>,
    now: int,
    e: int,
) -> int {
    share_of(
        emission_of(cfg, now, e),
        projected(cfg.start_time as int, member_weights, member, now, e),
        projected(cfg.start_time as int, epoch_weights, total, now, e),
    )
}

/// The sum of the member's shares of epochs `1` through `n`.
pub open spec fn earned_through(
    cfg: Config,
    member: Stake,
    total: Stake,
    member_weights: Seq<u128>,
    epoch_weights: Seq<u128>,
    now: int,
    n: int,
) -> int
    decreases n,
{
    if n <= 0 {
        0
    } else {
        earned_through(cfg, member, total, member_weights, epoch_weights, now, n - 1) + earned_in(
            cfg,
            member,
            total,
            member_weights,
            epoch_weights,
            now,
            n,
        )
    }
}

/// What the member has earned at `now`: its shares of every epoch up to and
/// including the open one.
pub open spec fn earned_total(
    cfg: Config,
    member: Stake,
    total: Stake,
    member_weights: Seq<u128>,
    epoch_weights: Seq<u128>,
    now: int,
) -> int {
    earned_through(
        cfg,
        member,
        total,
        member_weights,
        epoch_weights,
        now,
        epoch_of(cfg.start_time as int, now),
    )
}

/// The reward cannot be computed before the distribution begins, nor while a
/// stake that is outstanding cannot be settled.
pub open spec fn earned_underflows(cfg: Config, member: Stake, total: Stake, now: int) -> bool {
    ||| now < cfg.start_time
    ||| accrue_underflows(cfg.start_time as int, member, now)
    ||| accrue_underflows(cfg.start_time as int, total, now)
}

/// The product of an epoch's emission and the member's weight in it leaves
/// `u128` for some epoch in which weight is held.
pub open spec fn share_overflows(
    cfg: Config,
    member: Stake,
    total: Stake,
    member_weights: Seq<u128>,
    epoch_weights: Seq<u128>,
    now: int,
) -> bool {
    exists|e: int|
        1 <= e <= epoch_of(cfg.start_time as int, now) && projected(
            cfg.start_time as int,
            epoch_weights,
            total,
            now,
            e,
        ) != 0 && emission_of(cfg, now, e) * #[trigger] projected(
            cfg.start_time as int,
            member_weights,
            member,
            now,
            e,
        ) > u128::MAX
}

/// Some step of the computation leaves `u128`: a settled weight, a product
/// of emission and weight, or the sum of the shares.
pub open spec fn earned_overflows(
    cfg: Config,
    member: Stake,
    total: Stake,
    member_weights: Seq<u128>,
    epoch_weights: Seq<u128>,
    now: int,
) -> bool {
    ||| settle_overflows(cfg.start_time as int, member_weights, member, now)
    ||| settle_overflows(cfg.start_time as int, epoch_weights, total, now)
    ||| share_overflows(cfg, member, total, member_weights, epoch_weights, now)
    ||| earned_total(cfg, member, total, member_weights, epoch_weights, now) > u128::MAX
}

/// The result of `earned`: the exact reward, or the error that stops the
/// computation. A time that cannot be settled is reported before any overflow.
pub open spec fn earned_outcome(
    cfg: Config,
    member: Stake,
    total: Stake,
    member_weights: Seq<u128>,
    epoch_weights: Seq<u128>,
    now: int,
) -> Result<u128, ContractError> {
    if earned_underflows(cfg, member, total, now) {
        Err(ContractError::Underflow)
    } else if earned_overflows(cfg, member, total, member_weights, epoch_weights, now) {
        Err(ContractError::Overflow)
    } else {
        Ok(earned_total(cfg, member, total, member_weights, epoch_weights, now) as u128)
    }
}

/// A share is never negative.
pub proof fn lemma_share_nonnegative(emission: int, member_weight: int, epoch_weight: int)
    requires
        emission >= 0,
        member_weight >= 0,
        epoch_weight >= 0,
    ensures
        share_of(emission, member_weight, epoch_weight) >= 0,
{
    if epoch_weight != 0 {
        assert(emission * member_weight / epoch_weight >= 0) by (nonlinear_arith)
            requires
                emission >= 0,
                member_weight >= 0,
                epoch_weight > 0,
        ;
    }
}

/// An epoch never emits a negative amount, nor more than its rate.
pub proof fn lemma_emission_bounds(cfg: Config, now: int, e: int)
    requires
        cfg.start_time <= now,
    ensures
        0 <= emission_of(cfg, now, e) <= epoch_rate_of(cfg, e),
{
    let rate = epoch_rate_of(cfg, e);
    let elapsed = elapsed_in(cfg.start_time as int, now, e);
    assert(0 <= elapsed <= WEEK);
    assert(0 <= (rate / (WEEK as int)) * elapsed <= rate) by (nonlinear_arith)
        requires
            0 <= rate,
            0 <= elapsed <= WEEK,
            WEEK == 604800,
    ;
}

/// A stake never gathers negative weight.
pub proof fn lemma_stake_seconds_nonnegative(start: int, stake: Stake, now: int, e: int)
    ensures
        stake_seconds(start, stake, now, e) >= 0,
{
    let seconds = epoch_overlap(start, stake.time as int, now, e);
    assert(stake.amount * seconds >= 0) by (nonlinear_arith)
        requires
            stake.amount >= 0,
            seconds >= 0,
    ;
}

/// The shares of an epoch are never negative, so the sum of the shares
/// never shrinks as epochs are added.
pub proof fn lemma_earned_through_grows(
    cfg: Config,
    member: Stake,
    total: Stake,
    member_weights: Seq<u128>,
    epoch_weights: Seq<u128>,
    now: int,
    m: int,
    n: int,
)
    requires
        cfg.start_time <= now,
        m <= n,
    ensures
        0 <= earned_through(cfg, member, total, member_weights, epoch_weights, now, m)
            <= earned_through(cfg, member, total, member_weights, epoch_weights, now, n),
    decreases n - m, n,
{
    if m < n {
        lemma_earned_through_grows(
            cfg,
            member,
            total,
            member_weights,
            epoch_weights,
            now,
            m,
            n - 1,
        );
        if n > 0 {
            lemma_emission_bounds(cfg, now, n);
            lemma_stake_seconds_nonnegative(cfg.start_time as int, member, now, n);
            lemma_stake_seconds_nonnegative(cfg.start_time as int, total, now, n);
            lemma_share_nonnegative(
                emission_of(cfg, now, n),
                projected(cfg.start_time as int, member_weights, member, now, n),
                projected(cfg.start_time as int, epoch_weights, total, now, n),
            );
        }
    } else if m > 0 {
        lemma_earned_through_grows(
            cfg,
            member,
            total,
            member_weights,
            epoch_weights,
            now,
            m - 1,
            m - 1,
        );
        lemma_emission_bounds(cfg, now, m);
        lemma_stake_seconds_nonnegative(cfg.start_time as int, member, now, m);
        lemma_stake_seconds_nonnegative(cfg.start_time as int, total, now, m);
        lemma_share_nonnegative(
            emission_of(cfg, now, m),
            projected(cfg.start_time as int, member_weights, member, now, m),
            projected(cfg.start_time as int, epoch_weights, total, now, m),
        );
    }
}

/// What epoch `epoch` has emitted at `now`. Fails with `Underflow` exactly
/// when `now` lies before the start of the distribution.
pub fn epoch_emission(cfg: &Config, now: u64, epoch: u64) -> (r: Result<u128, ContractError>)
    ensures
        now < cfg.start_time ==> r is Err && r->Err_0 is Underflow,
        now >= cfg.start_time ==> r is Ok && r->Ok_0 == emission_of(*cfg, now as int, epoch as int),
{
    let current = match epoch_id(cfg, now) {
        Ok(epoch) => epoch,
        Err(e) => { return Err(e); },
    };
    let elapsed: u64 = if epoch < current {
        WEEK
    } else if epoch == current {
        (now - cfg.start_time) % WEEK
    } else {
        0
    };
    let rate = epoch_rate(cfg, epoch);
    let per_second: u128 = rate / (WEEK as u128);
    assert(per_second * elapsed <= rate) by (nonlinear_arith)
        requires
            per_second == rate / (WEEK as u128),
            0 <= elapsed <= WEEK,
            WEEK == 604800,
    ;
    Ok(per_second * (elapsed as u128))
}

/// What the member has earned up to `now`: for every epoch from the first
/// through the one that holds `now`, the member's share of what the epoch
/// has emitted, in proportion to the member's weight in it. The stakes are
/// settled up to `now` first, on copies: no argument is changed, and the
/// same arguments always give the same result.
///
/// Fails with `Underflow` when `now` lies before the start of the
/// distribution or an outstanding stake cannot be settled, else with
/// `Overflow` when a step of the computation leaves `u128`.
pub fn earned(
    cfg: &Config,
    member: &Stake,
    total: &Stake,
    member_weights: &Vec<u128>,
    epoch_weights: &Vec<u128>,
    now: u64,
) -> (r: Result<u128, ContractError>)
    ensures
        r == earned_outcome(*cfg, *member, *total, member_weights@, epoch_weights@, now as int),
{
    let ghost start = cfg.start_time as int;
    let last = match epoch_id(cfg, now) {
        Ok(epoch) => epoch,
        Err(e) => { return Err(e); },
    };
    if member.amount > 0 && (member.time < cfg.start_time || now < member.time) {
        return Err(ContractError::Underflow);
    }
    if total.amount > 0 && (total.time < cfg.start_time || now < total.time) {
        return Err(ContractError::Underflow);
    }
    let member_settled = match settle(cfg, member_weights, member, now) {
        Ok(w) => w,
        Err(e) => { return Err(e); },
    };
    let epoch_settled = match settle(cfg, epoch_weights, total, now) {
        Ok(w) => w,
        Err(e) => { return Err(e); },
    };
    let mut sum: u128 = 0;
    let mut epoch: u64 = 1;
    while epoch <= last
        invariant
            start == cfg.start_time as int,
            cfg.start_time <= now,
            last == epoch_of(start, now as int),
            1 <= epoch <= last + 1,
            !earned_underflows(*cfg, *member, *total, now as int),
            settled(start, member_weights@, *member, now as int, member_settled@),
            settled(start, epoch_weights@, *total, now as int, epoch_settled@),
            sum == earned_through(
                *cfg,
                *member,
                *total,
                member_weights@,
                epoch_weights@,
                now as int,
                epoch - 1,
            ),
            forall|e: int|
                1 <= e < epoch && projected(start, epoch_weights@, *total, now as int, e) != 0
                    ==> emission_of(*cfg, now as int, e) * #[trigger] projected(
                    start,
                    member_weights@,
                    *member,
                    now as int,
                    e,
                ) <= u128::MAX,
        decreases last + 1 - epoch,
    {
        let emission = match epoch_emission(cfg, now, epoch) {
            Ok(amount) => amount,
            Err(e) => { return Err(e); },
        };
        let member_weight = stored_weight(&member_settled, epoch);
        let epoch_weight = stored_weight(&epoch_settled, epoch);
        proof {
            assert(member_weight == projected(
                start,
                member_weights@,
                *member,
                now as int,
                epoch as int,
            ));
            assert(epoch_weight == projected(
                start,
                epoch_weights@,
                *total,
                now as int,
                epoch as int,
            ));
        }
        if epoch_weight != 0 {
            let product = match emission.checked_mul(member_weight) {
                Some(p) => p,
                None => {
                    assert(share_overflows(
                        *cfg,
                        *member,
                        *total,
                        member_weights@,
                        epoch_weights@,
                        now as int,
                    ));
                    return Err(ContractError::Overflow);
                },
            };
            let share = product / epoch_weight;
            assert(share == earned_in(
                *cfg,
                *member,
                *total,
                member_weights@,
                epoch_weights@,
                now as int,
                epoch as int,
            ));
            sum = match sum.checked_add(share) {
                Some(s) => s,
                None => {
                    proof {
                        lemma_earned_through_grows(
                            *cfg,
                            *member,
                            *total,
                            member_weights@,
                            epoch_weights@,
                            now as int,
                            epoch as int,
                            last as int,
                        );
                    }
                    return Err(ContractError::Overflow);
                },
            };
        }
        epoch = epoch + 1;
    }
    Ok(sum)
}

} // verus!
