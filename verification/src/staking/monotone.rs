//! When the reward earned grows with time.

use vstd::prelude::*;
use crate::staking::accrual::{
    accrue_underflows,
    epoch_overlap,
    lemma_overlap_outside,
    lemma_overlap_splits,
    lemma_projected_bounds,
    projected,
};
use crate::staking::epoch::{WEEK, epoch_of};
use crate::staking::reward::{
    earned_in,
    earned_through,
    earned_total,
    earned_underflows,
    elapsed_in,
    emission_of,
    lemma_earned_through_grows,
    lemma_emission_bounds,
    lemma_share_nonnegative,
    share_of,
};
use crate::staking::schedule::epoch_rate_of;
use crate::staking::state::{Config, Stake};

verus! {

/// Of two fractions of non-negative numbers, the one that is no larger has
/// the quotient, rounded down, that is no larger.
pub proof fn lemma_quotients_ordered(p: int, q: int, r: int, s: int)
    requires
        0 <= p,
        0 <= r,
        0 < q,
        0 < s,
        p * s <= r * q,
    ensures
        p / q <= r / s,
{
    let a = p / q;
    let b = r / s;
    assert(a * q <= p && p < (a + 1) * q) by (nonlinear_arith)
        requires
            a == p / q,
            0 < q,
    ;
    assert(b * s <= r && r < (b + 1) * s) by (nonlinear_arith)
        requires
            b == r / s,
            0 < s,
    ;
    if a > b {
        assert((b + 1) * s <= a * s) by (nonlinear_arith)
            requires
                b + 1 <= a,
                0 < s,
        ;
        assert(r * q < (a * s) * q) by (nonlinear_arith)
            requires
                r < a * s,
                0 < q,
        ;
        assert((a * q) * s <= p * s) by (nonlinear_arith)
            requires
                a * q <= p,
                0 < s,
        ;
        assert((a * s) * q == (a * q) * s) by (nonlinear_arith);
        assert(false);
    }
}

/// A share does not shrink while the emission grows and both weights grow
/// by what the stakes gather over the same seconds, provided the member
/// holds at least as large a part of the stake as it holds of the weight.
pub proof fn lemma_share_grows(
    emission: int,
    later_emission: int,
    member_weight: int,
    epoch_weight: int,
    member_stake: int,
    total_stake: int,
    seconds: int,
)
    requires
        0 <= emission <= later_emission,
        0 <= member_weight,
        0 <= epoch_weight,
        0 <= member_stake,
        0 <= total_stake,
        0 <= seconds,
        epoch_weight == 0 || total_stake * member_weight <= member_stake * epoch_weight,
    ensures
        share_of(emission, member_weight, epoch_weight) <= share_of(
            later_emission,
            member_weight + member_stake * seconds,
            epoch_weight + total_stake * seconds,
        ),
{
    let later_member = member_weight + member_stake * seconds;
    let later_epoch = epoch_weight + total_stake * seconds;
    assert(member_stake * seconds >= 0 && total_stake * seconds >= 0) by (nonlinear_arith)
        requires
            0 <= member_stake,
            0 <= total_stake,
            0 <= seconds,
    ;
    lemma_share_nonnegative(later_emission, later_member, later_epoch);
    if epoch_weight != 0 {
        assert(member_weight * later_epoch <= later_member * epoch_weight) by (nonlinear_arith)
            requires
                later_member == member_weight + member_stake * seconds,
                later_epoch == epoch_weight + total_stake * seconds,
                total_stake * member_weight <= member_stake * epoch_weight,
                0 <= seconds,
        ;
        assert((emission * member_weight) * later_epoch <= (later_emission * later_member)
            * epoch_weight) by (nonlinear_arith)
            requires
                member_weight * later_epoch <= later_member * epoch_weight,
                0 <= emission <= later_emission,
                0 <= member_weight,
                0 <= later_member,
                0 <= epoch_weight,
                0 <= later_epoch,
        ;
        assert(emission * member_weight >= 0 && later_emission * later_member >= 0)
            by (nonlinear_arith)
            requires
                0 <= emission <= later_emission,
                0 <= member_weight,
                0 <= later_member,
        ;
        lemma_quotients_ordered(
            emission * member_weight,
            epoch_weight,
            later_emission * later_member,
            later_epoch,
        );
    }
}

/// Between `earlier` and `later` a stake that can be settled at `earlier`
/// gathers in epoch `e` what it gathers over `[earlier, later)`.
pub proof fn lemma_projection_grows(
    start: int,
    weights: Seq<u128>,
    stake: Stake,
    earlier: int,
    later: int,
    e: int,
)
    requires
        earlier <= later,
        !accrue_underflows(start, stake, earlier),
    ensures
        projected(start, weights, stake, later, e) == projected(start, weights, stake, earlier, e)
            + stake.amount * epoch_overlap(start, earlier, later, e),
{
    let amount = stake.amount as int;
    let before = epoch_overlap(start, stake.time as int, earlier, e);
    let whole = epoch_overlap(start, stake.time as int, later, e);
    let between = epoch_overlap(start, earlier, later, e);
    if amount > 0 {
        lemma_overlap_splits(start, stake.time as int, earlier, later, e);
        assert(amount * (before + between) == amount * before + amount * between)
            by (nonlinear_arith);
    } else {
        assert(amount == 0 ==> amount * whole == 0 && amount * before == 0 && amount * between
            == 0) by (nonlinear_arith);
    }
}

/// The share of every epoch up to the one open at `earlier` is at `later`
/// no smaller than at `earlier`.
pub proof fn lemma_epoch_share_grows(
    cfg: Config,
    member: Stake,
    total: Stake,
    member_weights: Seq<u128>,
    epoch_weights: Seq<u128>,
    earlier: int,
    later: int,
    e: int,
)
    requires
        earlier <= later,
        !earned_underflows(cfg, member, total, earlier),
        e <= epoch_of(cfg.start_time as int, earlier),
        stake_keeps_pace(cfg, member, total, member_weights, epoch_weights, earlier),
    ensures
        earned_in(cfg, member, total, member_weights, epoch_weights, earlier, e) <= earned_in(
            cfg,
            member,
            total,
            member_weights,
            epoch_weights,
            later,
            e,
        ),
{
    let start = cfg.start_time as int;
    let open = epoch_of(start, earlier);
    let seconds = epoch_overlap(start, earlier, later, e);
    let member_weight = projected(start, member_weights, member, earlier, e);
    let epoch_weight = projected(start, epoch_weights, total, earlier, e);
    lemma_projection_grows(start, member_weights, member, earlier, later, e);
    lemma_projection_grows(start, epoch_weights, total, earlier, later, e);
    lemma_projected_bounds(start, member_weights, member, earlier, e);
    lemma_projected_bounds(start, epoch_weights, total, earlier, e);
    lemma_emission_bounds(cfg, earlier, e);
    let rate = epoch_rate_of(cfg, e) / (WEEK as int);
    let elapsed = elapsed_in(start, earlier, e);
    let later_elapsed = elapsed_in(start, later, e);
    assert(elapsed <= later_elapsed);
    assert(rate * elapsed <= rate * later_elapsed) by (nonlinear_arith)
        requires
            0 <= rate,
            elapsed <= later_elapsed,
    ;
    if e < open {
        lemma_overlap_outside(start, earlier, later, e);
        assert(member.amount * seconds == 0 && total.amount * seconds == 0)
            by (nonlinear_arith)
            requires
                seconds == 0,
        ;
        assert(emission_of(cfg, earlier, e) == emission_of(cfg, later, e));
    } else {
        lemma_share_grows(
            emission_of(cfg, earlier, e),
            emission_of(cfg, later, e),
            member_weight,
            epoch_weight,
            member.amount as int,
            total.amount as int,
            seconds,
        );
    }
}

/// In the epoch open at `now` the member holds at least as large a part of
/// the total stake as it holds of the weight gathered in that epoch so far.
pub open spec fn stake_keeps_pace(
    cfg: Config,
    member: Stake,
    total: Stake,
    member_weights: Seq<u128>,
    epoch_weights: Seq<u128>,
    now: int,
) -> bool {
    let start = cfg.start_time as int;
    let open = epoch_of(start, now);
    let member_weight = projected(start, member_weights, member, now, open);
    let epoch_weight = projected(start, epoch_weights, total, now, open);
    epoch_weight == 0 || total.amount * member_weight <= member.amount * epoch_weight
}

/// The sum of the shares of the epochs up to the one open at `earlier` is
/// at `later` no smaller than at `earlier`.
pub proof fn lemma_earned_through_later(
    cfg: Config,
    member: Stake,
    total: Stake,
    member_weights: Seq<u128>,
    epoch_weights: Seq<u128>,
    earlier: int,
    later: int,
    n: int,
)
    requires
        earlier <= later,
        !earned_underflows(cfg, member, total, earlier),
        n <= epoch_of(cfg.start_time as int, earlier),
        stake_keeps_pace(cfg, member, total, member_weights, epoch_weights, earlier),
    ensures
        earned_through(cfg, member, total, member_weights, epoch_weights, earlier, n)
            <= earned_through(cfg, member, total, member_weights, epoch_weights, later, n),
    decreases n,
{
    if n > 0 {
        lemma_earned_through_later(
            cfg,
            member,
            total,
            member_weights,
            epoch_weights,
            earlier,
            later,
            n - 1,
        );
        lemma_epoch_share_grows(
            cfg,
            member,
            total,
            member_weights,
            epoch_weights,
            earlier,
            later,
            n,
        );
    }
}

/// For a fixed stake history the reward earned does not shrink as time
/// goes by, provided that in the epoch open at the earlier time the member
/// holds at least as large a part of the total stake as it holds of the
/// weight of that epoch. (Without that, a stake that grows around the member
/// dilutes the member's part of the open epoch faster than the epoch emits.)
pub proof fn earned_grows_with_time(
    cfg: Config,
    member: Stake,
    total: Stake,
    member_weights: Seq<u128>,
    epoch_weights: Seq<u128>,
    earlier: u64,
    later: u64,
)
    requires
        earlier <= later,
        !earned_underflows(cfg, member, total, earlier as int),
        stake_keeps_pace(cfg, member, total, member_weights, epoch_weights, earlier as int),
    ensures
        earned_total(cfg, member, total, member_weights, epoch_weights, earlier as int)
            <= earned_total(cfg, member, total, member_weights, epoch_weights, later as int),
{
    let start = cfg.start_time as int;
    lemma_earned_through_later(
        cfg,
        member,
        total,
        member_weights,
        epoch_weights,
        earlier as int,
        later as int,
        epoch_of(start, earlier as int),
    );
    lemma_earned_through_grows(
        cfg,
        member,
        total,
        member_weights,
        epoch_weights,
        later as int,
        epoch_of(start, earlier as int),
        epoch_of(start, later as int),
    );
}

} // verus!
