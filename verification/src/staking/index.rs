//! The reward index: the reward that one staked token has gathered since
//! the first stake, kept as one running number instead of a weight for
//! every epoch.

use vstd::prelude::*;
use vstd::arithmetic::div_mod::lemma_hoist_over_denominator;
use crate::math::{
    Decimal,
    DECIMAL_FRACTIONAL,
    lemma_ratio_within_amount,
    mul_decimal,
    multiply_ratio,
    ratio_of,
    times,
};
use crate::staking::accrual::overlap;
use crate::staking::state::{Config, Schedule};

verus! {

/// The total stake, when it last changed, and the reward index then.
#[derive(Clone, Copy, Debug, PartialEq, Eq, Structural)]
pub struct State {
    pub total_stake: u128,
    pub last_updated: u64,
    pub global_reward_index: Decimal,
}

/// The stake of a member, the index at its last change, and its reward
/// earned and withdrawn so far.
#[derive(Clone, Copy, Debug, PartialEq, Eq, Structural)]
pub struct MemberInfo {
    pub stake: u128,
    pub reward_index: Decimal,
    pub pending_reward: u128,
    pub withdrawn: u128,
}

/// What the schedule entry emits in a second, rounded down; nothing where
/// the entry spans no time.
pub open spec fn per_second(entry: Schedule) -> int {
    if entry.end_time > entry.start_time {
        entry.amount as int / (entry.end_time - entry.start_time)
    } else {
        0
    }
}

/// What the entry emits between `from` and `to`: its rate for every second
/// of `[from, to)` that lies inside its span.
pub open spec fn emitted_by(entry: Schedule, from: int, to: int) -> int {
    per_second(entry) * overlap(from, to, entry.start_time as int, entry.end_time as int)
}

/// What the schedule emits between `from` and `to`: the sum of what each
/// of its entries emits.
pub open spec fn distributed(schedule: Seq<Schedule>, from: int, to: int) -> int
    decreases schedule.len(),
{
    if schedule.len() == 0 {
        0
    } else {
        distributed(schedule.drop_last(), from, to) + emitted_by(schedule.last(), from, to)
    }
}

/// By how much the index grows between the last update and `time`: what
/// has been emitted, for each staked token. While nothing is staked nobody
/// earns, and the index does not grow.
pub open spec fn index_growth(cfg: Config, state: State, time: int) -> int {
    if state.total_stake == 0 {
        0
    } else {
        distributed(cfg.distribution_schedule@, state.last_updated as int, time) * (
        DECIMAL_FRACTIONAL as int) / (state.total_stake as int)
    }
}

/// Whether the index can be computed at `time`: time has not gone back,
/// and neither what has been emitted nor the index leaves `u128`.
pub open spec fn index_defined(cfg: Config, state: State, time: int) -> bool {
    state.last_updated == 0 || {
        &&& state.last_updated <= time
        &&& state.total_stake != 0 ==> distributed(
            cfg.distribution_schedule@,
            state.last_updated as int,
            time,
        ) <= u128::MAX
        &&& state.global_reward_index.atomics + index_growth(cfg, state, time) <= u128::MAX
    }
}

/// The reward index at `time`: zero before the first stake, else the index
/// stored plus its growth since.
pub open spec fn reward_index_at(cfg: Config, state: State, time: int) -> int {
    if state.last_updated == 0 {
        0
    } else {
        state.global_reward_index.atomics + index_growth(cfg, state, time)
    }
}

/// The reward of a member at the index `global`: what it had pending, plus
/// what its stake has gathered since the index it was last settled at.
pub open spec fn member_reward_at(member: MemberInfo, global: Decimal) -> int {
    member.pending_reward + times(member.stake, global) - times(member.stake, member.reward_index)
}

/// Whether the reward of a member can be computed at the index `global`.
pub open spec fn member_reward_defined(member: MemberInfo, global: Decimal) -> bool {
    &&& times(member.stake, global) <= u128::MAX
    &&& times(member.stake, member.reward_index) <= times(member.stake, global)
    &&& member_reward_at(member, global) <= u128::MAX
}

/// An entry never emits a negative amount, nor more than its budget, and
/// never less as time goes on.
pub proof fn lemma_emitted_bounds(entry: Schedule, from: int, earlier: int, later: int)
    requires
        earlier <= later,
    ensures
        0 <= emitted_by(entry, from, earlier) <= emitted_by(entry, from, later) <= entry.amount,
        emitted_by(entry, from, from) == 0,
{
    let rate = per_second(entry);
    let span = entry.end_time - entry.start_time;
    let first = overlap(from, earlier, entry.start_time as int, entry.end_time as int);
    let second = overlap(from, later, entry.start_time as int, entry.end_time as int);
    assert(rate * 0 == 0) by (nonlinear_arith);
    if entry.end_time > entry.start_time {
        assert(0 <= rate && rate * span <= entry.amount) by (nonlinear_arith)
            requires
                rate == entry.amount as int / span,
                span > 0,
        ;
        assert(0 <= rate * first <= rate * second <= rate * span) by (nonlinear_arith)
            requires
                0 <= rate,
                0 <= first <= second <= span,
        ;
    } else {
        assert(0 * first == 0 && 0 * second == 0) by (nonlinear_arith);
    }
}

/// A schedule never emits a negative amount, never less as time goes on,
/// and nothing over no time.
pub proof fn lemma_distributed_grows(
    schedule: Seq<Schedule>,
    from: int,
    earlier: int,
    later: int,
)
    requires
        earlier <= later,
    ensures
        0 <= distributed(schedule, from, earlier) <= distributed(schedule, from, later),
        distributed(schedule, from, from) == 0,
    decreases schedule.len(),
{
    if schedule.len() > 0 {
        lemma_distributed_grows(schedule.drop_last(), from, earlier, later);
        lemma_emitted_bounds(schedule.last(), from, earlier, later);
    }
}

/// The first entries of a schedule emit no more than the whole schedule.
pub proof fn lemma_distributed_prefix(schedule: Seq<Schedule>, from: int, to: int, n: int)
    requires
        0 <= n <= schedule.len(),
    ensures
        0 <= distributed(schedule.take(n), from, to) <= distributed(schedule, from, to),
    decreases schedule.len() - n,
{
    lemma_distributed_grows(schedule.take(n), from, to, to);
    if n == schedule.len() {
        assert(schedule.take(n) =~= schedule);
    } else {
        lemma_distributed_prefix(schedule, from, to, n + 1);
        assert(schedule.take(n + 1).drop_last() =~= schedule.take(n));
        lemma_emitted_bounds(schedule[n], from, to, to);
    }
}

/// The index never shrinks as time goes on, never lies below the index
/// stored, and is the index stored as long as no time has passed or
/// nothing is staked.
pub proof fn reward_index_never_shrinks(cfg: Config, state: State, earlier: u64, later: u64)
    requires
        state.last_updated <= earlier <= later,
    ensures
        reward_index_at(cfg, state, earlier as int) <= reward_index_at(cfg, state, later as int),
        state.last_updated != 0 ==> reward_index_at(cfg, state, earlier as int)
            >= state.global_reward_index.atomics,
        state.last_updated != 0 ==> reward_index_at(cfg, state, state.last_updated as int)
            == state.global_reward_index.atomics,
        state.last_updated != 0 && state.total_stake == 0 ==> reward_index_at(
            cfg,
            state,
            later as int,
        ) == state.global_reward_index.atomics,
{
    let from = state.last_updated as int;
    let schedule = cfg.distribution_schedule@;
    lemma_distributed_grows(schedule, from, earlier as int, later as int);
    lemma_distributed_grows(schedule, from, from, earlier as int);
    if state.total_stake != 0 {
        let unit = DECIMAL_FRACTIONAL as int;
        let stake = state.total_stake as int;
        let none = distributed(schedule, from, from);
        let first = distributed(schedule, from, earlier as int);
        let second = distributed(schedule, from, later as int);
        assert(none * unit / stake == 0) by (nonlinear_arith)
            requires
                none == 0,
                stake > 0,
        ;
        assert(0 <= first * unit / stake <= second * unit / stake) by (nonlinear_arith)
            requires
                0 <= first <= second,
                unit > 0,
                stake > 0,
        ;
    }
}

/// The reward of a member never shrinks as the index grows.
pub proof fn member_reward_grows_with_index(member: MemberInfo, lower: Decimal, higher: Decimal)
    requires
        lower.atomics <= higher.atomics,
    ensures
        member_reward_at(member, lower) <= member_reward_at(member, higher),
{
    let stake = member.stake as int;
    let unit = DECIMAL_FRACTIONAL as int;
    assert(stake * lower.atomics / unit <= stake * higher.atomics / unit) by (nonlinear_arith)
        requires
            0 <= stake,
            0 <= lower.atomics <= higher.atomics,
            unit > 0,
    ;
}

/// What the entry emits between `from` and `to`.
fn emitted(entry: &Schedule, from: u64, to: u64) -> (r: u128)
    ensures
        r == emitted_by(*entry, from as int, to as int),
{
    if entry.end_time <= entry.start_time {
        assert(0 * overlap(from as int, to as int, entry.start_time as int, entry.end_time as int)
            == 0) by (nonlinear_arith);
        return 0;
    }
    let lo = if from > entry.start_time { from } else { entry.start_time };
    let hi = if to < entry.end_time { to } else { entry.end_time };
    let seconds: u64 = if hi > lo { hi - lo } else { 0 };
    let rate = entry.amount / ((entry.end_time - entry.start_time) as u128);
    proof {
        lemma_emitted_bounds(*entry, from as int, to as int, to as int);
    }
    rate * (seconds as u128)
}

/// What the schedule emits between `from` and `to`; `None` exactly when
/// the sum leaves `u128`.
fn distributed_amount(cfg: &Config, from: u64, to: u64) -> (r: Option<u128>)
    ensures
        match r {
            Some(amount) => amount == distributed(
                cfg.distribution_schedule@,
                from as int,
                to as int,
            ),
            None => distributed(cfg.distribution_schedule@, from as int, to as int) > u128::MAX,
        },
{
    let mut sum: u128 = 0;
    let mut i: usize = 0;
    while i < cfg.distribution_schedule.len()
        invariant
            i <= cfg.distribution_schedule@.len(),
            sum == distributed(cfg.distribution_schedule@.take(i as int), from as int, to as int),
        decreases cfg.distribution_schedule@.len() - i,
    {
        let amount = emitted(&cfg.distribution_schedule[i], from, to);
        proof {
            assert(cfg.distribution_schedule@.take(i + 1).drop_last()
                =~= cfg.distribution_schedule@.take(i as int));
        }
        sum = match sum.checked_add(amount) {
            Some(s) => s,
            None => {
                proof {
                    lemma_distributed_prefix(
                        cfg.distribution_schedule@,
                        from as int,
                        to as int,
                        i + 1,
                    );
                }
                return None;
            },
        };
        i = i + 1;
    }
    assert(cfg.distribution_schedule@.take(i as int) =~= cfg.distribution_schedule@);
    Some(sum)
}

/// The reward index at `time`, where it can be computed.
fn index_if_defined(cfg: &Config, state: &State, time: u64) -> (r: Option<Decimal>)
    ensures
        r is Some <==> index_defined(*cfg, *state, time as int),
        r matches Some(index) ==> index.atomics == reward_index_at(*cfg, *state, time as int),
{
    // if there is first stake, the reward index is 0
    if state.last_updated == 0 {
        return Some(Decimal { atomics: 0 });
    }
    if time < state.last_updated {
        return None;
    }
    // while nothing is staked nobody earns
    if state.total_stake == 0 {
        return Some(state.global_reward_index);
    }
    let distributed_amount = match distributed_amount(cfg, state.last_updated, time) {
        Some(amount) => amount,
        None => { return None; },
    };
    // distributed amount per staked token, in parts of ten to the eighteenth
    let whole = distributed_amount / state.total_stake;
    let rest = distributed_amount % state.total_stake;
    proof {
        let unit = DECIMAL_FRACTIONAL as int;
        let stake = state.total_stake as int;
        lemma_ratio_within_amount(DECIMAL_FRACTIONAL, rest, state.total_stake);
        assert(unit * rest == rest * unit) by (nonlinear_arith);
        assert(distributed_amount * unit == rest * unit + (whole * unit) * stake)
            by (nonlinear_arith)
            requires
                distributed_amount == whole * stake + rest,
        ;
        lemma_hoist_over_denominator(rest * unit, whole * unit, stake as nat);
        assert(index_growth(*cfg, *state, time as int) == whole * unit + ratio_of(
            DECIMAL_FRACTIONAL,
            rest,
            state.total_stake,
        ));
        assert(whole * unit >= 0) by (nonlinear_arith)
            requires
                whole >= 0,
                unit >= 0,
        ;
    }
    let part = multiply_ratio(DECIMAL_FRACTIONAL, rest, state.total_stake);
    let growth = match whole.checked_mul(DECIMAL_FRACTIONAL) {
        Some(product) => match product.checked_add(part) {
            Some(growth) => growth,
            None => { return None; },
        },
        None => { return None; },
    };
    // global reward index is increased by distributed amount per staked token
    match state.global_reward_index.atomics.checked_add(growth) {
        Some(atomics) => Some(Decimal { atomics }),
        None => None,
    }
}

/// Whether the reward index can be computed at `time`.
pub fn can_compute_reward_index(cfg: &Config, state: &State, time: u64) -> (r: bool)
    ensures
        r == index_defined(*cfg, *state, time as int),
{
    index_if_defined(cfg, state, time).is_some()
}

/// The reward index at `time`: zero before the first stake; else the index
/// stored, grown by what every schedule entry has emitted since the last
/// update for each staked token. While nothing is staked the index stays
/// as it is stored.
pub fn compute_reward_index(cfg: &Config, state: &State, time: u64) -> (r: Decimal)
    requires
        index_defined(*cfg, *state, time as int),
    ensures
        r.atomics == reward_index_at(*cfg, *state, time as int),
{
    match index_if_defined(cfg, state, time) {
        Some(index) => index,
        None => state.global_reward_index,
    }
}

/// The reward of a member at the index `global`, where it can be computed.
fn member_reward_if_defined(member_info: &MemberInfo, global_reward_index: Decimal) -> (r: Option<
    u128,
>)
    ensures
        r is Some <==> member_reward_defined(*member_info, global_reward_index),
        r matches Some(reward) ==> reward == member_reward_at(*member_info, global_reward_index),
{
    let earned = match mul_decimal(member_info.stake, global_reward_index) {
        Some(product) => product,
        None => { return None; },
    };
    let settled = match mul_decimal(member_info.stake, member_info.reward_index) {
        Some(product) => product,
        None => { return None; },
    };
    let pending_reward = match earned.checked_sub(settled) {
        Some(difference) => difference,
        None => { return None; },
    };
    member_info.pending_reward.checked_add(pending_reward)
}

/// Whether the reward of a member can be computed at the index
/// `global_reward_index`.
pub fn can_compute_member_reward(member_info: &MemberInfo, global_reward_index: Decimal) -> (r:
    bool)
    ensures
        r == member_reward_defined(*member_info, global_reward_index),
{
    member_reward_if_defined(member_info, global_reward_index).is_some()
}

/// The reward of a member at the index `global_reward_index`.
pub fn compute_member_reward(member_info: &MemberInfo, global_reward_index: Decimal) -> (r: u128)
    requires
        member_reward_defined(*member_info, global_reward_index),
    ensures
        r == member_reward_at(*member_info, global_reward_index),
{
    match member_reward_if_defined(member_info, global_reward_index) {
        Some(reward) => reward,
        None => member_info.pending_reward,
    }
}

/// Settles a member at `time`: its index becomes the index at `time` and
/// its pending reward the reward at that index.
pub fn update_member_reward(state: &State, cfg: &Config, time: u64, member_info: &mut MemberInfo)
    requires
        index_defined(*cfg, *state, time as int),
        member_reward_defined(
            *old(member_info),
            Decimal { atomics: reward_index_at(*cfg, *state, time as int) as u128 },
        ),
    ensures
        final(member_info).reward_index.atomics == reward_index_at(*cfg, *state, time as int),
        final(member_info).pending_reward == member_reward_at(
            *old(member_info),
            final(member_info).reward_index,
        ),
        final(member_info).stake == old(member_info).stake,
        final(member_info).withdrawn == old(member_info).withdrawn,
{
    let global_reward_index = compute_reward_index(cfg, state, time);
    let reward = compute_member_reward(member_info, global_reward_index);
    member_info.reward_index = global_reward_index;
    member_info.pending_reward = reward;
}

} // verus!
