//! Stake-seconds: the weight a stake gathers in each epoch while it is
//! outstanding.

use vstd::prelude::*;
use crate::error::ContractError;
use crate::staking::epoch::{WEEK, epoch_end, epoch_id, epoch_of, epoch_start};
use crate::staking::state::{Config, Stake};

verus! {

/// The number of seconds that `[from, to)` shares with `[window_start,
/// window_end)`; zero when they do not meet.
pub open spec fn overlap(from: int, to: int, window_start: int, window_end: int) -> int {
    let lo = if from > window_start { from } else { window_start };
    let hi = if to < window_end { to } else { window_end };
    if hi > lo { hi - lo } else { 0 }
}

/// The number of seconds that `[from, to)` shares with epoch `e`.
pub open spec fn epoch_overlap(start: int, from: int, to: int, e: int) -> int {
    overlap(from, to, epoch_start(start, e), epoch_end(start, e))
}

/// The weight that `stake`, unchanged since `stake.time`, gathers in epoch
/// `e` up to `now`.
pub open spec fn stake_seconds(start: int, stake: Stake, now: int, e: int) -> int {
    stake.amount * epoch_overlap(start, stake.time as int, now, e)
}

/// Weight to be added to the accumulator of one epoch.
#[derive(Clone, Copy, Debug, PartialEq, Eq, Structural)]
pub struct WeightDelta {
    pub epoch: u64,
    pub weight: u128,
}

/// An outstanding stake cannot be settled when it was last changed before the
/// distribution began or after `now`.
pub open spec fn accrue_underflows(start: int, stake: Stake, now: int) -> bool {
    stake.amount > 0 && (stake.time < start || now < stake.time)
}

/// Settling fails when the weight of some epoch does not fit the accumulator.
pub open spec fn accrue_overflows(start: int, stake: Stake, now: int) -> bool {
    stake.amount > 0 && exists|e: int|
        epoch_of(start, stake.time as int) <= e <= epoch_of(start, now) && #[trigger] stake_seconds(
            start,
            stake,
            now,
            e,
        ) > u128::MAX
}

/// The deltas that settling `stake` up to `now` yields: none for an empty
/// stake, else one for each epoch from the one that holds `stake.time`
/// through the one that holds `now`.
pub open spec fn accrued(start: int, stake: Stake, now: int) -> Seq<WeightDelta> {
    if stake.amount == 0 {
        Seq::empty()
    } else {
        let first = epoch_of(start, stake.time as int);
        let last = epoch_of(start, now);
        Seq::new(
            (last - first + 1) as nat,
            |i: int|
                WeightDelta {
                    epoch: (first + i) as u64,
                    weight: stake_seconds(start, stake, now, first + i) as u128,
                },
        )
    }
}

/// Outside the epochs that `[from, to)` touches no weight is gathered.
pub proof fn lemma_overlap_outside(start: int, from: int, to: int, e: int)
    requires
        start <= from <= to,
        e < epoch_of(start, from) || e > epoch_of(start, to),
    ensures
        epoch_overlap(start, from, to, e) == 0,
{
}

/// Weight gathered over `[from, to)` is the weight gathered up to any point
/// in between plus the weight gathered from there on.
pub proof fn lemma_overlap_splits(start: int, from: int, mid: int, to: int, e: int)
    requires
        from <= mid <= to,
    ensures
        epoch_overlap(start, from, to, e) == epoch_overlap(start, from, mid, e) + epoch_overlap(
            start,
            mid,
            to,
            e,
        ),
{
}

/// The seconds that `[from, to)` shares with epoch `epoch`.
pub fn overlap_seconds(start_time: u64, from: u64, to: u64, epoch: u64) -> (r: u64)
    ensures
        r == epoch_overlap(start_time as int, from as int, to as int, epoch as int),
        r <= WEEK,
{
    if epoch == 0 {
        let lo = if start_time >= WEEK && start_time - WEEK > from {
            start_time - WEEK
        } else {
            from
        };
        let hi = if to < start_time { to } else { start_time };
        return if hi > lo { hi - lo } else { 0 };
    }
    let offset = match (epoch - 1).checked_mul(WEEK) {
        Some(o) => o,
        None => { return 0; },
    };
    let window_start = match start_time.checked_add(offset) {
        Some(s) => s,
        None => { return 0; },
    };
    let lo = if from > window_start { from } else { window_start };
    let hi = match window_start.checked_add(WEEK) {
        Some(window_end) => if to < window_end { to } else { window_end },
        None => to,
    };
    if hi > lo { hi - lo } else { 0 }
}

/// Settles `stake` up to `now`: the weight it gathered in each epoch since
/// its last change. Nothing is read but the arguments and nothing is stored.
///
/// Fails with `Underflow` when an outstanding stake was last changed before
/// the distribution began or after `now`, else with `Overflow` when the
/// weight of an epoch exceeds `u128::MAX`.
pub fn accrue(cfg: &Config, stake: &Stake, now: u64) -> (r: Result<
    Vec<WeightDelta>,
    ContractError,
>)
    ensures
        match r {
            Ok(deltas) => {
                &&& !accrue_underflows(cfg.start_time as int, *stake, now as int)
                &&& !accrue_overflows(cfg.start_time as int, *stake, now as int)
                &&& deltas@ == accrued(cfg.start_time as int, *stake, now as int)
            },
            Err(e) => if accrue_underflows(cfg.start_time as int, *stake, now as int) {
                e is Underflow
            } else {
                accrue_overflows(cfg.start_time as int, *stake, now as int) && e is Overflow
            },
        },
{
    if stake.amount == 0 {
        return Ok(Vec::new());
    }
    let first = match epoch_id(cfg, stake.time) {
        Ok(epoch) => epoch,
        Err(e) => { return Err(e); },
    };
    if now < stake.time {
        return Err(ContractError::Underflow);
    }
    let last = match epoch_id(cfg, now) {
        Ok(epoch) => epoch,
        Err(e) => { return Err(e); },
    };
    let start_time = cfg.start_time;
    let mut deltas: Vec<WeightDelta> = Vec::new();
    let mut epoch: u64 = first;
    while epoch <= last
        invariant
            stake.amount > 0,
            start_time == cfg.start_time,
            start_time <= stake.time <= now,
            first == epoch_of(start_time as int, stake.time as int),
            last == epoch_of(start_time as int, now as int),
            first <= epoch <= last + 1,
            deltas@.len() == epoch - first,
            forall|i: int|
                0 <= i < deltas@.len() ==> deltas@[i] == accrued(
                    start_time as int,
                    *stake,
                    now as int,
                )[i],
            forall|e: int|
                first <= e < epoch ==> #[trigger] stake_seconds(
                    start_time as int,
                    *stake,
                    now as int,
                    e,
                ) <= u128::MAX,
        decreases last + 1 - epoch,
    {
        let seconds = overlap_seconds(start_time, stake.time, now, epoch);
        match stake.amount.checked_mul(seconds as u128) {
            Some(weight) => {
                deltas.push(WeightDelta { epoch, weight });
            },
            None => {
                assert(stake_seconds(start_time as int, *stake, now as int, epoch as int)
                    > u128::MAX);
                return Err(ContractError::Overflow);
            },
        }
        epoch = epoch + 1;
    }
    assert(deltas@ =~= accrued(start_time as int, *stake, now as int));
    Ok(deltas)
}

/// The weight stored for epoch `e`: the entry at index `e - 1`, zero where
/// nothing has been stored yet.
pub open spec fn weight_at(weights: Seq<u128>, e: int) -> int {
    if 1 <= e <= weights.len() {
        weights[e - 1] as int
    } else {
        0
    }
}

/// The weight of epoch `e` once `stake` is settled up to `now`: what is
/// stored plus what the stake has gathered since its last change.
pub open spec fn projected(start: int, weights: Seq<u128>, stake: Stake, now: int, e: int) -> int {
    weight_at(weights, e) + stake_seconds(start, stake, now, e)
}

/// Settling overflows when the weight of some epoch would exceed `u128::MAX`.
pub open spec fn settle_overflows(start: int, weights: Seq<u128>, stake: Stake, now: int) -> bool {
    exists|e: int| #[trigger] projected(start, weights, stake, now, e) > u128::MAX
}

/// `result` is `weights` with `stake` settled up to `now`: every epoch holds
/// its projected weight, and the accumulator reaches just as far as needed.
pub open spec fn settled(
    start: int,
    weights: Seq<u128>,
    stake: Stake,
    now: int,
    result: Seq<u128>,
) -> bool {
    &&& result.len() == if stake.amount > 0 && epoch_of(start, now) > weights.len() {
        epoch_of(start, now)
    } else {
        weights.len() as int
    }
    &&& forall|e: int| #[trigger]
        projected(start, weights, stake, now, e) == weight_at(result, e)
}

/// The weight stored for `epoch`.
pub fn stored_weight(weights: &Vec<u128>, epoch: u64) -> (r: u128)
    ensures
        r == weight_at(weights@, epoch as int),
{
    if epoch >= 1 && epoch - 1 < weights.len() as u64 {
        weights[(epoch - 1) as usize]
    } else {
        0
    }
}

/// Adds to `weights` what `stake` has gathered since its last change, epoch
/// by epoch, and returns the new accumulator; `weights` itself is left as it
/// is, so the same call serves a read-only projection.
///
/// Fails with `Underflow` as `accrue` does, else with `Overflow` when the
/// weight of an epoch would exceed `u128::MAX`.
pub fn settle(cfg: &Config, weights: &Vec<u128>, stake: &Stake, now: u64) -> (r: Result<
    Vec<u128>,
    ContractError,
>)
    ensures
        match r {
            Ok(result) => {
                &&& !accrue_underflows(cfg.start_time as int, *stake, now as int)
                &&& !settle_overflows(cfg.start_time as int, weights@, *stake, now as int)
                &&& settled(cfg.start_time as int, weights@, *stake, now as int, result@)
            },
            Err(e) => if accrue_underflows(cfg.start_time as int, *stake, now as int) {
                e is Underflow
            } else {
                settle_overflows(cfg.start_time as int, weights@, *stake, now as int) && e
                    is Overflow
            },
        },
{
    let ghost start = cfg.start_time as int;
    let deltas = match accrue(cfg, stake, now) {
        Ok(d) => d,
        Err(e) => {
            proof {
                if !accrue_underflows(start, *stake, now as int) {
                    let bad = choose|b: int|
                        epoch_of(start, stake.time as int) <= b <= epoch_of(start, now as int)
                            && #[trigger] stake_seconds(start, *stake, now as int, b)
                            > u128::MAX;
                    assert(projected(start, weights@, *stake, now as int, bad) > u128::MAX);
                }
            }
            return Err(e);
        },
    };
    let mut out: Vec<u128> = Vec::new();
    let mut i: usize = 0;
    while i < weights.len()
        invariant
            i <= weights@.len(),
            out@ == weights@.subrange(0, i as int),
        decreases weights@.len() - i,
    {
        out.push(weights[i]);
        i = i + 1;
    }
    assert(out@ =~= weights@);
    if deltas.len() == 0 {
        proof {
            assert(stake.amount == 0);
            assert forall|e: int| #[trigger]
                projected(start, weights@, *stake, now as int, e) == weight_at(out@, e) by {
                assert(stake_seconds(start, *stake, now as int, e) == 0) by (nonlinear_arith)
                    requires
                        stake.amount == 0,
                        stake_seconds(start, *stake, now as int, e) == stake.amount
                            * epoch_overlap(start, stake.time as int, now as int, e),
                ;
            }
        }
        return Ok(out);
    }
    let ghost first = epoch_of(start, stake.time as int);
    let ghost last = epoch_of(start, now as int);
    let last_epoch: u64 = deltas[deltas.len() - 1].epoch;
    assert(last_epoch == last);
    while (out.len() as u64) < last_epoch
        invariant
            out@.len() >= weights@.len(),
            out@.len() <= last_epoch || out@.len() == weights@.len(),
            forall|e: int| weight_at(out@, e) == weight_at(weights@, e),
        decreases last_epoch - out@.len(),
    {
        out.push(0);
    }
    let mut k: usize = 0;
    while k < deltas.len()
        invariant
            stake.amount > 0,
            start == cfg.start_time as int,
            start <= stake.time <= now,
            first == epoch_of(start, stake.time as int),
            last == epoch_of(start, now as int),
            1 <= first <= last,
            last <= out@.len(),
            out@.len() == if last > weights@.len() {
                last
            } else {
                weights@.len() as int
            },
            k <= deltas@.len(),
            deltas@ == accrued(start, *stake, now as int),
            !accrue_overflows(start, *stake, now as int),
            forall|e: int|
                first <= e < first + k ==> #[trigger] weight_at(out@, e) == projected(
                    start,
                    weights@,
                    *stake,
                    now as int,
                    e,
                ),
            forall|e: int|
                !(first <= e < first + k) ==> #[trigger] weight_at(out@, e) == weight_at(
                    weights@,
                    e,
                ),
        decreases deltas@.len() - k,
    {
        let delta = deltas[k];
        let length = out.len();
        assert(delta.epoch == first + k);
        assert(delta.epoch <= length);
        let index = (delta.epoch - 1) as usize;
        assert(stake_seconds(start, *stake, now as int, first + k) <= u128::MAX);
        assert(delta.weight == stake_seconds(start, *stake, now as int, first + k));
        assert(out@[index as int] == weight_at(out@, first + k));
        match out[index].checked_add(delta.weight) {
            Some(sum) => {
                let ghost before = out@;
                out.set(index, sum);
                proof {
                    assert(out@ == before.update(index as int, sum));
                    assert forall|e: int| first <= e < first + k + 1 implies #[trigger] weight_at(
                        out@,
                        e,
                    ) == projected(start, weights@, *stake, now as int, e) by {
                        if e != first + k {
                            assert(weight_at(out@, e) == weight_at(before, e));
                        }
                    }
                    assert forall|e: int| !(first <= e < first + k + 1) implies
                        #[trigger] weight_at( out@,
                        e,
                    ) == weight_at(weights@, e) by {
                        assert(weight_at(out@, e) == weight_at(before, e));
                    }
                }
            },
            None => {
                assert(projected(start, weights@, *stake, now as int, first + k) > u128::MAX);
                return Err(ContractError::Overflow);
            },
        }
        k = k + 1;
    }
    proof {
        assert forall|e: int| #[trigger]
            projected(start, weights@, *stake, now as int, e) == weight_at(out@, e) by {
            if !(first <= e <= last) {
                lemma_overlap_outside(start, stake.time as int, now as int, e);
                assert(stake_seconds(start, *stake, now as int, e) == 0) by (nonlinear_arith)
                    requires
                        epoch_overlap(start, stake.time as int, now as int, e) == 0,
                        stake_seconds(start, *stake, now as int, e) == stake.amount
                            * epoch_overlap(start, stake.time as int, now as int, e),
                ;
            }
        }
    }
    Ok(out)
}

/// The accumulator that settling yields, entry by entry.
pub open spec fn settled_weights(start: int, weights: Seq<u128>, stake: Stake, now: int) -> Seq<
    u128,
> {
    let len = if stake.amount > 0 && epoch_of(start, now) > weights.len() {
        epoch_of(start, now)
    } else {
        weights.len() as int
    };
    Seq::new(len as nat, |i: int| projected(start, weights, stake, now, i + 1) as u128)
}

/// Where settling succeeds, `settled_weights` is what it yields, and nothing
/// else is.
pub proof fn lemma_settled_weights(start: int, weights: Seq<u128>, stake: Stake, now: int)
    requires
        !accrue_underflows(start, stake, now),
        !settle_overflows(start, weights, stake, now),
    ensures
        settled(start, weights, stake, now, settled_weights(start, weights, stake, now)),
        forall|result: Seq<u128>| #[trigger]
            settled(start, weights, stake, now, result) ==> result == settled_weights(
                start,
                weights,
                stake,
                now,
            ),
{
    let target = settled_weights(start, weights, stake, now);
    assert forall|e: int| #[trigger]
        projected(start, weights, stake, now, e) == weight_at(target, e) by {
        lemma_projected_bounds(start, weights, stake, now, e);
        if !(1 <= e <= target.len()) {
            if stake.amount > 0 && e >= 1 {
                lemma_overlap_outside(start, stake.time as int, now, e);
            }
            lemma_zero_seconds(start, stake, now, e);
        }
    }
    assert forall|result: Seq<u128>| #[trigger]
        settled(start, weights, stake, now, result) implies result == target by {
        assert forall|i: int| 0 <= i < result.len() implies result[i] == target[i] by {
            assert(projected(start, weights, stake, now, i + 1) == weight_at(result, i + 1));
        }
        assert(result =~= target);
    }
}

/// A projected weight is never negative.
pub proof fn lemma_projected_bounds(
    start: int,
    weights: Seq<u128>,
    stake: Stake,
    now: int,
    e: int,
)
    ensures
        stake_seconds(start, stake, now, e) >= 0,
        projected(start, weights, stake, now, e) >= weight_at(weights, e) >= 0,
{
    let seconds = epoch_overlap(start, stake.time as int, now, e);
    assert(stake.amount * seconds >= 0) by (nonlinear_arith)
        requires
            stake.amount >= 0,
            seconds >= 0,
    ;
}

/// An empty stake gathers no weight, and no stake gathers weight in an epoch
/// it does not touch.
pub proof fn lemma_zero_seconds(start: int, stake: Stake, now: int, e: int)
    ensures
        stake.amount == 0 || epoch_overlap(start, stake.time as int, now, e) == 0
            ==> stake_seconds(start, stake, now, e) == 0,
{
    let seconds = epoch_overlap(start, stake.time as int, now, e);
    assert(stake.amount == 0 || seconds == 0 ==> stake.amount * seconds == 0)
        by (nonlinear_arith);
}

} // verus!
