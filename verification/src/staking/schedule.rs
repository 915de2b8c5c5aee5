//! Finds the emission rate in force at a point in time or over an epoch.

use vstd::prelude::*;
use crate::staking::epoch::{WEEK, EpochWindow, epoch_end, epoch_start, epoch_window};
use crate::staking::state::{Config, Schedule};

verus! {

/// Whether the entry's span `[start_time, end_time)` holds the whole window
/// `[window_start, window_end)`.
pub open spec fn covers(entry: Schedule, window_start: int, window_end: int) -> bool {
    entry.start_time <= window_start && window_end <= entry.end_time
}

/// The amount of the first entry from index `i` on that covers the window.
pub open spec fn rate_from(
    schedule: Seq<Schedule>,
    i: int,
    window_start: int,
    window_end: int,
) -> Option<u128>
    decreases schedule.len() - i,
{
    if i < 0 || i >= schedule.len() {
        None
    } else if covers(schedule[i], window_start, window_end) {
        Some(schedule[i].amount)
    } else {
        rate_from(schedule, i + 1, window_start, window_end)
    }
}

/// The amount of the first entry that covers the window, if any does.
pub open spec fn rate_of(schedule: Seq<Schedule>, window_start: int, window_end: int) -> Option<
    u128,
> {
    rate_from(schedule, 0, window_start, window_end)
}

/// The rate of epoch `e`; zero where no entry covers it.
pub open spec fn epoch_rate_of(cfg: Config, e: int) -> int {
    match rate_of(
        cfg.distribution_schedule@,
        epoch_start(cfg.start_time as int, e),
        epoch_end(cfg.start_time as int, e),
    ) {
        Some(amount) => amount as int,
        None => 0,
    }
}

/// Whether `time` lies in the entry's span `[start_time, end_time)`.
pub open spec fn in_force(entry: Schedule, time: int) -> bool {
    entry.start_time <= time < entry.end_time
}

/// The first entry from index `i` on that is in force at `time`.
pub open spec fn in_force_from(schedule: Seq<Schedule>, i: int, time: int) -> Option<Schedule>
    decreases schedule.len() - i,
{
    if i < 0 || i >= schedule.len() {
        None
    } else if in_force(schedule[i], time) {
        Some(schedule[i])
    } else {
        in_force_from(schedule, i + 1, time)
    }
}

/// The emission rate over `window`: the amount of the first entry of the
/// schedule whose span holds the whole window, or `None` when there is none.
pub fn rate_for(cfg: &Config, window: &EpochWindow) -> (r: Option<u128>)
    ensures
        r == rate_of(cfg.distribution_schedule@, window.start as int, window.end as int),
{
    let mut i: usize = 0;
    while i < cfg.distribution_schedule.len()
        invariant
            0 <= i <= cfg.distribution_schedule@.len(),
            rate_of(cfg.distribution_schedule@, window.start as int, window.end as int)
                == rate_from(
                cfg.distribution_schedule@,
                i as int,
                window.start as int,
                window.end as int,
            ),
        decreases cfg.distribution_schedule@.len() - i,
    {
        let entry = &cfg.distribution_schedule[i];
        if entry.start_time <= window.start && window.end <= entry.end_time {
            return Some(entry.amount);
        }
        i = i + 1;
    }
    None
}

/// The emission rate of epoch `epoch`, zero where no entry of the schedule
/// covers the epoch.
pub fn epoch_rate(cfg: &Config, epoch: u64) -> (r: u128)
    ensures
        r == epoch_rate_of(*cfg, epoch as int),
{
    proof {
        lemma_no_rate_outside_time(
            cfg.distribution_schedule@,
            0,
            epoch_start(cfg.start_time as int, epoch as int),
            epoch_end(cfg.start_time as int, epoch as int),
        );
    }
    let window = if epoch == 0 {
        if cfg.start_time < WEEK {
            return 0;
        }
        EpochWindow { start: cfg.start_time - WEEK, end: cfg.start_time }
    } else {
        match epoch_window(cfg, epoch) {
            Ok(window) => window,
            Err(_) => { return 0; },
        }
    };
    match rate_for(cfg, &window) {
        Some(amount) => amount,
        None => 0,
    }
}

/// The first entry of the schedule that is in force at `time`, or `None`
/// when `time` lies outside every entry.
pub fn find_distribution_schedule(cfg: &Config, time: u64) -> (r: Option<Schedule>)
    ensures
        r == in_force_from(cfg.distribution_schedule@, 0, time as int),
{
    let mut i: usize = 0;
    while i < cfg.distribution_schedule.len()
        invariant
            0 <= i <= cfg.distribution_schedule@.len(),
            in_force_from(cfg.distribution_schedule@, 0, time as int) == in_force_from(
                cfg.distribution_schedule@,
                i as int,
                time as int,
            ),
        decreases cfg.distribution_schedule@.len() - i,
    {
        let entry = cfg.distribution_schedule[i];
        if time >= entry.start_time && time < entry.end_time {
            return Some(entry);
        }
        i = i + 1;
    }
    None
}

/// No entry covers a window that begins before time zero or ends after the
/// last representable second.
pub proof fn lemma_no_rate_outside_time(
    schedule: Seq<Schedule>,
    i: int,
    window_start: int,
    window_end: int,
)
    ensures
        window_start < 0 || window_end > u64::MAX ==> rate_from(
            schedule,
            i,
            window_start,
            window_end,
        ) is None,
    decreases schedule.len() - i,
{
    if 0 <= i < schedule.len() {
        lemma_no_rate_outside_time(schedule, i + 1, window_start, window_end);
    }
}

/// The entries follow one another without overlap: each ends before the
/// next begins.
pub open spec fn in_sequence(schedule: Seq<Schedule>) -> bool {
    forall|i: int, j: int|
        0 <= i < j < schedule.len() ==> (#[trigger] schedule[i]).end_time <= (
        #[trigger] schedule[j]).start_time
}

/// In a schedule whose entries do not overlap, the rate of a window is the
/// amount of the one entry that covers it.
pub proof fn rate_is_that_of_the_covering_entry(
    schedule: Seq<Schedule>,
    window_start: int,
    window_end: int,
    i: int,
)
    requires
        in_sequence(schedule),
        window_start < window_end,
        0 <= i < schedule.len(),
        covers(schedule[i], window_start, window_end),
    ensures
        rate_of(schedule, window_start, window_end) == Some(schedule[i].amount),
        forall|j: int|
            0 <= j < schedule.len() && covers(#[trigger] schedule[j], window_start, window_end)
                ==> j == i,
{
    assert forall|j: int|
        0 <= j < schedule.len() && covers(
            #[trigger] schedule[j],
            window_start,
            window_end,
        ) implies j == i by {
        if j < i {
            assert(schedule[j].end_time <= schedule[i].start_time);
        }
        if i < j {
            assert(schedule[i].end_time <= schedule[j].start_time);
        }
    }
    lemma_rate_skips(schedule, 0, window_start, window_end, i);
}

/// The search for the rate passes over every entry that does not cover the
/// window.
proof fn lemma_rate_skips(
    schedule: Seq<Schedule>,
    from: int,
    window_start: int,
    window_end: int,
    i: int,
)
    requires
        0 <= from <= i < schedule.len(),
        covers(schedule[i], window_start, window_end),
        forall|j: int| from <= j < i ==> !covers(#[trigger] schedule[j], window_start, window_end),
    ensures
        rate_from(schedule, from, window_start, window_end) == Some(schedule[i].amount),
    decreases i - from,
{
    if from < i {
        lemma_rate_skips(schedule, from + 1, window_start, window_end, i);
    }
}

} // verus!
