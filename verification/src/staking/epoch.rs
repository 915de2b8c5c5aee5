//! Maps points in time to fixed-length epochs.

use vstd::prelude::*;
use crate::error::ContractError;
use crate::staking::state::Config;

verus! {

/// The length of an epoch in seconds.
pub const WEEK: u64 = 604800;

/// The one-based number of the epoch that holds time `t`, for a distribution
/// that starts at `start`.
pub open spec fn epoch_of(start: int, t: int) -> int {
    (t - start) / (WEEK as int) + 1
}

/// The first second of epoch `id`.
pub open spec fn epoch_start(start: int, id: int) -> int {
    start + (id - 1) * (WEEK as int)
}

/// The first second after epoch `id`.
pub open spec fn epoch_end(start: int, id: int) -> int {
    start + id * (WEEK as int)
}

/// The half-open span of time `[start, end)` that an epoch covers.
#[derive(Clone, Copy, Debug, PartialEq, Eq, Structural)]
pub struct EpochWindow {
    pub start: u64,
    pub end: u64,
}

/// The number of the epoch that holds `t`. Fails with `Underflow` exactly
/// when `t` lies before the start of the distribution.
pub fn epoch_id(cfg: &Config, t: u64) -> (r: Result<u64, ContractError>)
    ensures
        t < cfg.start_time ==> r is Err && r->Err_0 is Underflow,
        t >= cfg.start_time ==> r is Ok && r->Ok_0 == epoch_of(cfg.start_time as int, t as int),
{
    if t < cfg.start_time {
        return Err(ContractError::Underflow);
    }
    Ok((t - cfg.start_time) / WEEK + 1)
}

/// The window of epoch `id`. Epochs are numbered from one, so `id == 0`
/// fails with `Underflow`; a window that ends beyond the last representable
/// second fails with `Overflow`.
pub fn epoch_window(cfg: &Config, id: u64) -> (r: Result<EpochWindow, ContractError>)
    ensures
        id == 0 ==> r is Err && r->Err_0 is Underflow,
        id > 0 && epoch_end(cfg.start_time as int, id as int) > u64::MAX ==> r is Err && r->Err_0
            is Overflow,
        id > 0 && epoch_end(cfg.start_time as int, id as int) <= u64::MAX ==> r == Ok::<
            EpochWindow,
            ContractError,
        >(
            EpochWindow {
                start: epoch_start(cfg.start_time as int, id as int) as u64,
                end: epoch_end(cfg.start_time as int, id as int) as u64,
            },
        ),
{
    if id == 0 {
        return Err(ContractError::Underflow);
    }
    let span = match id.checked_mul(WEEK) {
        Some(s) => s,
        None => { return Err(ContractError::Overflow); },
    };
    let end = match cfg.start_time.checked_add(span) {
        Some(e) => e,
        None => { return Err(ContractError::Overflow); },
    };
    Ok(EpochWindow { start: end - WEEK, end })
}

} // verus!
