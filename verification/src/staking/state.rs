//! The values the staking ledger is made of.

use vstd::prelude::*;
use crate::staking::msg::NewConfig;

verus! {

/// A reward budget emitted between two points in time.
#[derive(Clone, Copy, Debug, PartialEq, Eq, Structural)]
pub struct Schedule {
    pub amount: u128,
    pub start_time: u64,
    pub end_time: u64,
}

/// An amount of stake and the time of its last change.
#[derive(Clone, Copy, Debug, PartialEq, Eq, Structural)]
pub struct Stake {
    pub amount: u128,
    pub time: u64,
}

/// The settings of one staking instance.
#[derive(Clone, Debug)]
pub struct Config {
    pub owner: String,
    pub staking_token: String,
    pub terraland_token: String,
    pub unbonding_period: u64,
    pub burn_address: String,
    pub instant_claim_percentage_loss: u64,
    pub distribution_schedule: Vec<Schedule>,
    pub start_time: u64,
    pub end_time: u64,
}

/// The span of a schedule: the start of its first entry and the end of its
/// last; both zero for an empty schedule.
pub open spec fn bounds_of(schedule: Seq<Schedule>) -> (u64, u64) {
    if schedule.len() == 0 {
        (0, 0)
    } else {
        (schedule[0].start_time, schedule[schedule.len() - 1].end_time)
    }
}

/// The settings `cfg` with those replaced that `new` names. A new schedule
/// brings its own span.
pub open spec fn merged_config(cfg: Config, new: NewConfig) -> Config {
    Config {
        owner: match new.owner {
            Some(owner) => owner,
            None => cfg.owner,
        },
        staking_token: cfg.staking_token,
        terraland_token: cfg.terraland_token,
        unbonding_period: match new.unbonding_period {
            Some(period) => period,
            None => cfg.unbonding_period,
        },
        burn_address: match new.burn_address {
            Some(address) => address,
            None => cfg.burn_address,
        },
        instant_claim_percentage_loss: match new.instant_claim_percentage_loss {
            Some(percentage) => percentage,
            None => cfg.instant_claim_percentage_loss,
        },
        distribution_schedule: match new.distribution_schedule {
            Some(schedule) => schedule,
            None => cfg.distribution_schedule,
        },
        start_time: match new.distribution_schedule {
            Some(schedule) => bounds_of(schedule@).0,
            None => cfg.start_time,
        },
        end_time: match new.distribution_schedule {
            Some(schedule) => bounds_of(schedule@).1,
            None => cfg.end_time,
        },
    }
}

/// The span of a schedule: the start of its first entry and the end of its
/// last; both zero for an empty schedule.
pub fn schedule_bounds(schedule: &Vec<Schedule>) -> (r: (u64, u64))
    ensures
        r == bounds_of(schedule@),
{
    if schedule.len() == 0 {
        (0, 0)
    } else {
        (schedule[0].start_time, schedule[schedule.len() - 1].end_time)
    }
}

} // verus!
