//! The state transitions of the staking contract. Each takes the stored
//! values it works on and returns the values to store in their place, so
//! that a failed operation leaves nothing behind.

use vstd::prelude::*;
use crate::error::ContractError;
use crate::payment::Coin;
use crate::staking::accrual::{accrue_underflows, settle, settle_overflows, settled};
use crate::staking::claims::Claim;
use crate::staking::reward::{earned, earned_outcome};
use crate::staking::state::{Config, Stake};

verus! {

/// The asset sent along with a bond: coins of the chain, or an amount of the
/// token held by the contract at `address`.
#[derive(Debug)]
pub enum Balance {
    Native(Vec<Coin>),
    Cw20 { address: String, amount: u128 },
}

/// The values to store after a bond or an unbond: the account's stake and
/// the total, both changed at the same instant, and both weight accumulators
/// settled up to that instant.
#[derive(Debug)]
pub struct StakeChange {
    pub member: Stake,
    pub total: Stake,
    pub member_weights: Vec<u128>,
    pub epoch_weights: Vec<u128>,
}

/// What an unbond yields: the changed stakes and the claim to enqueue.
#[derive(Debug)]
pub struct Unbonded {
    pub change: StakeChange,
    pub claim: Claim,
}

/// What a withdrawal yields: the `amount` to pay out and the new cumulative
/// amount `withdrawn`.
#[derive(Clone, Copy, Debug, PartialEq, Eq, Structural)]
pub struct Withdrawal {
    pub amount: u128,
    pub withdrawn: u128,
}

/// The error, if any, that stops settling `stake` on top of `weights`.
pub open spec fn settle_error(start: int, weights: Seq<u128>, stake: Stake, now: int) -> Option<
    ContractError,
> {
    if accrue_underflows(start, stake, now) {
        Some(ContractError::Underflow)
    } else if settle_overflows(start, weights, stake, now) {
        Some(ContractError::Overflow)
    } else {
        None
    }
}

/// The amount that `balance` bonds: it must be an amount of the configured
/// staking token.
pub open spec fn bonded_amount_of(cfg: Config, balance: Balance) -> Result<u128, ContractError> {
    match balance {
        Balance::Cw20 { address, amount } => if address@ == cfg.staking_token@ {
            Ok(amount)
        } else {
            Err(ContractError::InvalidToken(address))
        },
        Balance::Native(_) => Err(ContractError::MissedToken),
    }
}

/// The error, if any, that rejects a bond of `amount` at `now`. A bond of
/// nothing is refused before anything else is looked at.
pub open spec fn bond_error(
    cfg: Config,
    amount: u128,
    member: Stake,
    total: Stake,
    member_weights: Seq<u128>,
    epoch_weights: Seq<u128>,
    now: int,
) -> Option<ContractError> {
    let start = cfg.start_time as int;
    if amount == 0 {
        Some(ContractError::InvalidZeroAmount)
    } else if now < cfg.start_time || now > cfg.end_time {
        Some(ContractError::StakingClosed)
    } else if settle_error(start, member_weights, member, now) is Some {
        settle_error(start, member_weights, member, now)
    } else if settle_error(start, epoch_weights, total, now) is Some {
        settle_error(start, epoch_weights, total, now)
    } else if member.amount + amount > u128::MAX || total.amount + amount > u128::MAX {
        Some(ContractError::Overflow)
    } else {
        None
    }
}

/// The error, if any, that rejects an unbond of `amount` at `now`.
pub open spec fn unbond_error(
    cfg: Config,
    amount: u128,
    member: Stake,
    total: Stake,
    member_weights: Seq<u128>,
    epoch_weights: Seq<u128>,
    now: int,
) -> Option<ContractError> {
    let start = cfg.start_time as int;
    if settle_error(start, member_weights, member, now) is Some {
        settle_error(start, member_weights, member, now)
    } else if settle_error(start, epoch_weights, total, now) is Some {
        settle_error(start, epoch_weights, total, now)
    } else if amount > member.amount || amount > total.amount {
        Some(ContractError::Underflow)
    } else if now + cfg.unbonding_period > u64::MAX {
        Some(ContractError::Overflow)
    } else {
        None
    }
}

/// `change` holds both stakes moved by `delta` at `now`, on top of weights
/// settled up to `now`.
pub open spec fn stake_changed(
    cfg: Config,
    member: Stake,
    total: Stake,
    member_weights: Seq<u128>,
    epoch_weights: Seq<u128>,
    now: u64,
    delta: int,
    change: StakeChange,
) -> bool {
    &&& change.member.amount == member.amount + delta
    &&& change.member.time == now
    &&& change.total.amount == total.amount + delta
    &&& change.total.time == now
    &&& settled(cfg.start_time as int, member_weights, member, now as int, change.member_weights@)
    &&& settled(cfg.start_time as int, epoch_weights, total, now as int, change.epoch_weights@)
}

/// The result of a withdrawal at `now` by an account that has been paid
/// `withdrawn` so far.
pub open spec fn withdraw_outcome(
    cfg: Config,
    member: Stake,
    total: Stake,
    member_weights: Seq<u128>,
    epoch_weights: Seq<u128>,
    withdrawn: u128,
    now: int,
) -> Result<Withdrawal, ContractError> {
    match earned_outcome(cfg, member, total, member_weights, epoch_weights, now) {
        Err(e) => Err(e),
        Ok(reward) => if withdrawn > reward {
            Err(ContractError::Underflow)
        } else if withdrawn == reward {
            Err(ContractError::NothingToWithdraw)
        } else {
            Ok(Withdrawal { amount: (reward - withdrawn) as u128, withdrawn: reward })
        },
    }
}

/// Checks that the asset sent is the configured staking token and returns
/// the amount sent. Coins of the chain fail with `MissedToken`, another
/// token with `InvalidToken` and that token's address.
pub fn bonded_amount(cfg: &Config, balance: &Balance) -> (r: Result<u128, ContractError>)
    ensures
        r == bonded_amount_of(*cfg, *balance),
{
    match balance {
        Balance::Cw20 { address, amount } => {
            if *address == cfg.staking_token {
                Ok(*amount)
            } else {
                Err(ContractError::InvalidToken(address.clone()))
            }
        },
        Balance::Native(_) => Err(ContractError::MissedToken),
    }
}

/// Settles both the account's stake and the total up to `now`.
fn settle_both(
    cfg: &Config,
    member: &Stake,
    total: &Stake,
    member_weights: &Vec<u128>,
    epoch_weights: &Vec<u128>,
    now: u64,
) -> (r: Result<(Vec<u128>, Vec<u128>), ContractError>)
    ensures
        match r {
            Ok((m, t)) => {
                &&& settle_error(cfg.start_time as int, member_weights@, *member, now as int)
                    is None
                &&& settle_error(cfg.start_time as int, epoch_weights@, *total, now as int)
                    is None
                &&& settled(cfg.start_time as int, member_weights@, *member, now as int, m@)
                &&& settled(cfg.start_time as int, epoch_weights@, *total, now as int, t@)
            },
            Err(e) => if settle_error(
                cfg.start_time as int,
                member_weights@,
                *member,
                now as int,
            ) is Some {
                settle_error(cfg.start_time as int, member_weights@, *member, now as int)
                    == Some(e)
            } else {
                settle_error(cfg.start_time as int, epoch_weights@, *total, now as int)
                    == Some(e)
            },
        },
{
    let m = match settle(cfg, member_weights, member, now) {
        Ok(w) => w,
        Err(e) => { return Err(e); },
    };
    let t = match settle(cfg, epoch_weights, total, now) {
        Ok(w) => w,
        Err(e) => { return Err(e); },
    };
    Ok((m, t))
}

/// Bonds the amount that `balance` holds for the account whose stake is
/// `member`. The asset must be the staking token and `now` must lie within
/// the distribution window, else the bond is rejected as `StakingClosed`.
/// Both the account's weight and the epoch weight are settled up to `now`
/// with the stakes as they were, and only then both stakes grow by the
/// amount and take `now` as their time. A bond of nothing is refused as
/// `InvalidZeroAmount`.
pub fn execute_bond(
    cfg: &Config,
    balance: &Balance,
    member: &Stake,
    total: &Stake,
    member_weights: &Vec<u128>,
    epoch_weights: &Vec<u128>,
    now: u64,
) -> (r: Result<StakeChange, ContractError>)
    ensures
        match bonded_amount_of(*cfg, *balance) {
            Err(e) => r == Err::<StakeChange, ContractError>(e),
            Ok(amount) => match r {
                Ok(change) => {
                    &&& bond_error(
                        *cfg,
                        amount,
                        *member,
                        *total,
                        member_weights@,
                        epoch_weights@,
                        now as int,
                    ) is None
                    &&& stake_changed(
                        *cfg,
                        *member,
                        *total,
                        member_weights@,
                        epoch_weights@,
                        now,
                        amount as int,
                        change,
                    )
                },
                Err(e) => bond_error(
                    *cfg,
                    amount,
                    *member,
                    *total,
                    member_weights@,
                    epoch_weights@,
                    now as int,
                ) == Some(e),
            },
        },
{
    let amount = match bonded_amount(cfg, balance) {
        Ok(a) => a,
        Err(e) => { return Err(e); },
    };
    if amount == 0 {
        return Err(ContractError::InvalidZeroAmount);
    }
    if now < cfg.start_time || now > cfg.end_time {
        return Err(ContractError::StakingClosed);
    }
    let (new_member_weights, new_epoch_weights) = match settle_both(
        cfg,
        member,
        total,
        member_weights,
        epoch_weights,
        now,
    ) {
        Ok(pair) => pair,
        Err(e) => { return Err(e); },
    };
    let member_amount = match member.amount.checked_add(amount) {
        Some(a) => a,
        None => { return Err(ContractError::Overflow); },
    };
    let total_amount = match total.amount.checked_add(amount) {
        Some(a) => a,
        None => { return Err(ContractError::Overflow); },
    };
    Ok(
        StakeChange {
            member: Stake { amount: member_amount, time: now },
            total: Stake { amount: total_amount, time: now },
            member_weights: new_member_weights,
            epoch_weights: new_epoch_weights,
        },
    )
}

/// Unbonds `amount` from the account whose stake is `member`. Both weights
/// are settled up to `now` with the stakes as they were; then both stakes
/// shrink by `amount` and take `now` as their time, and a claim for `amount`
/// is made out that matures one unbonding period after `now`. Fails with
/// `Underflow` when `amount` exceeds the stake.
pub fn execute_unbond(
    cfg: &Config,
    member: &Stake,
    total: &Stake,
    member_weights: &Vec<u128>,
    epoch_weights: &Vec<u128>,
    amount: u128,
    now: u64,
) -> (r: Result<Unbonded, ContractError>)
    ensures
        match r {
            Ok(unbonded) => {
                &&& unbond_error(
                    *cfg,
                    amount,
                    *member,
                    *total,
                    member_weights@,
                    epoch_weights@,
                    now as int,
                ) is None
                &&& stake_changed(
                    *cfg,
                    *member,
                    *total,
                    member_weights@,
                    epoch_weights@,
                    now,
                    -(amount as int),
                    unbonded.change,
                )
                &&& unbonded.claim == Claim {
                    amount,
                    release_at: (now + cfg.unbonding_period) as u64,
                }
            },
            Err(e) => unbond_error(
                *cfg,
                amount,
                *member,
                *total,
                member_weights@,
                epoch_weights@,
                now as int,
            ) == Some(e),
        },
{
    let (new_member_weights, new_epoch_weights) = match settle_both(
        cfg,
        member,
        total,
        member_weights,
        epoch_weights,
        now,
    ) {
        Ok(pair) => pair,
        Err(e) => { return Err(e); },
    };
    let member_amount = match member.amount.checked_sub(amount) {
        Some(a) => a,
        None => { return Err(ContractError::Underflow); },
    };
    let total_amount = match total.amount.checked_sub(amount) {
        Some(a) => a,
        None => { return Err(ContractError::Underflow); },
    };
    let release_at = match now.checked_add(cfg.unbonding_period) {
        Some(t) => t,
        None => { return Err(ContractError::Overflow); },
    };
    Ok(
        Unbonded {
            change: StakeChange {
                member: Stake { amount: member_amount, time: now },
                total: Stake { amount: total_amount, time: now },
                member_weights: new_member_weights,
                epoch_weights: new_epoch_weights,
            },
            claim: Claim { amount, release_at },
        },
    )
}

/// Withdraws what the account has earned up to `now` and has not been paid
/// yet: the difference between the reward earned and `withdrawn`. Fails with
/// `NothingToWithdraw` when the difference is zero. The cumulative amount
/// returned never lies below `withdrawn`.
pub fn execute_withdraw(
    cfg: &Config,
    member: &Stake,
    total: &Stake,
    member_weights: &Vec<u128>,
    epoch_weights: &Vec<u128>,
    withdrawn: u128,
    now: u64,
) -> (r: Result<Withdrawal, ContractError>)
    ensures
        r == withdraw_outcome(
            *cfg,
            *member,
            *total,
            member_weights@,
            epoch_weights@,
            withdrawn,
            now as int,
        ),
        r matches Ok(w) ==> w.withdrawn == withdrawn + w.amount && w.amount > 0,
{
    let reward = match earned(cfg, member, total, member_weights, epoch_weights, now) {
        Ok(amount) => amount,
        Err(e) => { return Err(e); },
    };
    let amount = match reward.checked_sub(withdrawn) {
        Some(a) => a,
        None => { return Err(ContractError::Underflow); },
    };
    if amount == 0 {
        return Err(ContractError::NothingToWithdraw);
    }
    Ok(Withdrawal { amount, withdrawn: reward })
}

} // verus!
