//! What holds of the ledger whatever is done to it.

use vstd::prelude::*;
use crate::error::ContractError;
use crate::staking::accrual::{
    epoch_overlap,
    lemma_overlap_splits,
    settle_overflows,
    stake_seconds,
    lemma_projected_bounds,
    lemma_settled_weights,
    lemma_zero_seconds,
    projected,
    settled_weights,
    weight_at,
};
use crate::staking::claims::{
    Claim,
    lemma_claim_pushed,
    lemma_matured_sum_nonnegative,
    matured_sum,
    waiting,
};
use crate::staking::contract::{Balance, bonded_amount_of, settle_error, withdraw_outcome};
use crate::staking::model::{
    AccountView,
    LedgerView,
    account_of,
    distinct_ids,
    has_account,
    lemma_put,
    lemma_stake_within_sum,
    lemma_sums_push,
    lemma_sums_update,
    lemma_weight_sum_shift,
    member_weight,
    position,
    stake_sum,
    weight_sum,
};
use crate::staking::reward::{earned_in, earned_outcome, emission_of, lemma_emission_bounds};
use crate::staking::state::{Config, Stake};

verus! {

/// The sum over all accounts of the weight stored for them in epoch `e`.
pub open spec fn stored_weight_sum(accounts: Seq<AccountView>, e: int) -> int
    decreases accounts.len(),
{
    if accounts.len() == 0 {
        0
    } else {
        stored_weight_sum(accounts.drop_last(), e) + weight_at(accounts.last().weights, e)
    }
}

/// A ledger without accounts, stake or weight.
pub open spec fn empty_ledger(config: Config) -> LedgerView {
    LedgerView {
        config,
        total: Stake { amount: 0, time: 0 },
        epoch_weights: Seq::empty(),
        accounts: Seq::empty(),
    }
}

/// The empty ledger satisfies the invariant.
pub proof fn empty_ledger_is_well_formed(config: Config)
    ensures
        empty_ledger(config).wf(),
{
}

/// Storing an account whose stake and weights are those already stored
/// under its identifier keeps the invariant.
pub proof fn lemma_same_stake_keeps_invariant(s: LedgerView, account: AccountView)
    requires
        s.wf(),
        account.stake == s.account(account.id).stake,
        account.weights == s.account(account.id).weights,
    ensures
        s.with_account(account).wf(),
{
    let t = s.with_account(account);
    let start = s.start();
    let upto = s.total.time as int;
    lemma_put(s.accounts, account, account.id);
    if has_account(s.accounts, account.id) {
        let p = position(s.accounts, account.id);
        lemma_sums_update(start, s.accounts, p, account, upto, 0);
        assert forall|e: int| #[trigger]
            weight_sum(start, t.accounts, upto, e) == weight_at(t.epoch_weights, e) by {
            lemma_sums_update(start, s.accounts, p, account, upto, e);
            assert(weight_sum(start, s.accounts, upto, e) == weight_at(s.epoch_weights, e));
        }
        assert forall|i: int|
            0 <= i < t.accounts.len() && (#[trigger] t.accounts[i]).stake.amount > 0 implies
                t.accounts[i].stake.time <= t.total.time by {
            if i != p {
                assert(t.accounts[i] == s.accounts[i]);
            } else {
                assert(s.accounts[p].stake.amount > 0);
            }
        }
    } else {
        lemma_sums_push(start, s.accounts, account, upto, 0);
        assert forall|e: int| #[trigger]
            weight_sum(start, t.accounts, upto, e) == weight_at(t.epoch_weights, e) by {
            lemma_sums_push(start, s.accounts, account, upto, e);
            lemma_zero_seconds(start, account.stake, upto, e);
            assert(weight_sum(start, s.accounts, upto, e) == weight_at(s.epoch_weights, e));
        }
        assert forall|i: int|
            0 <= i < t.accounts.len() && (#[trigger] t.accounts[i]).stake.amount > 0 implies
                t.accounts[i].stake.time <= t.total.time by {
            if i < s.accounts.len() {
                assert(t.accounts[i] == s.accounts[i]);
            }
        }
    }
}

/// Moving the stake of one account and the total by the same amount, after
/// settling both, keeps the invariant.
pub proof fn lemma_move_keeps_invariant(s: LedgerView, id: Seq<char>, delta: int, now: u64)
    requires
        s.wf(),
        settle_error(s.start(), s.account(id).weights, s.account(id).stake, now as int) is None,
        settle_error(s.start(), s.epoch_weights, s.total, now as int) is None,
        0 <= s.account(id).stake.amount + delta <= u128::MAX,
        0 <= s.total.amount + delta <= u128::MAX,
    ensures
        s.moved(id, delta, now).wf(),
{
    let t = s.moved(id, delta, now);
    let start = s.start();
    let before = s.total.time as int;
    let a = s.account(id);
    let b = account_of(t.accounts, id);
    lemma_put(
        s.accounts,
        AccountView {
            id,
            stake: Stake { amount: (a.stake.amount + delta) as u128, time: now },
            weights: settled_weights(start, a.weights, a.stake, now as int),
            claims: a.claims,
            withdrawn: a.withdrawn,
        },
        id,
    );
    lemma_settled_weights(start, a.weights, a.stake, now as int);
    lemma_settled_weights(start, s.epoch_weights, s.total, now as int);
    // every outstanding stake was last changed no later than the total, and
    // the total no later than `now`
    assert forall|i: int|
        0 <= i < s.accounts.len() && (#[trigger] s.accounts[i]).stake.amount > 0 implies
            s.accounts[i].stake.time <= before <= now by {
        lemma_stake_within_sum(s.accounts, i);
    }
    if has_account(s.accounts, id) {
        let p = position(s.accounts, id);
        lemma_sums_update(start, s.accounts, p, b, now as int, 0);
        assert forall|i: int|
            0 <= i < t.accounts.len() && (#[trigger] t.accounts[i]).stake.amount > 0 implies
                t.accounts[i].stake.time <= t.total.time by {
            if i != p {
                assert(t.accounts[i] == s.accounts[i]);
            }
        }
        assert forall|e: int| #[trigger]
            weight_sum(start, t.accounts, now as int, e) == weight_at(t.epoch_weights, e) by {
            lemma_sums_update(start, s.accounts, p, b, now as int, e);
            lemma_weight_sum_shift(start, s.accounts, before, now as int, e);
            lemma_zero_seconds(start, b.stake, now as int, e);
            assert(weight_sum(start, s.accounts, before, e) == weight_at(s.epoch_weights, e));
            assert(projected(start, a.weights, a.stake, now as int, e) == weight_at(b.weights, e));
            assert(projected(start, s.epoch_weights, s.total, now as int, e) == weight_at(
                t.epoch_weights,
                e,
            ));
        }
    } else {
        lemma_sums_push(start, s.accounts, b, now as int, 0);
        assert forall|i: int|
            0 <= i < t.accounts.len() && (#[trigger] t.accounts[i]).stake.amount > 0 implies
                t.accounts[i].stake.time <= t.total.time by {
            if i < s.accounts.len() {
                assert(t.accounts[i] == s.accounts[i]);
            }
        }
        assert forall|e: int| #[trigger]
            weight_sum(start, t.accounts, now as int, e) == weight_at(t.epoch_weights, e) by {
            lemma_sums_push(start, s.accounts, b, now as int, e);
            lemma_weight_sum_shift(start, s.accounts, before, now as int, e);
            lemma_zero_seconds(start, b.stake, now as int, e);
            lemma_zero_seconds(start, a.stake, now as int, e);
            assert(weight_sum(start, s.accounts, before, e) == weight_at(s.epoch_weights, e));
            assert(projected(start, a.weights, a.stake, now as int, e) == weight_at(b.weights, e));
            assert(projected(start, s.epoch_weights, s.total, now as int, e) == weight_at(
                t.epoch_weights,
                e,
            ));
        }
    }
}

/// A bond that succeeds keeps the invariant: afterwards the total stake is
/// again the sum of the stakes of the accounts, and the weights of the
/// accounts again add up to the weight of each epoch.
pub proof fn bond_keeps_invariant(s: LedgerView, id: Seq<char>, balance: Balance, now: u64)
    requires
        s.wf(),
    ensures
        s.bond(id, balance, now) matches Ok(t) ==> t.wf(),
{
    if s.bond(id, balance, now) is Ok {
        let amount = bonded_amount_of(s.config, balance)->Ok_0;
        lemma_move_keeps_invariant(s, id, amount as int, now);
    }
}

/// An unbond that succeeds keeps the invariant.
pub proof fn unbond_keeps_invariant(s: LedgerView, id: Seq<char>, amount: u128, now: u64)
    requires
        s.wf(),
    ensures
        s.unbond(id, amount, now) matches Ok(t) ==> t.wf(),
{
    if s.unbond(id, amount, now) is Ok {
        lemma_move_keeps_invariant(s, id, -(amount as int), now);
        let moved = s.moved(id, -(amount as int), now);
        let a = moved.account(id);
        lemma_same_stake_keeps_invariant(
            moved,
            AccountView {
                id,
                stake: a.stake,
                weights: a.weights,
                claims: a.claims.push(
                    Claim { amount, release_at: (now + s.config.unbonding_period) as u64 },
                ),
                withdrawn: a.withdrawn,
            },
        );
    }
}

/// Releasing claims and paying out rewards change neither a stake nor a
/// weight, so they keep the invariant.
pub proof fn payouts_keep_invariant(s: LedgerView, id: Seq<char>, now: u64)
    requires
        s.wf(),
    ensures
        s.claim(id, now) matches Ok((_, t)) ==> t.wf(),
        s.instant_claim(id, now) matches Ok((_, t)) ==> t.wf(),
        s.withdraw(id, now) matches Ok((_, t)) ==> t.wf(),
{
    let a = s.account(id);
    if s.claim(id, now) is Ok {
        lemma_same_stake_keeps_invariant(
            s,
            AccountView {
                id,
                stake: a.stake,
                weights: a.weights,
                claims: waiting(a.claims, now as int),
                withdrawn: a.withdrawn,
            },
        );
    }
    if s.instant_claim(id, now) is Ok {
        lemma_same_stake_keeps_invariant(
            s,
            AccountView {
                id,
                stake: a.stake,
                weights: a.weights,
                claims: waiting(a.claims, now + s.config.unbonding_period),
                withdrawn: a.withdrawn,
            },
        );
    }
    if let Ok((_, t)) = s.withdraw(id, now) {
        lemma_same_stake_keeps_invariant(
            s,
            AccountView {
                id,
                stake: a.stake,
                weights: a.weights,
                claims: a.claims,
                withdrawn: withdraw_outcome(
                    s.config,
                    a.stake,
                    s.total,
                    a.weights,
                    s.epoch_weights,
                    a.withdrawn,
                    now as int,
                )->Ok_0.withdrawn,
            },
        );
    }
}

/// In a well-formed ledger the total stake is the sum of the stakes of the
/// accounts.
pub proof fn total_is_sum_of_stakes(s: LedgerView)
    requires
        s.wf(),
    ensures
        s.total.amount == stake_sum(s.accounts),
{
}

/// In a well-formed ledger, once every outstanding stake is settled up to
/// the last change of the total, the weights stored for the accounts in an
/// epoch add up to the weight stored for the epoch.
pub proof fn settled_weights_add_up(s: LedgerView, e: int)
    requires
        s.wf(),
        forall|i: int|
            0 <= i < s.accounts.len() && (#[trigger] s.accounts[i]).stake.amount > 0
                ==> s.accounts[i].stake.time == s.total.time,
    ensures
        stored_weight_sum(s.accounts, e) == weight_at(s.epoch_weights, e),
{
    lemma_settled_sum(s.start(), s.accounts, s.total.time as int, e);
    assert(weight_sum(s.start(), s.accounts, s.total.time as int, e) == weight_at(
        s.epoch_weights,
        e,
    ));
}

/// Accounts that are settled up to `upto` hold their whole weight in store.
proof fn lemma_settled_sum(start: int, accounts: Seq<AccountView>, upto: int, e: int)
    requires
        forall|i: int|
            0 <= i < accounts.len() && (#[trigger] accounts[i]).stake.amount > 0
                ==> accounts[i].stake.time == upto,
    ensures
        weight_sum(start, accounts, upto, e) == stored_weight_sum(accounts, e),
    decreases accounts.len(),
{
    if accounts.len() > 0 {
        let rest = accounts.drop_last();
        assert forall|i: int| 0 <= i < rest.len() && (#[trigger] rest[i]).stake.amount > 0 implies
            rest[i].stake.time == upto by {
            assert(rest[i] == accounts[i]);
        }
        lemma_settled_sum(start, rest, upto, e);
        let a = accounts.last();
        assert(accounts[accounts.len() - 1] == a);
        lemma_zero_seconds(start, a.stake, upto, e);
    }
}

/// Settling in two steps is settling at once: a stake settled up to some
/// time and then, unchanged, up to a later time has gathered exactly the
/// weight it would have gathered had it been settled at the later time
/// only, however long the gap.
pub proof fn settling_in_steps_is_settling_at_once(
    start: int,
    weights: Seq<u128>,
    stake: Stake,
    mid: u64,
    now: u64,
)
    requires
        start <= stake.time <= mid <= now,
        !settle_overflows(start, weights, stake, now as int),
    ensures
        !settle_overflows(start, weights, stake, mid as int),
        !settle_overflows(
            start,
            settled_weights(start, weights, stake, mid as int),
            Stake { amount: stake.amount, time: mid },
            now as int,
        ),
        settled_weights(
            start,
            settled_weights(start, weights, stake, mid as int),
            Stake { amount: stake.amount, time: mid },
            now as int,
        ) == settled_weights(start, weights, stake, now as int),
{
    let later = Stake { amount: stake.amount, time: mid };
    let amount = stake.amount as int;
    assert forall|e: int|
        projected(start, weights, stake, now as int, e) == #[trigger] projected(
            start,
            weights,
            stake,
            mid as int,
            e,
        ) + stake_seconds(start, later, now as int, e) by {
        lemma_overlap_splits(start, stake.time as int, mid as int, now as int, e);
        let before = epoch_overlap(start, stake.time as int, mid as int, e);
        let after = epoch_overlap(start, mid as int, now as int, e);
        assert(amount * (before + after) == amount * before + amount * after)
            by (nonlinear_arith);
    }
    assert forall|e: int| #[trigger]
        projected(start, weights, stake, mid as int, e) <= u128::MAX by {
        lemma_projected_bounds(start, weights, later, now as int, e);
        assert(projected(start, weights, stake, now as int, e) <= u128::MAX);
    }
    lemma_settled_weights(start, weights, stake, mid as int);
    let first = settled_weights(start, weights, stake, mid as int);
    assert forall|e: int|
        #[trigger] projected(start, first, later, now as int, e) == projected(
            start,
            weights,
            stake,
            now as int,
            e,
        ) by {
        assert(projected(start, weights, stake, mid as int, e) == weight_at(first, e));
    }
    assert forall|e: int| #[trigger]
        projected(start, first, later, now as int, e) <= u128::MAX by {
        assert(projected(start, weights, stake, now as int, e) <= u128::MAX);
    }
    let second = settled_weights(start, first, later, now as int);
    let once = settled_weights(start, weights, stake, now as int);
    assert(second.len() == once.len());
    assert forall|i: int| 0 <= i < second.len() implies second[i] == once[i] by {
        assert(projected(start, first, later, now as int, i + 1) == projected(
            start,
            weights,
            stake,
            now as int,
            i + 1,
        ));
    }
    assert(second =~= once);
}

/// Weight is never taken back: whatever moves a stake, the weight stored
/// for the account and for the epoch as a whole is afterwards at least what
/// it was, in every epoch.
pub proof fn weights_never_shrink(s: LedgerView, id: Seq<char>, delta: int, now: u64, e: int)
    requires
        distinct_ids(s.accounts),
        settle_error(s.start(), s.account(id).weights, s.account(id).stake, now as int) is None,
        settle_error(s.start(), s.epoch_weights, s.total, now as int) is None,
    ensures
        weight_at(s.moved(id, delta, now).epoch_weights, e) >= weight_at(s.epoch_weights, e),
        weight_at(s.moved(id, delta, now).account(id).weights, e) >= weight_at(
            s.account(id).weights,
            e,
        ),
{
    let a = s.account(id);
    let t = s.moved(id, delta, now);
    lemma_put(
        s.accounts,
        AccountView {
            id,
            stake: Stake { amount: (a.stake.amount + delta) as u128, time: now },
            weights: settled_weights(s.start(), a.weights, a.stake, now as int),
            claims: a.claims,
            withdrawn: a.withdrawn,
        },
        id,
    );
    lemma_settled_weights(s.start(), a.weights, a.stake, now as int);
    lemma_settled_weights(s.start(), s.epoch_weights, s.total, now as int);
    lemma_projected_bounds(s.start(), a.weights, a.stake, now as int, e);
    lemma_projected_bounds(s.start(), s.epoch_weights, s.total, now as int, e);
    assert(projected(s.start(), a.weights, a.stake, now as int, e) == weight_at(
        t.account(id).weights,
        e,
    ));
    assert(projected(s.start(), s.epoch_weights, s.total, now as int, e) == weight_at(
        t.epoch_weights,
        e,
    ));
}

/// The sum over all accounts of their shares of epoch `e` at `now`.
pub open spec fn share_sum(s: LedgerView, accounts: Seq<AccountView>, now: int, e: int) -> int
    decreases accounts.len(),
{
    if accounts.len() == 0 {
        0
    } else {
        share_sum(s, accounts.drop_last(), now, e) + earned_in(
            s.config,
            accounts.last().stake,
            s.total,
            accounts.last().weights,
            s.epoch_weights,
            now,
            e,
        )
    }
}

/// Two quotients by the same divisor, each rounded down, add up to no more
/// than the quotient of the sum.
proof fn lemma_quotients_add(p: int, r: int, q: int)
    requires
        q > 0,
    ensures
        p / q + r / q <= (p + r) / q,
{
    let a = p / q;
    let b = r / q;
    assert(a * q <= p && b * q <= r) by (nonlinear_arith)
        requires
            a == p / q,
            b == r / q,
            q > 0,
    ;
    assert((a + b) * q <= p + r) by (nonlinear_arith)
        requires
            a * q <= p,
            b * q <= r,
    ;
    assert(a + b <= (p + r) / q) by (nonlinear_arith)
        requires
            (a + b) * q <= p + r,
            q > 0,
    ;
}

/// The shares of some accounts add up to no more than the part of the
/// emission that their weights add up to.
proof fn lemma_shares_within_weights(
    s: LedgerView,
    accounts: Seq<AccountView>,
    now: int,
    e: int,
)
    requires
        s.config.start_time <= now,
        projected(s.start(), s.epoch_weights, s.total, now, e) > 0,
    ensures
        0 <= weight_sum(s.start(), accounts, now, e),
        share_sum(s, accounts, now, e) <= emission_of(s.config, now, e) * weight_sum(
            s.start(),
            accounts,
            now,
            e,
        ) / projected(s.start(), s.epoch_weights, s.total, now, e),
    decreases accounts.len(),
{
    let emission = emission_of(s.config, now, e);
    let whole = projected(s.start(), s.epoch_weights, s.total, now, e);
    if accounts.len() == 0 {
        assert(emission * 0 == 0) by (nonlinear_arith);
        assert(0int / whole == 0) by (nonlinear_arith)
            requires
                whole > 0,
        ;
    } else {
        let rest = accounts.drop_last();
        let a = accounts.last();
        lemma_shares_within_weights(s, rest, now, e);
        lemma_projected_bounds(s.start(), a.weights, a.stake, now, e);
        let before = weight_sum(s.start(), rest, now, e);
        let weight = member_weight(s.start(), a, now, e);
        assert(emission * (before + weight) == emission * before + emission * weight)
            by (nonlinear_arith);
        lemma_quotients_add(emission * before, emission * weight, whole);
    }
}

/// No epoch pays out more than it has emitted: in a well-formed ledger that
/// can be settled at `now`, the shares of all accounts in an epoch add up
/// to no more than the emission of that epoch.
pub proof fn shares_never_exceed_emission(s: LedgerView, now: int, e: int)
    requires
        s.wf(),
        s.config.start_time <= now,
        s.total.amount > 0 ==> s.total.time <= now,
    ensures
        share_sum(s, s.accounts, now, e) <= emission_of(s.config, now, e),
{
    let emission = emission_of(s.config, now, e);
    let whole = projected(s.start(), s.epoch_weights, s.total, now, e);
    lemma_emission_bounds(s.config, now, e);
    lemma_projected_bounds(s.start(), s.epoch_weights, s.total, now, e);
    if whole == 0 {
        lemma_no_shares(s, s.accounts, now, e);
    } else {
        assert forall|i: int|
            0 <= i < s.accounts.len() && (#[trigger] s.accounts[i]).stake.amount > 0 implies
                s.accounts[i].stake.time <= s.total.time <= now by {
            lemma_stake_within_sum(s.accounts, i);
        }
        lemma_weight_sum_shift(s.start(), s.accounts, s.total.time as int, now, e);
        assert(weight_sum(s.start(), s.accounts, s.total.time as int, e) == weight_at(
            s.epoch_weights,
            e,
        ));
        assert(weight_sum(s.start(), s.accounts, now, e) == whole);
        lemma_shares_within_weights(s, s.accounts, now, e);
        assert(emission * whole / whole == emission) by (nonlinear_arith)
            requires
                whole > 0,
        ;
    }
}

/// Where an epoch holds no weight, nobody has a share of it.
proof fn lemma_no_shares(s: LedgerView, accounts: Seq<AccountView>, now: int, e: int)
    requires
        projected(s.start(), s.epoch_weights, s.total, now, e) == 0,
    ensures
        share_sum(s, accounts, now, e) == 0,
    decreases accounts.len(),
{
    if accounts.len() > 0 {
        lemma_no_shares(s, accounts.drop_last(), now, e);
    }
}

/// A bond of nothing is refused, whatever the time and the state of the
/// ledger.
pub proof fn bond_of_nothing_is_refused(s: LedgerView, id: Seq<char>, token: String, now: u64)
    requires
        token@ == s.config.staking_token@,
    ensures
        s.bond(id, Balance::Cw20 { address: token, amount: 0 }, now) == Err::<
            LedgerView,
            ContractError,
        >(ContractError::InvalidZeroAmount),
{
}

/// Bonding an amount, unbonding it at the same instant and claiming once
/// the unbonding period has passed pays back exactly that amount, on top of
/// whatever the account had waiting from before that has matured by then.
/// With no earlier claim the payout is the amount itself. After a bond that
/// succeeds the unbond cannot fail. (A bond that succeeds is of more than
/// nothing.)
pub proof fn bond_unbond_claim_returns_principal(
    s: LedgerView,
    id: Seq<char>,
    token: String,
    amount: u128,
    now: u64,
    later: u64,
)
    requires
        distinct_ids(s.accounts),
        s.bond(id, Balance::Cw20 { address: token, amount }, now) is Ok,
        later >= now + s.config.unbonding_period,
    ensures
        s.bond(id, Balance::Cw20 { address: token, amount }, now)->Ok_0.unbond(id, amount, now)
            is Ok,
        ({
            let bonded = s.bond(id, Balance::Cw20 { address: token, amount }, now)->Ok_0;
            let unbonded = bonded.unbond(id, amount, now)->Ok_0;
            let earlier = matured_sum(s.account(id).claims, later as int);
            match unbonded.claim(id, later) {
                Ok((paid, _)) => paid == amount + earlier,
                Err(e) => e is Overflow && amount + earlier > u128::MAX,
            }
        }),
        s.account(id).claims.len() == 0 ==> ({
            let bonded = s.bond(id, Balance::Cw20 { address: token, amount }, now)->Ok_0;
            let unbonded = bonded.unbond(id, amount, now)->Ok_0;
            unbonded.claim(id, later) matches Ok((paid, _)) && paid == amount
        }),
{
    let start = s.start();
    let bonded = s.moved(id, amount as int, now);
    let a = s.account(id);
    lemma_put(s.accounts, bonded.accounts[if has_account(s.accounts, id) {
        position(s.accounts, id)
    } else {
        s.accounts.len() as int
    }], id);
    let b = bonded.account(id);
    assert(b.claims == a.claims);
    // right after the bond nothing has been gathered, so settling cannot fail
    assert forall|e: int| #[trigger]
        projected(start, b.weights, b.stake, now as int, e) <= u128::MAX by {
        lemma_zero_seconds(start, b.stake, now as int, e);
    }
    assert forall|e: int| #[trigger]
        projected(start, bonded.epoch_weights, bonded.total, now as int, e) <= u128::MAX by {
        lemma_zero_seconds(start, bonded.total, now as int, e);
    }
    assert(bonded.unbond_error(id, amount, now as int) is None);
    let moved = bonded.moved(id, -(amount as int), now);
    lemma_put(bonded.accounts, moved.accounts[position(bonded.accounts, id)], id);
    assert(moved.account(id).claims == a.claims);
    let claim = Claim { amount, release_at: (now + s.config.unbonding_period) as u64 };
    let unbonded = moved.with_claims(id, a.claims.push(claim));
    lemma_put(moved.accounts, unbonded.accounts[position(moved.accounts, id)], id);
    assert(unbonded.account(id).claims == a.claims.push(claim));
    lemma_claim_pushed(a.claims, claim, later as int);
    lemma_matured_sum_nonnegative(a.claims, later as int);
}

/// A withdrawal pays something and books exactly what it pays: the
/// cumulative withdrawals of the account grow by the amount paid, and
/// nothing else of the account changes.
pub proof fn withdrawal_books_what_it_pays(s: LedgerView, id: Seq<char>, now: u64)
    requires
        distinct_ids(s.accounts),
        s.withdraw(id, now) is Ok,
    ensures
        ({
            let (amount, after) = s.withdraw(id, now)->Ok_0;
            &&& amount > 0
            &&& after.account(id).withdrawn == s.account(id).withdrawn + amount
            &&& after.account(id).stake == s.account(id).stake
            &&& after.account(id).weights == s.account(id).weights
            &&& after.account(id).claims == s.account(id).claims
            &&& after.total == s.total
            &&& after.epoch_weights == s.epoch_weights
        }),
{
    let (amount, after) = s.withdraw(id, now)->Ok_0;
    lemma_put(s.accounts, after.accounts[if has_account(s.accounts, id) {
        position(s.accounts, id)
    } else {
        s.accounts.len() as int
    }], id);
}

/// A second withdrawal at the same instant finds nothing to withdraw.
pub proof fn second_withdrawal_finds_nothing(s: LedgerView, id: Seq<char>, now: u64)
    requires
        distinct_ids(s.accounts),
        s.withdraw(id, now) is Ok,
    ensures
        s.withdraw(id, now)->Ok_0.1.withdraw(id, now) == Err::<(u128, LedgerView), ContractError>(
            ContractError::NothingToWithdraw,
        ),
{
    withdrawal_books_what_it_pays(s, id, now);
}

/// The reward is a function of the stored state and the time alone: two
/// queries with the same arguments give the same result.
pub proof fn earned_is_repeatable(
    cfg: Config,
    member: Stake,
    total: Stake,
    member_weights: Seq<u128>,
    epoch_weights: Seq<u128>,
    now: u64,
    first: Result<u128, ContractError>,
    second: Result<u128, ContractError>,
)
    requires
        first == earned_outcome(cfg, member, total, member_weights, epoch_weights, now as int),
        second == earned_outcome(cfg, member, total, member_weights, epoch_weights, now as int),
    ensures
        first == second,
{
}

} // verus!
