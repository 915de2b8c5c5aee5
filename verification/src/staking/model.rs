//! The ledger as a mathematical value: every account with its stake, weight,
//! claims and withdrawals, the total stake and the weight of every epoch;
//! the transitions between such values, and the invariant they keep.

use vstd::prelude::*;
use crate::error::ContractError;
use crate::staking::accrual::{
    epoch_overlap,
    lemma_overlap_splits,
    projected,
    settled_weights,
    weight_at,
};
use crate::staking::claims::{
    Claim,
    InstantClaim,
    claim_outcome,
    instant_claim_outcome,
    waiting,
};
use crate::staking::contract::{
    Balance,
    bond_error,
    bonded_amount_of,
    unbond_error,
    withdraw_outcome,
};
use crate::staking::state::{Config, Stake};

verus! {

/// One account of the ledger.
pub struct AccountView {
    pub id: Seq<char>,
    pub stake: Stake,
    pub weights: Seq<u128>,
    pub claims: Seq<Claim>,
    pub withdrawn: u128,
}

/// The whole ledger.
pub struct LedgerView {
    pub config: Config,
    pub total: Stake,
    pub epoch_weights: Seq<u128>,
    pub accounts: Seq<AccountView>,
}

/// The account that has never bonded: the implicit state of every
/// identifier the ledger does not hold.
pub open spec fn empty_account(id: Seq<char>) -> AccountView {
    AccountView {
        id,
        stake: Stake { amount: 0, time: 0 },
        weights: Seq::empty(),
        claims: Seq::empty(),
        withdrawn: 0,
    }
}

/// Whether the accounts hold one with the identifier `id`.
pub open spec fn has_account(accounts: Seq<AccountView>, id: Seq<char>) -> bool {
    exists|i: int| 0 <= i < accounts.len() && (#[trigger] accounts[i]).id == id
}

/// The place of the account with the identifier `id`, where there is one.
pub open spec fn position(accounts: Seq<AccountView>, id: Seq<char>) -> int {
    choose|i: int| 0 <= i < accounts.len() && (#[trigger] accounts[i]).id == id
}

/// No two accounts share an identifier.
pub open spec fn distinct_ids(accounts: Seq<AccountView>) -> bool {
    forall|i: int, j: int|
        0 <= i < j < accounts.len() ==> (#[trigger] accounts[i]).id != (#[trigger] accounts[j]).id
}

/// The account with the identifier `id`, empty where the ledger holds none.
pub open spec fn account_of(accounts: Seq<AccountView>, id: Seq<char>) -> AccountView {
    if has_account(accounts, id) {
        accounts[position(accounts, id)]
    } else {
        empty_account(id)
    }
}

/// The accounts with `account` in the place of the one that shares its
/// identifier, or added at the back where there is none.
pub open spec fn put(accounts: Seq<AccountView>, account: AccountView) -> Seq<AccountView> {
    if has_account(accounts, account.id) {
        accounts.update(position(accounts, account.id), account)
    } else {
        accounts.push(account)
    }
}

/// The sum of the stakes of all accounts.
pub open spec fn stake_sum(accounts: Seq<AccountView>) -> int
    decreases accounts.len(),
{
    if accounts.len() == 0 {
        0
    } else {
        stake_sum(accounts.drop_last()) + accounts.last().stake.amount
    }
}

/// The weight of `account` in epoch `e` once its stake is settled up to
/// `upto`.
pub open spec fn member_weight(start: int, account: AccountView, upto: int, e: int) -> int {
    projected(start, account.weights, account.stake, upto, e)
}

/// The sum over all accounts of their weight in epoch `e`, each settled up
/// to `upto`.
pub open spec fn weight_sum(start: int, accounts: Seq<AccountView>, upto: int, e: int) -> int
    decreases accounts.len(),
{
    if accounts.len() == 0 {
        0
    } else {
        weight_sum(start, accounts.drop_last(), upto, e) + member_weight(
            start,
            accounts.last(),
            upto,
            e,
        )
    }
}

impl LedgerView {
    /// The start of the distribution.
    pub open spec fn start(self) -> int {
        self.config.start_time as int
    }

    /// The invariant of the ledger: identifiers are unique; the total stake
    /// is the sum of the stakes of the accounts; no outstanding stake was
    /// changed after the total; and in every epoch the weight of the
    /// accounts, each settled up to the last change of the total, adds up to
    /// the weight of the epoch.
    pub open spec fn wf(self) -> bool {
        &&& distinct_ids(self.accounts)
        &&& self.total.amount == stake_sum(self.accounts)
        &&& forall|i: int|
            0 <= i < self.accounts.len() && (#[trigger] self.accounts[i]).stake.amount > 0
                ==> self.accounts[i].stake.time <= self.total.time
        &&& forall|e: int| #[trigger]
            weight_sum(self.start(), self.accounts, self.total.time as int, e) == weight_at(
                self.epoch_weights,
                e,
            )
    }

    /// The account with the identifier `id`.
    pub open spec fn account(self, id: Seq<char>) -> AccountView {
        account_of(self.accounts, id)
    }

    /// The ledger with `account` stored under its identifier.
    pub open spec fn with_account(self, account: AccountView) -> LedgerView {
        LedgerView {
            config: self.config,
            total: self.total,
            epoch_weights: self.epoch_weights,
            accounts: put(self.accounts, account),
        }
    }

    /// The ledger after the stake of `id` and the total have moved by
    /// `delta` at `now`, with both weights settled up to `now` beforehand.
    pub open spec fn moved(self, id: Seq<char>, delta: int, now: u64) -> LedgerView {
        let a = self.account(id);
        LedgerView {
            config: self.config,
            total: Stake { amount: (self.total.amount + delta) as u128, time: now },
            epoch_weights: settled_weights(
                self.start(),
                self.epoch_weights,
                self.total,
                now as int,
            ),
            accounts: put(
                self.accounts,
                AccountView {
                    id,
                    stake: Stake { amount: (a.stake.amount + delta) as u128, time: now },
                    weights: settled_weights(self.start(), a.weights, a.stake, now as int),
                    claims: a.claims,
                    withdrawn: a.withdrawn,
                },
            ),
        }
    }

    /// The ledger with the claims of `id` replaced.
    pub open spec fn with_claims(self, id: Seq<char>, claims: Seq<Claim>) -> LedgerView {
        let a = self.account(id);
        self.with_account(
            AccountView { id, stake: a.stake, weights: a.weights, claims, withdrawn: a.withdrawn },
        )
    }

    /// The ledger with the cumulative withdrawals of `id` replaced.
    pub open spec fn with_withdrawn(self, id: Seq<char>, withdrawn: u128) -> LedgerView {
        let a = self.account(id);
        self.with_account(
            AccountView { id, stake: a.stake, weights: a.weights, claims: a.claims, withdrawn },
        )
    }

    /// The error, if any, that rejects a bond of `amount` by `id` at `now`.
    pub open spec fn bond_error(self, id: Seq<char>, amount: u128, now: int) -> Option<
        ContractError,
    > {
        let a = self.account(id);
        bond_error(self.config, amount, a.stake, self.total, a.weights, self.epoch_weights, now)
    }

    /// The ledger after `id` bonds what `balance` holds at `now`, or the
    /// error that rejects the bond.
    pub open spec fn bond(self, id: Seq<char>, balance: Balance, now: u64) -> Result<
        LedgerView,
        ContractError,
    > {
        match bonded_amount_of(self.config, balance) {
            Err(e) => Err(e),
            Ok(amount) => match self.bond_error(id, amount, now as int) {
                Some(e) => Err(e),
                None => Ok(self.moved(id, amount as int, now)),
            },
        }
    }

    /// The error, if any, that rejects an unbond of `amount` by `id` at
    /// `now`.
    pub open spec fn unbond_error(self, id: Seq<char>, amount: u128, now: int) -> Option<
        ContractError,
    > {
        let a = self.account(id);
        unbond_error(self.config, amount, a.stake, self.total, a.weights, self.epoch_weights, now)
    }

    /// The ledger after `id` unbonds `amount` at `now`, with the claim for
    /// `amount` enqueued, or the error that rejects the unbond.
    pub open spec fn unbond(self, id: Seq<char>, amount: u128, now: u64) -> Result<
        LedgerView,
        ContractError,
    > {
        match self.unbond_error(id, amount, now as int) {
            Some(e) => Err(e),
            None => {
                let moved = self.moved(id, -(amount as int), now);
                Ok(
                    moved.with_claims(
                        id,
                        moved.account(id).claims.push(
                            Claim {
                                amount,
                                release_at: (now + self.config.unbonding_period) as u64,
                            },
                        ),
                    ),
                )
            },
        }
    }

    /// What a claim by `id` at `now` pays, and the ledger after it.
    pub open spec fn claim(self, id: Seq<char>, now: u64) -> Result<
        (u128, LedgerView),
        ContractError,
    > {
        match claim_outcome(self.account(id).claims, now as int) {
            Err(e) => Err(e),
            Ok(amount) => Ok(
                (amount, self.with_claims(id, waiting(self.account(id).claims, now as int))),
            ),
        }
    }

    /// What an instant claim by `id` at `now` pays, and the ledger after it.
    pub open spec fn instant_claim(self, id: Seq<char>, now: u64) -> Result<
        (InstantClaim, LedgerView),
        ContractError,
    > {
        match instant_claim_outcome(
            self.config.unbonding_period,
            self.config.instant_claim_percentage_loss,
            self.account(id).claims,
            now as int,
        ) {
            Err(e) => Err(e),
            Ok(paid) => Ok(
                (
                    paid,
                    self.with_claims(
                        id,
                        waiting(self.account(id).claims, now + self.config.unbonding_period),
                    ),
                ),
            ),
        }
    }

    /// What a withdrawal by `id` at `now` pays, and the ledger after it.
    pub open spec fn withdraw(self, id: Seq<char>, now: u64) -> Result<
        (u128, LedgerView),
        ContractError,
    > {
        let a = self.account(id);
        match withdraw_outcome(
            self.config,
            a.stake,
            self.total,
            a.weights,
            self.epoch_weights,
            a.withdrawn,
            now as int,
        ) {
            Err(e) => Err(e),
            Ok(w) => Ok((w.amount, self.with_withdrawn(id, w.withdrawn))),
        }
    }
}

/// Storing an account changes the account under its identifier and no
/// other, and keeps identifiers unique.
pub proof fn lemma_put(accounts: Seq<AccountView>, account: AccountView, id: Seq<char>)
    requires
        distinct_ids(accounts),
    ensures
        distinct_ids(put(accounts, account)),
        has_account(put(accounts, account), account.id),
        account_of(put(accounts, account), id) == if id == account.id {
            account
        } else {
            account_of(accounts, id)
        },
        has_account(put(accounts, account), id) == (id == account.id || has_account(accounts, id)),
{
    let after = put(accounts, account);
    if has_account(accounts, account.id) {
        let p = position(accounts, account.id);
        assert(after[p].id == account.id);
        assert forall|i: int, j: int| 0 <= i < j < after.len() implies (#[trigger] after[i]).id != (
        #[trigger] after[j]).id by {
            assert(accounts[i].id != accounts[j].id);
        }
        if has_account(accounts, id) {
            let q = position(accounts, id);
            assert(after[q].id == id);
        }
        if has_account(after, id) {
            let q = position(after, id);
            assert(accounts[q].id == id);
            if id != account.id {
                let r = position(accounts, id);
                assert(q == r) by {
                    if q < r {
                        assert(accounts[q].id != accounts[r].id);
                    }
                    if r < q {
                        assert(accounts[r].id != accounts[q].id);
                    }
                }
            } else {
                assert(q == p) by {
                    if q < p {
                        assert(accounts[q].id != accounts[p].id);
                    }
                    if p < q {
                        assert(accounts[p].id != accounts[q].id);
                    }
                }
            }
        }
    } else {
        let n = accounts.len() as int;
        assert(after[n].id == account.id);
        assert forall|i: int, j: int| 0 <= i < j < after.len() implies (#[trigger] after[i]).id != (
        #[trigger] after[j]).id by {
            if j == n {
                assert(accounts[i].id != account.id);
            } else {
                assert(accounts[i].id != accounts[j].id);
            }
        }
        if has_account(accounts, id) {
            let q = position(accounts, id);
            assert(after[q].id == id);
        }
        if has_account(after, id) {
            let q = position(after, id);
            if id != account.id {
                assert(q < n);
                assert(accounts[q].id == id);
                let r = position(accounts, id);
                assert(q == r) by {
                    if q < r {
                        assert(accounts[q].id != accounts[r].id);
                    }
                    if r < q {
                        assert(accounts[r].id != accounts[q].id);
                    }
                }
            } else {
                assert(q == n) by {
                    if q < n {
                        assert(accounts[q].id == account.id);
                    }
                }
            }
        }
    }
}

/// Replacing one account changes both sums by the difference between the
/// new account and the old.
pub proof fn lemma_sums_update(
    start: int,
    accounts: Seq<AccountView>,
    i: int,
    account: AccountView,
    upto: int,
    e: int,
)
    requires
        0 <= i < accounts.len(),
    ensures
        stake_sum(accounts.update(i, account)) == stake_sum(accounts) - accounts[i].stake.amount
            + account.stake.amount,
        weight_sum(start, accounts.update(i, account), upto, e) == weight_sum(
            start,
            accounts,
            upto,
            e,
        ) - member_weight(start, accounts[i], upto, e) + member_weight(start, account, upto, e),
    decreases accounts.len(),
{
    let after = accounts.update(i, account);
    if i == accounts.len() - 1 {
        assert(after.drop_last() =~= accounts.drop_last());
    } else {
        assert(after.drop_last() =~= accounts.drop_last().update(i, account));
        lemma_sums_update(start, accounts.drop_last(), i, account, upto, e);
    }
}

/// Adding an account at the back adds it to both sums.
pub proof fn lemma_sums_push(
    start: int,
    accounts: Seq<AccountView>,
    account: AccountView,
    upto: int,
    e: int,
)
    ensures
        stake_sum(accounts.push(account)) == stake_sum(accounts) + account.stake.amount,
        weight_sum(start, accounts.push(account), upto, e) == weight_sum(
            start,
            accounts,
            upto,
            e,
        ) + member_weight(start, account, upto, e),
{
    assert(accounts.push(account).drop_last() =~= accounts);
}

/// The sum of the stakes is never negative.
pub proof fn lemma_stake_sum_nonnegative(accounts: Seq<AccountView>)
    ensures
        stake_sum(accounts) >= 0,
    decreases accounts.len(),
{
    if accounts.len() > 0 {
        lemma_stake_sum_nonnegative(accounts.drop_last());
    }
}

/// No stake exceeds the sum of all.
pub proof fn lemma_stake_within_sum(accounts: Seq<AccountView>, i: int)
    requires
        0 <= i < accounts.len(),
    ensures
        0 <= accounts[i].stake.amount <= stake_sum(accounts),
    decreases accounts.len(),
{
    lemma_stake_sum_nonnegative(accounts.drop_last());
    if i < accounts.len() - 1 {
        lemma_stake_within_sum(accounts.drop_last(), i);
    }
}

/// Settling every account from `mid` on to `to` adds to the sum of their
/// weights what the sum of their stakes gathers between `mid` and `to`.
pub proof fn lemma_weight_sum_shift(
    start: int,
    accounts: Seq<AccountView>,
    mid: int,
    to: int,
    e: int,
)
    requires
        forall|i: int|
            0 <= i < accounts.len() && (#[trigger] accounts[i]).stake.amount > 0
                ==> accounts[i].stake.time <= mid <= to,
    ensures
        weight_sum(start, accounts, to, e) == weight_sum(start, accounts, mid, e) + stake_sum(
            accounts,
        ) * epoch_overlap(start, mid, to, e),
    decreases accounts.len(),
{
    let seconds = epoch_overlap(start, mid, to, e);
    if accounts.len() == 0 {
        assert(0 * seconds == 0) by (nonlinear_arith);
    } else {
        let rest = accounts.drop_last();
        let a = accounts.last();
        assert forall|i: int| 0 <= i < rest.len() && (#[trigger] rest[i]).stake.amount > 0 implies
            rest[i].stake.time <= mid <= to by {
            assert(rest[i] == accounts[i]);
        }
        lemma_weight_sum_shift(start, rest, mid, to, e);
        let amount = a.stake.amount as int;
        let before = epoch_overlap(start, a.stake.time as int, mid, e);
        let whole = epoch_overlap(start, a.stake.time as int, to, e);
        assert(amount * whole == amount * before + amount * seconds) by {
            if amount > 0 {
                assert(accounts[accounts.len() - 1].stake.amount > 0);
                lemma_overlap_splits(start, a.stake.time as int, mid, to, e);
                assert(amount * (before + seconds) == amount * before + amount * seconds)
                    by (nonlinear_arith);
            } else {
                assert(amount == 0 ==> amount * whole == 0 && amount * before == 0 && amount
                    * seconds == 0) by (nonlinear_arith);
            }
        }
        assert((stake_sum(rest) + amount) * seconds == stake_sum(rest) * seconds + amount
            * seconds) by (nonlinear_arith);
    }
}

} // verus!
