//! The ledger in memory: the accounts, the total stake and the weight of
//! every epoch, with the operations that change them.

use vstd::prelude::*;
use crate::error::ContractError;
use crate::paging::{page_limit, page_size};
use crate::staking::accrual::{lemma_settled_weights, stored_weight, weight_at};
use crate::staking::claims::{
    Claim,
    InstantClaim,
    create_claim,
    execute_claim,
    execute_instant_claim,
};
use crate::staking::contract::{
    Balance,
    StakeChange,
    Unbonded,
    bonded_amount_of,
    execute_bond,
    execute_unbond,
    execute_withdraw,
    settle_error,
    stake_changed,
};
use crate::staking::laws::{
    bond_keeps_invariant,
    empty_ledger,
    payouts_keep_invariant,
    unbond_keeps_invariant,
};
use crate::staking::model::{
    AccountView,
    LedgerView,
    distinct_ids,
    has_account,
    lemma_put,
    position,
    weight_sum,
};
use crate::staking::msg::{
    MemberListResponse,
    MemberListResponseItem,
    MemberResponseItem,
    NewConfig,
};
use crate::staking::order::{
    id_before,
    id_less,
    lemma_id_before_irreflexive,
    lemma_id_before_transitive,
    lemma_id_order_total,
};
use crate::staking::reward::{earned, earned_outcome};
use crate::staking::state::{Config, Stake, merged_config, schedule_bounds};

verus! {

/// One account as the ledger holds it.
pub struct Account {
    id: String,
    stake: Stake,
    weights: Vec<u128>,
    claims: Vec<Claim>,
    withdrawn: u128,
}

impl View for Account {
    type V = AccountView;

    closed spec fn view(&self) -> AccountView {
        AccountView {
            id: self.id@,
            stake: self.stake,
            weights: self.weights@,
            claims: self.claims@,
            withdrawn: self.withdrawn,
        }
    }
}

/// The staking ledger.
pub struct Ledger {
    config: Config,
    total: Stake,
    epoch_weights: Vec<u128>,
    accounts: Vec<Account>,
}

impl View for Ledger {
    type V = LedgerView;

    closed spec fn view(&self) -> LedgerView {
        LedgerView {
            config: self.config,
            total: self.total,
            epoch_weights: self.epoch_weights@,
            accounts: self.accounts@.map_values(|a: Account| a@),
        }
    }
}

/// Whether `item` says of `account` what the ledger holds, with `reward` as
/// what it has earned.
pub open spec fn describes(item: MemberResponseItem, account: AccountView, reward: u128) -> bool {
    &&& item.stake == account.stake.amount
    &&& item.reward == reward
    &&& item.withdrawn == account.withdrawn
    &&& item.claims@ == account.claims
}

/// What the ledger `s` has earned for the account `id` at `now`.
pub open spec fn reward_of(s: LedgerView, id: Seq<char>, now: int) -> Result<u128, ContractError> {
    earned_outcome(
        s.config,
        s.account(id).stake,
        s.total,
        s.account(id).weights,
        s.epoch_weights,
        now,
    )
}

/// Whether `r` answers the query for the account `id` at `now`.
pub open spec fn member_answer(
    s: LedgerView,
    id: Seq<char>,
    now: int,
    r: Result<Option<MemberResponseItem>, ContractError>,
) -> bool {
    if !has_account(s.accounts, id) {
        r is Ok && r->Ok_0 is None
    } else {
        match reward_of(s, id, now) {
            Ok(reward) => r is Ok && r->Ok_0 is Some && describes(
                r->Ok_0->Some_0,
                s.account(id),
                reward,
            ),
            Err(e) => r == Err::<Option<MemberResponseItem>, ContractError>(e),
        }
    }
}

/// The identifier that an optional address stands for.
pub open spec fn id_of(address: Option<String>) -> Option<Seq<char>> {
    match address {
        Some(a) => Some(a@),
        None => None,
    }
}

/// Whether `id` is listed after `after`: every identifier is where the
/// listing starts at the beginning.
pub open spec fn qualifies(after: Option<Seq<char>>, id: Seq<char>) -> bool {
    match after {
        Some(a) => id_before(a, id),
        None => true,
    }
}

/// Whether `id` is the account listed next after `after`: an account that
/// comes after it, with no other such account before it.
pub open spec fn is_next(
    accounts: Seq<AccountView>,
    after: Option<Seq<char>>,
    id: Seq<char>,
) -> bool {
    &&& has_account(accounts, id)
    &&& qualifies(after, id)
    &&& forall|i: int|
        0 <= i < accounts.len() && qualifies(after, (#[trigger] accounts[i]).id) ==> !id_before(
            accounts[i].id,
            id,
        )
}

/// The listing is determined: no two accounts are the next after `after`.
pub proof fn next_account_is_unique(
    accounts: Seq<AccountView>,
    after: Option<Seq<char>>,
    x: Seq<char>,
    y: Seq<char>,
)
    requires
        is_next(accounts, after, x),
        is_next(accounts, after, y),
    ensures
        x == y,
{
    lemma_id_order_total(x, y);
    let i = position(accounts, x);
    let j = position(accounts, y);
    assert(accounts[i].id == x);
    assert(accounts[j].id == y);
}

/// Whether no account is listed after `after`.
pub open spec fn exhausted(accounts: Seq<AccountView>, after: Option<Seq<char>>) -> bool {
    forall|i: int| 0 <= i < accounts.len() ==> !qualifies(after, (#[trigger] accounts[i]).id)
}

/// The identifier after which entry `k` of a page is looked for: where the
/// page starts for the first, the entry before for every other.
pub open spec fn cursor(
    start_after: Option<Seq<char>>,
    items: Seq<MemberListResponseItem>,
    k: int,
) -> Option<Seq<char>> {
    if k == 0 {
        start_after
    } else {
        Some(items[k - 1].address@)
    }
}

/// Whether `item` says of its account what the ledger holds at `now`.
pub open spec fn listed(s: LedgerView, now: int, item: MemberListResponseItem) -> bool {
    reward_of(s, item.address@, now) is Ok && describes(
        item.info,
        s.account(item.address@),
        reward_of(s, item.address@, now)->Ok_0,
    )
}

/// Whether `items` are the first accounts after `start_after`, each the
/// next after the one before, and each described as the ledger holds it.
pub open spec fn page_begins(
    s: LedgerView,
    start_after: Option<Seq<char>>,
    now: int,
    items: Seq<MemberListResponseItem>,
) -> bool {
    forall|k: int|
        0 <= k < items.len() ==> is_next(
            s.accounts,
            cursor(start_after, items, k),
            (#[trigger] items[k]).address@,
        ) && listed(s, now, items[k])
}

/// Whether `items` is the page of at most `limit` accounts after
/// `start_after`: it ends only at the limit or where no account is left.
pub open spec fn is_page(
    s: LedgerView,
    start_after: Option<Seq<char>>,
    limit: int,
    now: int,
    items: Seq<MemberListResponseItem>,
) -> bool {
    &&& items.len() <= limit
    &&& page_begins(s, start_after, now, items)
    &&& (items.len() == limit || exhausted(
        s.accounts,
        cursor(start_after, items, items.len() as int),
    ))
}

/// Whether the page breaks off with `e`: after `items`, fewer than the
/// limit, the next account is `id`, and its reward fails with `e`.
pub open spec fn page_fails(
    s: LedgerView,
    start_after: Option<Seq<char>>,
    limit: int,
    now: int,
    e: ContractError,
    items: Seq<MemberListResponseItem>,
    id: Seq<char>,
) -> bool {
    &&& items.len() < limit
    &&& page_begins(s, start_after, now, items)
    &&& is_next(s.accounts, cursor(start_after, items, items.len() as int), id)
    &&& reward_of(s, id, now) == Err::<u128, ContractError>(e)
}

impl Ledger {
    /// A ledger for `config` without accounts, stake or weight.
    pub fn new(config: Config) -> (ledger: Ledger)
        ensures
            ledger@ == empty_ledger(config),
            ledger@.wf(),
    {
        let ledger = Ledger {
            config,
            total: Stake { amount: 0, time: 0 },
            epoch_weights: Vec::new(),
            accounts: Vec::new(),
        };
        assert(ledger@.accounts =~= Seq::empty());
        ledger
    }

    /// The place of the account `id`, if the ledger holds it.
    fn find(&self, id: &String) -> (r: Option<usize>)
        requires
            distinct_ids(self@.accounts),
        ensures
            match r {
                Some(i) => has_account(self@.accounts, id@) && i == position(
                    self@.accounts,
                    id@,
                ) && i < self.accounts@.len(),
                None => !has_account(self@.accounts, id@),
            },
    {
        let mut i: usize = 0;
        while i < self.accounts.len()
            invariant
                i <= self.accounts@.len(),
                distinct_ids(self@.accounts),
                forall|j: int| 0 <= j < i ==> (#[trigger] self@.accounts[j]).id != id@,
            decreases self.accounts@.len() - i,
        {
            if self.accounts[i].id == *id {
                proof {
                    assert(self@.accounts[i as int].id == id@);
                    let p = position(self@.accounts, id@);
                    if p < i {
                        assert(self@.accounts[p].id != id@);
                    }
                    if i < p {
                        assert(self@.accounts[i as int].id != self@.accounts[p].id);
                    }
                }
                return Some(i);
            }
            i = i + 1;
        }
        None
    }

    /// The settings of the ledger.
    pub fn config(&self) -> (r: &Config)
        ensures
            *r == self@.config,
    {
        &self.config
    }

    /// The total stake.
    pub fn total(&self) -> (r: Stake)
        ensures
            r == self@.total,
    {
        self.total
    }

    /// The stake of the account `id`; empty where it has never bonded.
    pub fn staked(&self, id: &String) -> (r: Stake)
        requires
            distinct_ids(self@.accounts),
        ensures
            r == self@.account(id@).stake,
    {
        match self.find(id) {
            Some(i) => self.accounts[i].stake,
            None => Stake { amount: 0, time: 0 },
        }
    }

    /// What the account `id` has been paid in rewards so far.
    pub fn withdrawn(&self, id: &String) -> (r: u128)
        requires
            distinct_ids(self@.accounts),
        ensures
            r == self@.account(id@).withdrawn,
    {
        match self.find(id) {
            Some(i) => self.accounts[i].withdrawn,
            None => 0,
        }
    }

    /// The weight stored for `epoch` as a whole.
    pub fn epoch_weight(&self, epoch: u64) -> (r: u128)
        ensures
            r == weight_at(self@.epoch_weights, epoch as int),
    {
        stored_weight(&self.epoch_weights, epoch)
    }

    /// The weight stored for the account `id` in `epoch`.
    pub fn member_weight(&self, id: &String, epoch: u64) -> (r: u128)
        requires
            distinct_ids(self@.accounts),
        ensures
            r == weight_at(self@.account(id@).weights, epoch as int),
    {
        match self.find(id) {
            Some(i) => stored_weight(&self.accounts[i].weights, epoch),
            None => 0,
        }
    }

    /// The claims of the account `id` that have not been released, oldest
    /// first.
    pub fn claims(&self, id: &String) -> (r: Vec<Claim>)
        requires
            distinct_ids(self@.accounts),
        ensures
            r@ == self@.account(id@).claims,
    {
        let mut out: Vec<Claim> = Vec::new();
        match self.find(id) {
            Some(i) => {
                let claims = &self.accounts[i].claims;
                let mut k: usize = 0;
                while k < claims.len()
                    invariant
                        k <= claims@.len(),
                        out@ == claims@.take(k as int),
                    decreases claims@.len() - k,
                {
                    out.push(claims[k]);
                    assert(claims@.take(k + 1) =~= claims@.take(k as int).push(claims@[k as int]));
                    k = k + 1;
                }
                assert(claims@.take(k as int) =~= claims@);
                out
            },
            None => out,
        }
    }

    /// What the account `id` has earned up to `now`, paid out or not. The
    /// ledger is not changed: the stakes are settled on copies.
    pub fn earned(&self, id: &String, now: u64) -> (r: Result<u128, ContractError>)
        requires
            distinct_ids(self@.accounts),
        ensures
            r == earned_outcome(
                self@.config,
                self@.account(id@).stake,
                self@.total,
                self@.account(id@).weights,
                self@.epoch_weights,
                now as int,
            ),
    {
        match self.find(id) {
            Some(i) => earned(
                &self.config,
                &self.accounts[i].stake,
                &self.total,
                &self.accounts[i].weights,
                &self.epoch_weights,
                now,
            ),
            None => {
                let none: Vec<u128> = Vec::new();
                earned(
                    &self.config,
                    &Stake { amount: 0, time: 0 },
                    &self.total,
                    &none,
                    &self.epoch_weights,
                    now,
                )
            },
        }
    }

    /// Stake, reward, withdrawals and claims of the account `id` at `now`,
    /// or `None` where the ledger holds no such account. Fails as the
    /// computation of the reward does.
    pub fn member(&self, id: &String, now: u64) -> (r: Result<
        Option<MemberResponseItem>,
        ContractError,
    >)
        requires
            distinct_ids(self@.accounts),
        ensures
            member_answer(self@, id@, now as int, r),
    {
        match self.find(id) {
            Some(i) => {
                let reward = match self.earned(id, now) {
                    Ok(reward) => reward,
                    Err(e) => { return Err(e); },
                };
                Ok(
                    Some(
                        MemberResponseItem {
                            stake: self.accounts[i].stake.amount,
                            reward,
                            withdrawn: self.accounts[i].withdrawn,
                            claims: self.claims(id),
                        },
                    ),
                )
            },
            None => Ok(None),
        }
    }

    /// Bonds what `balance` holds for `sender` at `now`. On success the
    /// ledger is the one that `LedgerView::bond` describes; on failure, as
    /// for a bond of nothing, it is left as it was.
    pub fn bond(&mut self, sender: &String, balance: &Balance, now: u64) -> (r: Result<
        (),
        ContractError,
    >)
        requires
            distinct_ids(old(self)@.accounts),
        ensures
            distinct_ids(final(self)@.accounts),
            match old(self)@.bond(sender@, *balance, now) {
                Ok(after) => r is Ok && final(self)@ == after,
                Err(e) => r == Err::<(), ContractError>(e) && final(self)@ == old(self)@,
            },
            old(self)@.wf() ==> final(self)@.wf(),
    {
        proof {
            if self@.wf() {
                bond_keeps_invariant(self@, sender@, *balance, now);
            }
        }
        let found = self.find(sender);
        let none: Vec<u128> = Vec::new();
        let outcome = match found {
            Some(i) => execute_bond(
                &self.config,
                balance,
                &self.accounts[i].stake,
                &self.total,
                &self.accounts[i].weights,
                &self.epoch_weights,
                now,
            ),
            None => execute_bond(
                &self.config,
                balance,
                &Stake { amount: 0, time: 0 },
                &self.total,
                &none,
                &self.epoch_weights,
                now,
            ),
        };
        let change = match outcome {
            Ok(change) => change,
            Err(e) => { return Err(e); },
        };
        let ghost amount = bonded_amount_of(self@.config, *balance)->Ok_0;
        self.commit(sender, found, change, Ghost(amount as int), now);
        Ok(())
    }

    /// Stores the outcome of a bond or an unbond.
    fn commit(
        &mut self,
        sender: &String,
        found: Option<usize>,
        change: StakeChange,
        Ghost(delta): Ghost<int>,
        now: u64,
    ) -> (place: usize)
        requires
            distinct_ids(old(self)@.accounts),
            match found {
                Some(i) => has_account(old(self)@.accounts, sender@) && i == position(
                    old(self)@.accounts,
                    sender@,
                ) && i < old(self)@.accounts.len(),
                None => !has_account(old(self)@.accounts, sender@),
            },
            settle_error(
                old(self)@.start(),
                old(self)@.account(sender@).weights,
                old(self)@.account(sender@).stake,
                now as int,
            ) is None,
            settle_error(
                old(self)@.start(),
                old(self)@.epoch_weights,
                old(self)@.total,
                now as int,
            ) is None,
            stake_changed(
                old(self)@.config,
                old(self)@.account(sender@).stake,
                old(self)@.total,
                old(self)@.account(sender@).weights,
                old(self)@.epoch_weights,
                now,
                delta,
                change,
            ),
        ensures
            final(self)@ == old(self)@.moved(sender@, delta, now),
            distinct_ids(final(self)@.accounts),
            has_account(final(self)@.accounts, sender@),
            place == position(final(self)@.accounts, sender@),
            place < final(self)@.accounts.len(),
    {
        proof {
            let a = self@.account(sender@);
            lemma_settled_weights(self@.start(), a.weights, a.stake, now as int);
            lemma_settled_weights(self@.start(), self@.epoch_weights, self@.total, now as int);
            lemma_put(
                self@.accounts,
                self@.moved(sender@, delta, now).accounts[if has_account(
                    self@.accounts,
                    sender@,
                ) {
                    position(self@.accounts, sender@)
                } else {
                    self@.accounts.len() as int
                }],
                sender@,
            );
        }
        let ghost before = self@;
        let StakeChange { member, total, member_weights, epoch_weights } = change;
        let place = match found {
            Some(i) => {
                self.accounts[i].stake = member;
                self.accounts[i].weights = member_weights;
                i
            },
            None => {
                self.accounts.push(
                    Account {
                        id: sender.clone(),
                        stake: member,
                        weights: member_weights,
                        claims: Vec::new(),
                        withdrawn: 0,
                    },
                );
                self.accounts.len() - 1
            },
        };
        self.total = total;
        self.epoch_weights = epoch_weights;
        proof {
            assert(self@.accounts =~= before.moved(sender@, delta, now).accounts);
            assert(self@.accounts[place as int].id == sender@);
            let p = position(self@.accounts, sender@);
            if p < place {
                assert(self@.accounts[p].id != self@.accounts[place as int].id);
            }
            if place < p {
                assert(self@.accounts[place as int].id != self@.accounts[p].id);
            }
        }
        place
    }

    /// Unbonds `amount` for `sender` at `now` and enqueues the claim for
    /// it. On success the ledger is the one that `LedgerView::unbond`
    /// describes; on failure it is left as it was.
    pub fn unbond(&mut self, sender: &String, amount: u128, now: u64) -> (r: Result<
        (),
        ContractError,
    >)
        requires
            distinct_ids(old(self)@.accounts),
        ensures
            distinct_ids(final(self)@.accounts),
            match old(self)@.unbond(sender@, amount, now) {
                Ok(after) => r is Ok && final(self)@ == after,
                Err(e) => r == Err::<(), ContractError>(e) && final(self)@ == old(self)@,
            },
            old(self)@.wf() ==> final(self)@.wf(),
    {
        proof {
            if self@.wf() {
                unbond_keeps_invariant(self@, sender@, amount, now);
            }
        }
        let found = self.find(sender);
        let none: Vec<u128> = Vec::new();
        let outcome = match found {
            Some(i) => execute_unbond(
                &self.config,
                &self.accounts[i].stake,
                &self.total,
                &self.accounts[i].weights,
                &self.epoch_weights,
                amount,
                now,
            ),
            None => execute_unbond(
                &self.config,
                &Stake { amount: 0, time: 0 },
                &self.total,
                &none,
                &self.epoch_weights,
                amount,
                now,
            ),
        };
        let Unbonded { change, claim } = match outcome {
            Ok(unbonded) => unbonded,
            Err(e) => { return Err(e); },
        };
        let place = self.commit(sender, found, change, Ghost(-(amount as int)), now);
        let ghost moved = self@;
        create_claim(&mut self.accounts[place].claims, claim.amount, claim.release_at);
        proof {
            assert(self@.accounts =~= moved.with_claims(
                sender@,
                moved.account(sender@).claims.push(claim),
            ).accounts);
            lemma_put(moved.accounts, self@.accounts[place as int], sender@);
        }
        Ok(())
    }

    /// Releases the claims of `sender` that have matured at `now` and
    /// returns their sum, which is to be paid out in the staking token. On
    /// failure the ledger is left as it was.
    pub fn claim(&mut self, sender: &String, now: u64) -> (r: Result<u128, ContractError>)
        requires
            distinct_ids(old(self)@.accounts),
        ensures
            distinct_ids(final(self)@.accounts),
            match old(self)@.claim(sender@, now) {
                Ok((amount, after)) => r == Ok::<u128, ContractError>(amount) && final(self)@
                    == after,
                Err(e) => r == Err::<u128, ContractError>(e) && final(self)@ == old(self)@,
            },
            old(self)@.wf() ==> final(self)@.wf(),
    {
        proof {
            if self@.wf() {
                payouts_keep_invariant(self@, sender@, now);
            }
        }
        let ghost before = self@;
        match self.find(sender) {
            Some(i) => {
                let r = execute_claim(&mut self.accounts[i].claims, now);
                proof {
                    if r is Ok {
                        assert(self@.accounts =~= before.claim(sender@, now)->Ok_0.1.accounts);
                        lemma_put(before.accounts, self@.accounts[i as int], sender@);
                    } else {
                        assert(self@.accounts =~= before.accounts);
                    }
                }
                r
            },
            None => Err(ContractError::NothingToClaim),
        }
    }

    /// Releases at once every claim of `sender` that would mature within
    /// the unbonding period, at the price of the configured percentage. On
    /// failure the ledger is left as it was.
    pub fn instant_claim(&mut self, sender: &String, now: u64) -> (r: Result<
        InstantClaim,
        ContractError,
    >)
        requires
            distinct_ids(old(self)@.accounts),
        ensures
            distinct_ids(final(self)@.accounts),
            match old(self)@.instant_claim(sender@, now) {
                Ok((paid, after)) => {
                    &&& r == Ok::<InstantClaim, ContractError>(paid)
                    &&& final(self)@ == after
                },
                Err(e) => {
                    &&& r == Err::<InstantClaim, ContractError>(e)
                    &&& final(self)@ == old(self)@
                },
            },
            old(self)@.wf() ==> final(self)@.wf(),
    {
        proof {
            if self@.wf() {
                payouts_keep_invariant(self@, sender@, now);
            }
        }
        let ghost before = self@;
        match self.find(sender) {
            Some(i) => {
                let r = execute_instant_claim(&self.config, &mut self.accounts[i].claims, now);
                proof {
                    if r is Ok {
                        assert(self@.accounts =~= before.instant_claim(
                            sender@,
                            now,
                        )->Ok_0.1.accounts);
                        lemma_put(before.accounts, self@.accounts[i as int], sender@);
                    } else {
                        assert(self@.accounts =~= before.accounts);
                    }
                }
                r
            },
            None => {
                let mut none: Vec<Claim> = Vec::new();
                execute_instant_claim(&self.config, &mut none, now)
            },
        }
    }

    /// Pays `sender` what it has earned up to `now` and has not been paid
    /// yet: the amount returned is to be paid out in the reward token, and
    /// the cumulative withdrawals of `sender` grow by it. On failure the
    /// ledger is left as it was.
    pub fn withdraw(&mut self, sender: &String, now: u64) -> (r: Result<u128, ContractError>)
        requires
            distinct_ids(old(self)@.accounts),
        ensures
            distinct_ids(final(self)@.accounts),
            match old(self)@.withdraw(sender@, now) {
                Ok((amount, after)) => r == Ok::<u128, ContractError>(amount) && final(self)@
                    == after,
                Err(e) => r == Err::<u128, ContractError>(e) && final(self)@ == old(self)@,
            },
            old(self)@.wf() ==> final(self)@.wf(),
    {
        proof {
            if self@.wf() {
                payouts_keep_invariant(self@, sender@, now);
            }
        }
        let ghost before = self@;
        let found = self.find(sender);
        let none: Vec<u128> = Vec::new();
        let outcome = match found {
            Some(i) => execute_withdraw(
                &self.config,
                &self.accounts[i].stake,
                &self.total,
                &self.accounts[i].weights,
                &self.epoch_weights,
                self.accounts[i].withdrawn,
                now,
            ),
            None => execute_withdraw(
                &self.config,
                &Stake { amount: 0, time: 0 },
                &self.total,
                &none,
                &self.epoch_weights,
                0,
                now,
            ),
        };
        let withdrawal = match outcome {
            Ok(w) => w,
            Err(e) => { return Err(e); },
        };
        match found {
            Some(i) => {
                self.accounts[i].withdrawn = withdrawal.withdrawn;
            },
            None => {
                self.accounts.push(
                    Account {
                        id: sender.clone(),
                        stake: Stake { amount: 0, time: 0 },
                        weights: none,
                        claims: Vec::new(),
                        withdrawn: withdrawal.withdrawn,
                    },
                );
            },
        }
        proof {
            let after = before.withdraw(sender@, now)->Ok_0.1;
            assert(self@.accounts =~= after.accounts);
            lemma_put(before.accounts, after.account(sender@), sender@);
            lemma_put(
                before.accounts,
                AccountView {
                    id: sender@,
                    stake: before.account(sender@).stake,
                    weights: before.account(sender@).weights,
                    claims: before.account(sender@).claims,
                    withdrawn: withdrawal.withdrawn,
                },
                sender@,
            );
        }
        Ok(withdrawal.amount)
    }

    /// Replaces the settings that `new` names. The weights already stored
    /// stay as they are, so the accounting invariant is kept as long as the
    /// start of the distribution is.
    pub fn update_config(&mut self, new: NewConfig)
        ensures
            final(self)@ == (LedgerView {
                config: merged_config(old(self)@.config, new),
                total: old(self)@.total,
                epoch_weights: old(self)@.epoch_weights,
                accounts: old(self)@.accounts,
            }),
            old(self)@.wf() && final(self)@.config.start_time == old(self)@.config.start_time
                ==> final(self)@.wf(),
    {
        let ghost before = self@;
        let NewConfig {
            owner,
            burn_address,
            unbonding_period,
            instant_claim_percentage_loss,
            distribution_schedule,
        } = new;
        if let Some(owner) = owner {
            self.config.owner = owner;
        }
        if let Some(address) = burn_address {
            self.config.burn_address = address;
        }
        if let Some(period) = unbonding_period {
            self.config.unbonding_period = period;
        }
        if let Some(percentage) = instant_claim_percentage_loss {
            self.config.instant_claim_percentage_loss = percentage;
        }
        if let Some(schedule) = distribution_schedule {
            let (start_time, end_time) = schedule_bounds(&schedule);
            self.config.distribution_schedule = schedule;
            self.config.start_time = start_time;
            self.config.end_time = end_time;
        }
        proof {
            if before.wf() && self@.config.start_time == before.config.start_time {
                assert forall|e: int| #[trigger]
                    weight_sum(self@.start(), self@.accounts, self@.total.time as int, e)
                        == weight_at(self@.epoch_weights, e) by {
                    assert(weight_sum(before.start(), before.accounts, before.total.time as int, e)
                        == weight_at(before.epoch_weights, e));
                }
            }
        }
    }

    /// The place of the account listed next after `after`, if there is one.
    fn next_after(&self, after: &Option<String>) -> (r: Option<usize>)
        ensures
            match r {
                Some(i) => i < self.accounts@.len() && is_next(
                    self@.accounts,
                    id_of(*after),
                    self@.accounts[i as int].id,
                ),
                None => exhausted(self@.accounts, id_of(*after)),
            },
    {
        let mut best: Option<usize> = None;
        let mut j: usize = 0;
        while j < self.accounts.len()
            invariant
                j <= self.accounts@.len(),
                match best {
                    Some(b) => {
                        &&& b < j
                        &&& qualifies(id_of(*after), self@.accounts[b as int].id)
                        &&& forall|i: int|
                            0 <= i < j && qualifies(
                                id_of(*after),
                                (#[trigger] self@.accounts[i]).id,
                            ) ==> !id_before(self@.accounts[i].id, self@.accounts[b as int].id)
                    },
                    None => forall|i: int|
                        0 <= i < j ==> !qualifies(id_of(*after), (#[trigger] self@.accounts[i]).id),
                },
            decreases self.accounts@.len() - j,
        {
            let candidate = &self.accounts[j].id;
            let after_start = match after {
                Some(a) => id_less(a, candidate),
                None => true,
            };
            if after_start {
                let better = match best {
                    Some(b) => id_less(candidate, &self.accounts[b].id),
                    None => true,
                };
                if better {
                    proof {
                        let new_id = self@.accounts[j as int].id;
                        lemma_id_before_irreflexive(new_id);
                        if let Some(b) = best {
                            let old_id = self@.accounts[b as int].id;
                            assert forall|i: int|
                                0 <= i < j && qualifies(
                                    id_of(*after),
                                    (#[trigger] self@.accounts[i]).id,
                                ) implies !id_before(self@.accounts[i].id, new_id) by {
                                if id_before(self@.accounts[i].id, new_id) {
                                    lemma_id_before_transitive(
                                        self@.accounts[i].id,
                                        new_id,
                                        old_id,
                                    );
                                }
                            }
                        }
                    }
                    best = Some(j);
                }
            }
            j = j + 1;
        }
        best
    }

    /// A page of the accounts in the order of their identifiers: from the
    /// first after `start_after` on, as many as `limit` asks for (ten where
    /// it asks for nothing, thirty at most), each with its stake, reward,
    /// withdrawals and claims at `now`. Fails as the computation of a
    /// reward does, with the error of the first account on the page whose
    /// reward fails.
    pub fn list_members(&self, start_after: Option<String>, limit: Option<u32>, now: u64) -> (r:
        Result<MemberListResponse, ContractError>)
        requires
            distinct_ids(self@.accounts),
        ensures
            match r {
                Ok(response) => is_page(
                    self@,
                    id_of(start_after),
                    page_size(limit),
                    now as int,
                    response.members@,
                ),
                Err(e) => exists|items: Seq<MemberListResponseItem>, id: Seq<char>| #[trigger]
                    page_fails(
                        self@,
                        id_of(start_after),
                        page_size(limit),
                        now as int,
                        e,
                        items,
                        id,
                    ),
            },
    {
        let size = page_limit(limit);
        let ghost first = id_of(start_after);
        let mut members: Vec<MemberListResponseItem> = Vec::new();
        let mut after: Option<String> = start_after;
        let mut done = false;
        while !done && members.len() < size
            invariant
                distinct_ids(self@.accounts),
                size == page_size(limit),
                first == id_of(start_after),
                members@.len() <= size,
                id_of(after) == cursor(first, members@, members@.len() as int),
                page_begins(self@, first, now as int, members@),
                done ==> exhausted(self@.accounts, id_of(after)),
            decreases size - members@.len() + if done { 0int } else { 1int },
        {
            match self.next_after(&after) {
                None => {
                    done = true;
                },
                Some(i) => {
                    let address = self.accounts[i].id.clone();
                    let info = match self.member(&address, now) {
                        Ok(Some(info)) => info,
                        Ok(None) => {
                            done = true;
                            continue;
                        },
                        Err(e) => {
                            proof {
                                assert(page_fails(
                                    self@,
                                    first,
                                    size as int,
                                    now as int,
                                    e,
                                    members@,
                                    address@,
                                ));
                            }
                            return Err(e);
                        },
                    };
                    let ghost before = members@;
                    after = Some(address.clone());
                    members.push(MemberListResponseItem { address, info });
                    proof {
                        assert forall|k: int| 0 <= k < members@.len() implies is_next(
                            self@.accounts,
                            cursor(first, members@, k),
                            (#[trigger] members@[k]).address@,
                        ) && listed(self@, now as int, members@[k]) by {
                            if k < before.len() {
                                assert(members@[k] == before[k]);
                                assert(cursor(first, members@, k) == cursor(first, before, k));
                            }
                        }
                    }
                },
            }
        }
        Ok(MemberListResponse { members })
    }
}

} // verus!
