//! The currency collaborator, modelled as explicit state.
//!
//! The core receives an already-authenticated caller and needs only four
//! things from the currency system: free balances, transfers, reserving and
//! burning.  They are modelled here as exact operations on an account map,
//! with one global invariant: the sum of all holdings equals the recorded
//! total issuance.  That conservation law is what makes every balance
//! update of the engines provably free of overflow.
//!
//! No existential-deposit rule is modelled: a transfer succeeds exactly
//! when the sender's free balance covers the amount, whatever the policy.

use vstd::prelude::*;
use crate::ids::AccountId;
use crate::ids::Balance;
use crate::store::KeyedMap;
use crate::store::StoreKey;

verus! {

/// One account's holdings.
#[derive(Clone, Copy, PartialEq, Eq, Structural, Debug)]
pub struct AccountData {
    /// Spendable balance.
    pub free: Balance,
    /// Balance locked by a reservation (a proposal deposit).
    pub reserved: Balance,
}

/// What a failed transfer may leave of the sender's account.  Carried for
/// interface fidelity; it does not change when a transfer succeeds here,
/// because no existential deposit is modelled.
#[derive(Clone, Copy, PartialEq, Eq, Structural, Debug)]
pub enum ExistencePolicy {
    /// The sender must survive the transfer.
    KeepAlive,
    /// The sender may be emptied.
    AllowDeath,
}

/// The one way a currency operation fails.
#[derive(Clone, Copy, PartialEq, Eq, Structural, Debug)]
pub enum CurrencyError {
    /// The account's free balance does not cover the amount.
    InsufficientFunds,
}

/// The holdings of an account and the total of everything: `free + reserved`.
pub open spec fn acct_sum(d: AccountData) -> int {
    d.free + d.reserved
}

/// The sum of all holdings over a sequence of account entries.
pub open spec fn sum_entries(s: Seq<(AccountId, AccountData)>) -> int
    decreases s.len(),
{
    if s.len() == 0 {
        0
    } else {
        sum_entries(s.drop_last()) + acct_sum(s.last().1)
    }
}

proof fn lemma_sum_nonneg(s: Seq<(AccountId, AccountData)>)
    ensures
        sum_entries(s) >= 0,
    decreases s.len(),
{
    if s.len() > 0 {
        lemma_sum_nonneg(s.drop_last());
    }
}

proof fn lemma_sum_entry(s: Seq<(AccountId, AccountData)>, i: int)
    requires
        0 <= i < s.len(),
    ensures
        acct_sum(s[i].1) <= sum_entries(s),
    decreases s.len(),
{
    if i == s.len() - 1 {
        lemma_sum_nonneg(s.drop_last());
    } else {
        lemma_sum_entry(s.drop_last(), i);
        assert(s.drop_last()[i] == s[i]);
    }
}

proof fn lemma_sum_update(s: Seq<(AccountId, AccountData)>, i: int, p: (AccountId, AccountData))
    requires
        0 <= i < s.len(),
    ensures
        sum_entries(s.update(i, p)) == sum_entries(s) - acct_sum(s[i].1) + acct_sum(p.1),
    decreases s.len(),
{
    let t = s.update(i, p);
    if i == s.len() - 1 {
        assert(t.drop_last() =~= s.drop_last());
    } else {
        assert(t.drop_last() =~= s.drop_last().update(i, p));
        lemma_sum_update(s.drop_last(), i, p);
    }
}

proof fn lemma_sum_push(s: Seq<(AccountId, AccountData)>, p: (AccountId, AccountData))
    ensures
        sum_entries(s.push(p)) == sum_entries(s) + acct_sum(p.1),
{
    assert(s.push(p).drop_last() =~= s);
}

/// The account ledger: every user account and every club treasury holding
/// account, with the total issuance they must sum to.
pub struct Balances {
    accounts: KeyedMap<AccountId, AccountData>,
    total_issuance: Balance,
}

impl Balances {
    /// The holdings of `who`; an absent account holds nothing.
    pub open spec fn account(self, who: AccountId) -> AccountData {
        if self.accounts_map().contains_key(who) {
            self.accounts_map()[who]
        } else {
            AccountData { free: 0, reserved: 0 }
        }
    }

    /// The spendable balance of `who`.
    pub open spec fn free_of(self, who: AccountId) -> int {
        self.account(who).free as int
    }

    /// The reserved balance of `who`.
    pub open spec fn reserved_of(self, who: AccountId) -> int {
        self.account(who).reserved as int
    }

    /// The recorded total issuance.
    pub closed spec fn issuance(self) -> int {
        self.total_issuance as int
    }

    /// The underlying account map.
    pub closed spec fn accounts_map(self) -> Map<AccountId, AccountData> {
        self.accounts@
    }

    /// Conservation: the account map is a map, and all holdings sum to the
    /// total issuance.
    pub closed spec fn wf(self) -> bool {
        &&& self.accounts.wf()
        &&& sum_entries(self.accounts.kvs()) == self.total_issuance
    }

    /// Every single account holds at most the total issuance.
    pub proof fn lemma_account_bounded(self, who: AccountId)
        requires
            self.wf(),
        ensures
            acct_sum(self.account(who)) <= self.issuance(),
    {
        if self.accounts_map().contains_key(who) {
            let i = self.accounts.index_of(who);
            lemma_sum_entry(self.accounts.kvs(), i);
        } else {
            lemma_sum_nonneg(self.accounts.kvs());
        }
    }

    /// An empty ledger: no accounts, no issuance.
    pub fn new() -> (r: Balances)
        ensures
            r.wf(),
            r.issuance() == 0,
            forall|a: AccountId| r.account(a) == (AccountData { free: 0, reserved: 0 }),
    {
        Balances { accounts: KeyedMap::new(), total_issuance: 0 }
    }

    /// Mint `amount` into the free balance of `who`; genesis endowment.
    pub fn endow(&mut self, who: AccountId, amount: Balance)
        requires
            old(self).wf(),
            old(self).issuance() + amount <= Balance::MAX,
        ensures
            final(self).wf(),
            final(self).issuance() == old(self).issuance() + amount,
            final(self).account(who) == (AccountData {
                free: (old(self).account(who).free + amount) as Balance,
                reserved: old(self).account(who).reserved,
            }),
            forall|a: AccountId| a != who ==> final(self).account(a) == old(self).account(a),
    {
        proof {
            self.lemma_account_bounded(who);
        }
        let data = self.get_data(who);
        let updated = AccountData { free: data.free + amount, reserved: data.reserved };
        proof {
            self.lemma_insert_sum(who, updated);
        }
        self.accounts.insert(who, updated);
        self.total_issuance = self.total_issuance + amount;
    }

    /// The free balance of `who`, as the voting and transfer rules see it.
    pub fn free_balance(&self, who: AccountId) -> (r: Balance)
        requires
            self.wf(),
        ensures
            r == self.free_of(who),
    {
        self.get_data(who).free
    }

    /// The reserved balance of `who`.
    pub fn reserved_balance(&self, who: AccountId) -> (r: Balance)
        requires
            self.wf(),
        ensures
            r == self.reserved_of(who),
    {
        self.get_data(who).reserved
    }

    /// The stored account record of `who`, or an empty one.
    fn get_data(&self, who: AccountId) -> (r: AccountData)
        requires
            self.wf(),
        ensures
            r == self.account(who),
    {
        match self.accounts.get(who) {
            Some(d) => *d,
            None => AccountData { free: 0, reserved: 0 },
        }
    }

    /// How inserting `data` for `who` moves the conserved sum.
    proof fn lemma_insert_sum(self, who: AccountId, data: AccountData)
        requires
            self.wf(),
        ensures
            ({
                let s = self.accounts.kvs();
                let updated = if self.accounts.has(who) {
                    s.update(self.accounts.index_of(who), (who, data))
                } else {
                    s.push((who, data))
                };
                sum_entries(updated) == self.issuance() - acct_sum(self.account(who)) + acct_sum(
                    data,
                )
            }),
    {
        let s = self.accounts.kvs();
        if self.accounts.has(who) {
            let i = self.accounts.index_of(who);
            lemma_sum_update(s, i, (who, data));
        } else {
            lemma_sum_push(s, (who, data));
        }
    }

    /// Move `amount` of free balance from `from` to `to`.
    ///
    /// Succeeds exactly when `from`'s free balance covers `amount`; on
    /// failure nothing changes.  The policy does not affect the outcome.
    pub fn transfer(
        &mut self,
        from: AccountId,
        to: AccountId,
        amount: Balance,
        policy: ExistencePolicy,
    ) -> (r: Result<(), CurrencyError>)
        requires
            old(self).wf(),
        ensures
            final(self).wf(),
            final(self).issuance() == old(self).issuance(),
            r is Ok <==> old(self).free_of(from) >= amount,
            r is Err ==> *final(self) == *old(self) && r == Err::<(), CurrencyError>(
                CurrencyError::InsufficientFunds,
            ),
            r is Ok && from == to ==> *final(self) == *old(self),
            r is Ok && from != to ==> {
                &&& final(self).free_of(from) == old(self).free_of(from) - amount
                &&& final(self).free_of(to) == old(self).free_of(to) + amount
                &&& final(self).reserved_of(from) == old(self).reserved_of(from)
                &&& final(self).reserved_of(to) == old(self).reserved_of(to)
                &&& forall|a: AccountId|
                    a != from && a != to ==> final(self).account(a) == old(self).account(a)
            },
    {
        let _ = policy;
        let from_data = self.get_data(from);
        if from_data.free < amount {
            return Err(CurrencyError::InsufficientFunds);
        }
        if from.same(&to) {
            return Ok(());
        }
        let debited = AccountData { free: from_data.free - amount, reserved: from_data.reserved };
        proof {
            self.lemma_insert_sum(from, debited);
        }
        self.accounts.insert(from, debited);
        proof {
            self.lemma_account_bounded_mid(to, amount);
        }
        let to_data = self.get_data_mid(to);
        let credited = AccountData { free: to_data.free + amount, reserved: to_data.reserved };
        proof {
            self.lemma_insert_sum_mid(to, credited, amount);
        }
        self.accounts.insert(to, credited);
        Ok(())
    }

    /// Like `get_data`, usable between the two halves of a transfer, where
    /// only the map invariant is known.
    fn get_data_mid(&self, who: AccountId) -> (r: AccountData)
        requires
            self.accounts_map_wf(),
        ensures
            r == self.account(who),
    {
        match self.accounts.get(who) {
            Some(d) => *d,
            None => AccountData { free: 0, reserved: 0 },
        }
    }

    /// The map invariant alone, without conservation.
    pub closed spec fn accounts_map_wf(self) -> bool {
        self.accounts.wf()
    }

    /// Between the halves of a transfer the sum is `issuance - amount`, so
    /// any single account is bounded by it.
    proof fn lemma_account_bounded_mid(self, who: AccountId, amount: Balance)
        requires
            self.accounts.wf(),
            sum_entries(self.accounts.kvs()) == self.issuance() - amount,
        ensures
            acct_sum(self.account(who)) <= self.issuance() - amount,
    {
        if self.accounts_map().contains_key(who) {
            let i = self.accounts.index_of(who);
            lemma_sum_entry(self.accounts.kvs(), i);
        } else {
            lemma_sum_nonneg(self.accounts.kvs());
        }
    }

    /// `lemma_insert_sum` against a shifted sum.
    proof fn lemma_insert_sum_mid(self, who: AccountId, data: AccountData, amount: Balance)
        requires
            self.accounts.wf(),
            sum_entries(self.accounts.kvs()) == self.issuance() - amount,
        ensures
            ({
                let s = self.accounts.kvs();
                let updated = if self.accounts.has(who) {
                    s.update(self.accounts.index_of(who), (who, data))
                } else {
                    s.push((who, data))
                };
                sum_entries(updated) == self.issuance() - amount - acct_sum(self.account(who))
                    + acct_sum(data)
            }),
    {
        let s = self.accounts.kvs();
        if self.accounts.has(who) {
            let i = self.accounts.index_of(who);
            lemma_sum_update(s, i, (who, data));
        } else {
            lemma_sum_push(s, (who, data));
        }
    }

    /// Lock `amount` of `who`'s free balance behind a reservation.
    ///
    /// Succeeds exactly when the free balance covers `amount`.
    pub fn reserve(&mut self, who: AccountId, amount: Balance) -> (r: Result<(), CurrencyError>)
        requires
            old(self).wf(),
        ensures
            final(self).wf(),
            final(self).issuance() == old(self).issuance(),
            r is Ok <==> old(self).free_of(who) >= amount,
            r is Err ==> *final(self) == *old(self) && r == Err::<(), CurrencyError>(
                CurrencyError::InsufficientFunds,
            ),
            r is Ok ==> {
                &&& final(self).free_of(who) == old(self).free_of(who) - amount
                &&& final(self).reserved_of(who) == old(self).reserved_of(who) + amount
                &&& forall|a: AccountId| a != who ==> final(self).account(a) == old(self).account(a)
            },
    {
        let data = self.get_data(who);
        if data.free < amount {
            return Err(CurrencyError::InsufficientFunds);
        }
        proof {
            self.lemma_account_bounded(who);
        }
        let updated = AccountData {
            free: data.free - amount,
            reserved: data.reserved + amount,
        };
        proof {
            self.lemma_insert_sum(who, updated);
        }
        self.accounts.insert(who, updated);
        Ok(())
    }

    /// Release up to `amount` of `who`'s reserved balance back to free;
    /// releases whatever is actually reserved if that is less.
    pub fn unreserve(&mut self, who: AccountId, amount: Balance)
        requires
            old(self).wf(),
        ensures
            final(self).wf(),
            final(self).issuance() == old(self).issuance(),
            ({
                let moved = if amount <= old(self).reserved_of(who) {
                    amount as int
                } else {
                    old(self).reserved_of(who)
                };
                &&& final(self).free_of(who) == old(self).free_of(who) + moved
                &&& final(self).reserved_of(who) == old(self).reserved_of(who) - moved
            }),
            forall|a: AccountId| a != who ==> final(self).account(a) == old(self).account(a),
    {
        let data = self.get_data(who);
        let moved = if amount <= data.reserved {
            amount
        } else {
            data.reserved
        };
        proof {
            self.lemma_account_bounded(who);
        }
        let updated = AccountData {
            free: data.free + moved,
            reserved: data.reserved - moved,
        };
        proof {
            self.lemma_insert_sum(who, updated);
        }
        self.accounts.insert(who, updated);
    }

    /// Burn `amount` of `who`'s free balance, shrinking the issuance; how
    /// funds leave for another chain.
    ///
    /// Succeeds exactly when the free balance covers `amount`.
    pub fn withdraw(&mut self, who: AccountId, amount: Balance) -> (r: Result<(), CurrencyError>)
        requires
            old(self).wf(),
        ensures
            final(self).wf(),
            r is Ok <==> old(self).free_of(who) >= amount,
            r is Err ==> *final(self) == *old(self) && r == Err::<(), CurrencyError>(
                CurrencyError::InsufficientFunds,
            ),
            r is Ok ==> {
                &&& final(self).issuance() == old(self).issuance() - amount
                &&& final(self).free_of(who) == old(self).free_of(who) - amount
                &&& final(self).reserved_of(who) == old(self).reserved_of(who)
                &&& forall|a: AccountId| a != who ==> final(self).account(a) == old(self).account(a)
            },
    {
        let data = self.get_data(who);
        if data.free < amount {
            return Err(CurrencyError::InsufficientFunds);
        }
        proof {
            self.lemma_account_bounded(who);
            lemma_sum_nonneg(self.accounts.kvs());
        }
        let updated = AccountData { free: data.free - amount, reserved: data.reserved };
        proof {
            self.lemma_insert_sum(who, updated);
        }
        self.accounts.insert(who, updated);
        self.total_issuance = self.total_issuance - amount;
        Ok(())
    }
}

} // verus!

verus! {

impl Balances {
    /// The recorded total issuance.
    pub fn issuance_get(&self) -> (r: Balance)
        ensures
            r == self.issuance(),
    {
        self.total_issuance
    }
}

} // verus!
