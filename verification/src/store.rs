//! The account store: persistence and concurrency-safe mutation of account
//! balances.
//!
//! The store assigns ids consecutively, so the account with id `i` sits at
//! index `i` and accounts are held in ascending id order; accounts are never
//! deleted. Every balance mutation goes through [`AccountStore::apply_delta`],
//! which checks the caller's version token and writes the new balance in the
//! same step, so no two mutations of one account can both observe the
//! pre-mutation balance.

use vstd::prelude::*;

use crate::account::Account;
use crate::errors::LedgerError;

verus! {

/// The sum of all balances of a sequence of accounts.
pub open spec fn spec_total(s: Seq<Account>) -> int
    decreases s.len(),
{
    if s.len() == 0 {
        0
    } else {
        spec_total(s.drop_last()) + s.last().balance
    }
}

/// Ids are assigned consecutively: the account with id `i` sits at index `i`.
pub open spec fn ids_are_indices(s: Seq<Account>) -> bool {
    forall|i: int| 0 <= i < s.len() ==> (#[trigger] s[i]).id == i as u64
}

/// No account is overdrawn at rest.
pub open spec fn balances_nonneg(s: Seq<Account>) -> bool {
    forall|i: int| 0 <= i < s.len() ==> (#[trigger] s[i]).balance >= 0
}

/// Whether an account with this id exists.
pub open spec fn has_account(s: Seq<Account>, id: u64) -> bool {
    id < s.len()
}

/// The account with this id (meaningful only when it exists).
pub open spec fn account_at(s: Seq<Account>, id: u64) -> Account {
    s[id as int]
}

/// Appending an account adds its balance to the total.
pub proof fn lemma_total_push(s: Seq<Account>, a: Account)
    ensures
        spec_total(s.push(a)) == spec_total(s) + a.balance,
{
    assert(s.push(a).drop_last() =~= s);
}

/// Replacing one account changes the total by the balance difference.
pub proof fn lemma_total_update(s: Seq<Account>, i: int, a: Account)
    requires
        0 <= i < s.len(),
    ensures
        spec_total(s.update(i, a)) == spec_total(s) - s[i].balance + a.balance,
    decreases s.len(),
{
    if i == s.len() - 1 {
        assert(s.update(i, a).drop_last() =~= s.drop_last());
        assert(s.update(i, a).last() == a);
    } else {
        assert(s.update(i, a).drop_last() =~= s.drop_last().update(i, a));
        assert(s.update(i, a).last() == s.last());
        lemma_total_update(s.drop_last(), i, a);
    }
}

/// With no account overdrawn, the total is non-negative and bounds every
/// single balance.
pub proof fn lemma_total_bounds(s: Seq<Account>)
    requires
        balances_nonneg(s),
    ensures
        spec_total(s) >= 0,
        forall|i: int| 0 <= i < s.len() ==> (#[trigger] s[i]).balance <= spec_total(s),
    decreases s.len(),
{
    if s.len() > 0 {
        lemma_total_bounds(s.drop_last());
        assert forall|i: int| 0 <= i < s.len() implies (#[trigger] s[i]).balance <= spec_total(s) by {
            if i < s.len() - 1 {
                assert(s.drop_last()[i] == s[i]);
            }
        }
    }
}

/// The predicate picking the accounts owned by `owner_user_id`.
pub open spec fn owned_by(owner_user_id: u64) -> spec_fn(Account) -> bool {
    |a: Account| a.owner_user_id == owner_user_id
}

/// A push on the underlying sequence extends a filter by at most the pushed
/// element.
pub proof fn lemma_filter_push<A>(s: Seq<A>, pred: spec_fn(A) -> bool, e: A)
    ensures
        s.push(e).filter(pred) == if pred(e) {
            s.filter(pred).push(e)
        } else {
            s.filter(pred)
        },
{
    reveal(Seq::filter);
    assert(s.push(e).drop_last() =~= s);
}

/// Persistence of account balances, with a cached total so that the
/// conservation cap can be checked in one step.
pub struct AccountStore {
    pub accounts: Vec<Account>,
    pub total: i64,
}

impl AccountStore {
    /// Well-formedness: consecutive ids, no negative balance, and the cached
    /// total equals the sum of all balances (so that sum always fits `i64`).
    pub open spec fn wf(self) -> bool {
        &&& ids_are_indices(self.accounts@)
        &&& balances_nonneg(self.accounts@)
        &&& spec_total(self.accounts@) == self.total as int
    }

    /// An empty store.
    pub fn new() -> (r: AccountStore)
        ensures
            r.wf(),
            r.accounts@ == Seq::<Account>::empty(),
    {
        AccountStore { accounts: Vec::new(), total: 0 }
    }

    /// The sum of all balances in the store.
    pub fn total_balance(&self) -> (r: i64)
        requires
            self.wf(),
        ensures
            r as int == spec_total(self.accounts@),
    {
        self.total
    }

    /// Creates an account for `owner_user_id`, holding `initial_balance`.
    ///
    /// A negative initial balance is rejected with `InvalidAmount`; an
    /// initial balance that the store cannot hold — it would push the sum of
    /// all balances past the representable range — is rejected with
    /// `PersistenceError`. Otherwise the account is appended with the next
    /// consecutive id, at version 0, and its id is returned.
    pub fn create(&mut self, owner_user_id: u64, initial_balance: i64) -> (r: Result<
        u64,
        LedgerError,
    >)
        requires
            old(self).wf(),
        ensures
            final(self).wf(),
            initial_balance < 0 ==> r == Err::<u64, _>(LedgerError::InvalidAmount) && *final(self)
                == *old(self),
            initial_balance >= 0 && spec_total(old(self).accounts@) + initial_balance
                > i64::MAX ==> r == Err::<u64, _>(LedgerError::PersistenceError) && *final(self)
                == *old(self),
            initial_balance >= 0 && spec_total(old(self).accounts@) + initial_balance
                <= i64::MAX ==> {
                &&& r == Ok::<_, LedgerError>(old(self).accounts@.len() as u64)
                &&& final(self).accounts@ == old(self).accounts@.push(
                    (Account {
                        id: old(self).accounts@.len() as u64,
                        owner_user_id,
                        balance: initial_balance,
                        version: 0,
                    }),
                )
            },
    {
        if initial_balance < 0 {
            return Err(LedgerError::InvalidAmount);
        }
        let new_total_wide: i128 = self.total as i128 + initial_balance as i128;
        if new_total_wide > i64::MAX as i128 {
            return Err(LedgerError::PersistenceError);
        }
        let id: u64 = self.accounts.len() as u64;
        let account = Account { id, owner_user_id, balance: initial_balance, version: 0 };
        proof {
            lemma_total_push(self.accounts@, account);
        }
        self.accounts.push(account);
        self.total = new_total_wide as i64;
        Ok(id)
    }

    /// Looks an account up by id.
    pub fn get(&self, id: u64) -> (r: Option<Account>)
        ensures
            r == if has_account(self.accounts@, id) {
                Some(account_at(self.accounts@, id))
            } else {
                None::<Account>
            },
    {
        if id < self.accounts.len() as u64 {
            Some(self.accounts[id as usize])
        } else {
            None
        }
    }

    /// All accounts owned by `owner_user_id`, in ascending id order; empty if
    /// the owner has none.
    pub fn list_by_owner(&self, owner_user_id: u64) -> (r: Vec<Account>)
        requires
            self.wf(),
        ensures
            r@ == self.accounts@.filter(owned_by(owner_user_id)),
            forall|i: int, j: int| 0 <= i < j < r@.len() ==> r@[i].id < r@[j].id,
            forall|i: int|
                0 <= i < r@.len() ==> has_account(self.accounts@, (#[trigger] r@[i]).id)
                    && account_at(self.accounts@, r@[i].id) == r@[i],
            forall|i: int| 0 <= i < r@.len() ==> (#[trigger] r@[i]).owner_user_id == owner_user_id,
    {
        let mut r: Vec<Account> = Vec::new();
        let mut i: usize = 0;
        while i < self.accounts.len()
            invariant
                i <= self.accounts@.len(),
                ids_are_indices(self.accounts@),
                r@ == self.accounts@.take(i as int).filter(owned_by(owner_user_id)),
                forall|k: int| 0 <= k < r@.len() ==> (#[trigger] r@[k]).id < i as u64,
                forall|a: int, b: int| 0 <= a < b < r@.len() ==> r@[a].id < r@[b].id,
                forall|k: int|
                    0 <= k < r@.len() ==> has_account(self.accounts@, (#[trigger] r@[k]).id)
                        && account_at(self.accounts@, r@[k].id) == r@[k],
                forall|k: int|
                    0 <= k < r@.len() ==> (#[trigger] r@[k]).owner_user_id == owner_user_id,
            decreases self.accounts@.len() - i,
        {
            let a = self.accounts[i];
            proof {
                assert(self.accounts@.take(i + 1).drop_last() =~= self.accounts@.take(i as int));
                assert(self.accounts@.take(i + 1) =~= self.accounts@.take(i as int).push(a));
                lemma_filter_push(self.accounts@.take(i as int), owned_by(owner_user_id), a);
            }
            if a.owner_user_id == owner_user_id {
                r.push(a);
            }
            i = i + 1;
        }
        proof {
            assert(self.accounts@.take(i as int) =~= self.accounts@);
        }
        r
    }

    /// Atomically applies `delta` to the balance of account `id`, against the
    /// version its caller last observed.
    ///
    /// The version comparison, the overdraft check and the write happen in
    /// one exclusive step: no window exists between the check and the write
    /// where another mutation could interleave undetected. Failures, in the
    /// order checked: `AccountNotFound`; `ConcurrentModification` when the
    /// current version differs from `expected_version`; `InsufficientFunds`
    /// when the new balance would be negative; `PersistenceError` when the
    /// store cannot commit — the version counter or the representable total
    /// is exhausted. On failure nothing changes. On success the new balance
    /// is persisted and the version grows by one in the same step, and the
    /// updated account is returned.
    pub fn apply_delta(&mut self, id: u64, delta: i64, expected_version: u64) -> (r: Result<
        Account,
        LedgerError,
    >)
        requires
            old(self).wf(),
        ensures
            final(self).wf(),
            !has_account(old(self).accounts@, id) ==> r == Err::<Account, _>(
                LedgerError::AccountNotFound,
            ) && *final(self) == *old(self),
            has_account(old(self).accounts@, id) && account_at(old(self).accounts@, id).version
                != expected_version ==> r == Err::<Account, _>(LedgerError::ConcurrentModification)
                && *final(self) == *old(self),
            ({
                let a = account_at(old(self).accounts@, id);
                has_account(old(self).accounts@, id) && a.version == expected_version && a.balance
                    + delta < 0 ==> r == Err::<Account, _>(LedgerError::InsufficientFunds)
                    && *final(self) == *old(self)
            }),
            ({
                let a = account_at(old(self).accounts@, id);
                has_account(old(self).accounts@, id) && a.version == expected_version && a.balance
                    + delta >= 0 && (a.version == u64::MAX || spec_total(old(self).accounts@)
                    + delta > i64::MAX) ==> r == Err::<Account, _>(LedgerError::PersistenceError)
                    && *final(self) == *old(self)
            }),
            ({
                let a = account_at(old(self).accounts@, id);
                let updated = (Account {
                    id,
                    owner_user_id: a.owner_user_id,
                    balance: (a.balance + delta) as i64,
                    version: (a.version + 1) as u64,
                });
                has_account(old(self).accounts@, id) && a.version == expected_version && a.balance
                    + delta >= 0 && a.version < u64::MAX && spec_total(old(self).accounts@) + delta
                    <= i64::MAX ==> {
                    &&& r == Ok::<_, LedgerError>(updated)
                    &&& final(self).accounts@ == old(self).accounts@.update(id as int, updated)
                }
            }),
    {
        if id >= self.accounts.len() as u64 {
            return Err(LedgerError::AccountNotFound);
        }
        let idx = id as usize;
        let account = self.accounts[idx];
        if account.version != expected_version {
            return Err(LedgerError::ConcurrentModification);
        }
        let new_balance_wide: i128 = account.balance as i128 + delta as i128;
        if new_balance_wide < 0 {
            return Err(LedgerError::InsufficientFunds);
        }
        let new_total_wide: i128 = self.total as i128 + delta as i128;
        if account.version == u64::MAX || new_total_wide > i64::MAX as i128 {
            return Err(LedgerError::PersistenceError);
        }
        proof {
            lemma_total_bounds(self.accounts@);
        }
        let updated = Account {
            id,
            owner_user_id: account.owner_user_id,
            balance: new_balance_wide as i64,
            version: account.version + 1,
        };
        proof {
            lemma_total_update(self.accounts@, id as int, updated);
        }
        self.accounts[idx] = updated;
        self.total = new_total_wide as i64;
        Ok(updated)
    }
}

} // verus!
