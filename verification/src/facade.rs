//! The read-only query surface of the ledger: account lookup, account
//! listing, balance queries and transaction history.
//!
//! Every query takes the acting user and answers only what that user may
//! see: an account is visible to its owner, and a transaction to the owner
//! of either account it touches.

use vstd::prelude::*;

use crate::account::{Account, Transaction};
use crate::coordinator::Ledger;
use crate::errors::LedgerError;
use crate::store::{account_at, has_account, ids_are_indices, owned_by};
use crate::txlog::matches_desc;

verus! {

/// The ids of a sequence of accounts, in the same order.
pub open spec fn ids_of(s: Seq<Account>) -> Seq<u64> {
    s.map_values(|a: Account| a.id)
}

/// Whether the actor owns one of the two accounts a transaction touches.
pub open spec fn actor_is_party(
    accounts: Seq<Account>,
    t: Transaction,
    actor_user_id: u64,
) -> bool {
    ||| has_account(accounts, t.from_account_id) && account_at(
        accounts,
        t.from_account_id,
    ).owner_user_id == actor_user_id
    ||| has_account(accounts, t.to_account_id) && account_at(
        accounts,
        t.to_account_id,
    ).owner_user_id == actor_user_id
}

/// The ids of the accounts an owner holds are exactly the existing ids whose
/// account that owner owns.
pub proof fn lemma_owned_ids_membership(accounts: Seq<Account>, owner_user_id: u64, x: u64)
    requires
        ids_are_indices(accounts),
        accounts.len() <= u64::MAX,
    ensures
        ids_of(accounts.filter(owned_by(owner_user_id))).contains(x) <==> has_account(accounts, x)
            && account_at(accounts, x).owner_user_id == owner_user_id,
{
    let pred = owned_by(owner_user_id);
    let f = accounts.filter(pred);
    if has_account(accounts, x) && account_at(accounts, x).owner_user_id == owner_user_id {
        let a = accounts[x as int];
        accounts.lemma_filter_contains(pred, x as int);
        let j = choose|j: int| 0 <= j < f.len() && f[j] == a;
        assert(ids_of(f)[j] == x);
        assert(ids_of(f).contains(x));
    }
    if ids_of(f).contains(x) {
        let k = choose|k: int| 0 <= k < ids_of(f).len() && ids_of(f)[k] == x;
        let a = f[k];
        assert(f.contains(a));
        accounts.lemma_filter_contains_rev(pred, a);
        accounts.lemma_filter_pred(pred, k);
        assert(a.id == x);
        assert(accounts.contains(a));
        let j = choose|j: int| 0 <= j < accounts.len() && accounts[j] == a;
        assert(accounts[j].id == j as u64);
        assert(j == x as int);
        assert(has_account(accounts, x) && account_at(accounts, x) == a);
    }
}

impl Ledger {
    /// The account `account_id`, visible only to its owner.
    pub fn get_account(&self, actor_user_id: u64, account_id: u64) -> (r: Result<
        Account,
        LedgerError,
    >)
        requires
            self.wf(),
        ensures
            r == if !has_account(self.store.accounts@, account_id) {
                Err::<Account, _>(LedgerError::AccountNotFound)
            } else if account_at(self.store.accounts@, account_id).owner_user_id
                != actor_user_id {
                Err::<Account, _>(LedgerError::Unauthorized)
            } else {
                Ok::<_, LedgerError>(account_at(self.store.accounts@, account_id))
            },
    {
        match self.store.get(account_id) {
            None => Err(LedgerError::AccountNotFound),
            Some(account) => {
                if account.owner_user_id != actor_user_id {
                    Err(LedgerError::Unauthorized)
                } else {
                    Ok(account)
                }
            },
        }
    }

    /// The balance of `account_id`, visible only to its owner.
    pub fn get_account_balance(&self, actor_user_id: u64, account_id: u64) -> (r: Result<
        i64,
        LedgerError,
    >)
        requires
            self.wf(),
        ensures
            r == if !has_account(self.store.accounts@, account_id) {
                Err::<i64, _>(LedgerError::AccountNotFound)
            } else if account_at(self.store.accounts@, account_id).owner_user_id
                != actor_user_id {
                Err::<i64, _>(LedgerError::Unauthorized)
            } else {
                Ok::<_, LedgerError>(account_at(self.store.accounts@, account_id).balance)
            },
    {
        match self.get_account(actor_user_id, account_id) {
            Err(e) => Err(e),
            Ok(account) => Ok(account.balance),
        }
    }

    /// All accounts the actor owns, in ascending id order.
    pub fn list_accounts_for_user(&self, actor_user_id: u64) -> (r: Vec<Account>)
        requires
            self.wf(),
        ensures
            r@ == self.store.accounts@.filter(owned_by(actor_user_id)),
            forall|i: int, j: int| 0 <= i < j < r@.len() ==> r@[i].id < r@[j].id,
    {
        self.store.list_by_owner(actor_user_id)
    }

    /// The transaction `transaction_id`, visible only to a party of it: the
    /// owner of the source or of the destination account.
    pub fn get_transaction(&self, actor_user_id: u64, transaction_id: u64) -> (r: Result<
        Transaction,
        LedgerError,
    >)
        requires
            self.wf(),
        ensures
            transaction_id >= self.log.entries@.len() ==> r == Err::<Transaction, _>(
                LedgerError::TransactionNotFound,
            ),
            transaction_id < self.log.entries@.len() ==> {
                let t = self.log.entries@[transaction_id as int];
                r == if actor_is_party(self.store.accounts@, t, actor_user_id) {
                    Ok::<_, LedgerError>(t)
                } else {
                    Err::<Transaction, _>(LedgerError::Unauthorized)
                }
            },
    {
        let t = match self.log.get(transaction_id) {
            None => { return Err(LedgerError::TransactionNotFound) },
            Some(t) => t,
        };
        let from_owned = match self.store.get(t.from_account_id) {
            Some(a) => a.owner_user_id == actor_user_id,
            None => false,
        };
        let to_owned = match self.store.get(t.to_account_id) {
            Some(a) => a.owner_user_id == actor_user_id,
            None => false,
        };
        if from_owned || to_owned {
            Ok(t)
        } else {
            Err(LedgerError::Unauthorized)
        }
    }

    /// Every transaction that touches one of the actor's accounts, ordered by
    /// creation time, newest first; empty if the actor has no accounts.
    pub fn list_transactions_for_user(&self, actor_user_id: u64) -> (r: Vec<Transaction>)
        requires
            self.wf(),
        ensures
            r@ == matches_desc(
                self.log.entries@,
                ids_of(self.store.accounts@.filter(owned_by(actor_user_id))),
            ),
            forall|a: int, b: int|
                0 <= a <= b < r@.len() ==> (#[trigger] r@[a]).created_at >= (
                #[trigger] r@[b]).created_at,
            forall|t: Transaction|
                #[trigger] r@.contains(t) <==> self.log.entries@.contains(t) && actor_is_party(
                    self.store.accounts@,
                    t,
                    actor_user_id,
                ),
    {
        let owned = self.store.list_by_owner(actor_user_id);
        let mut account_ids: Vec<u64> = Vec::new();
        let mut k: usize = 0;
        while k < owned.len()
            invariant
                k <= owned@.len(),
                account_ids@ == ids_of(owned@.take(k as int)),
            decreases owned@.len() - k,
        {
            proof {
                assert(ids_of(owned@.take(k + 1)) =~= ids_of(owned@.take(k as int)).push(
                    owned@[k as int].id,
                ));
            }
            account_ids.push(owned[k].id);
            k = k + 1;
        }
        proof {
            assert(owned@.take(k as int) =~= owned@);
        }
        let n_accounts = self.store.accounts.len();
        let r = self.log.list_for_accounts(&account_ids);
        proof {
            assert(self.store.accounts@.len() == n_accounts as int);
            assert forall|t: Transaction| #[trigger]
                r@.contains(t) <==> self.log.entries@.contains(t) && actor_is_party(
                self.store.accounts@,
                t,
                actor_user_id,
            ) by {
                lemma_owned_ids_membership(self.store.accounts@, actor_user_id, t.from_account_id);
                lemma_owned_ids_membership(self.store.accounts@, actor_user_id, t.to_account_id);
            }
        }
        r
    }
}

} // verus!
