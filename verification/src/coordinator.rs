//! The transfer coordinator: validation, atomic debit + credit + record, as
//! one unit. It is the only writer of money movement.
//!
//! A transfer happens under one transaction boundary: the coordinator's
//! exclusive borrow of the whole ledger. All three effects — the debit, the
//! credit and the log record — become visible together when the borrow ends,
//! or not at all: every failing path returns before the first mutation.
//! Because the coordinator reads each version token under the same exclusive
//! borrow in which it applies the delta, its tokens can never be invalidated
//! in between, so the retry path that a `ConcurrentModification` outcome
//! would demand is provably unreachable and that error is never surfaced by
//! the coordinator.

use vstd::prelude::*;

use crate::account::{Account, Transaction};
use crate::errors::LedgerError;
use crate::store::{
    account_at, has_account, lemma_total_bounds, lemma_total_update, spec_total, AccountStore,
};
use crate::txlog::{spec_commit_time, TransactionLog};

verus! {

/// The whole ledger: the account store and the transaction log, owned
/// together so that one exclusive borrow spans every transfer.
pub struct Ledger {
    pub store: AccountStore,
    pub log: TransactionLog,
}

/// What a transfer leaves behind: the accounts, the log, and the returned
/// record or error.
#[verifier::ext_equal]
pub struct TransferOutcome {
    pub accounts: Seq<Account>,
    pub log: Seq<Transaction>,
    pub result: Result<Transaction, LedgerError>,
}

/// The first check a transfer request fails, or `None` when it is granted.
///
/// The checks, in order: the amount must be strictly positive; the source
/// and destination must differ; both accounts must exist; the actor must own
/// the source account; the source balance must cover the amount; and the
/// store must be able to commit — neither version counter may be exhausted.
pub open spec fn spec_transfer_denied(
    accounts: Seq<Account>,
    actor_user_id: u64,
    from_account_id: u64,
    to_account_id: u64,
    amount: i64,
) -> Option<LedgerError> {
    if amount <= 0 {
        Some(LedgerError::InvalidAmount)
    } else if from_account_id == to_account_id {
        Some(LedgerError::SelfTransfer)
    } else if !has_account(accounts, from_account_id) {
        Some(LedgerError::AccountNotFound)
    } else if !has_account(accounts, to_account_id) {
        Some(LedgerError::AccountNotFound)
    } else if account_at(accounts, from_account_id).owner_user_id != actor_user_id {
        Some(LedgerError::Unauthorized)
    } else if account_at(accounts, from_account_id).balance < amount {
        Some(LedgerError::InsufficientFunds)
    } else if account_at(accounts, from_account_id).version == u64::MAX || account_at(
        accounts,
        to_account_id,
    ).version == u64::MAX {
        Some(LedgerError::PersistenceError)
    } else {
        None
    }
}

/// One transfer as a mathematical step: either the request is denied and
/// nothing changes, or the debit, the credit and the log record all happen.
pub open spec fn spec_transfer(
    accounts: Seq<Account>,
    log: Seq<Transaction>,
    actor_user_id: u64,
    from_account_id: u64,
    to_account_id: u64,
    amount: i64,
    now: i64,
) -> TransferOutcome {
    match spec_transfer_denied(accounts, actor_user_id, from_account_id, to_account_id, amount) {
        Some(e) => TransferOutcome { accounts, log, result: Err(e) },
        None => {
            let f = account_at(accounts, from_account_id);
            let t = account_at(accounts, to_account_id);
            let debited = Account {
                id: from_account_id,
                owner_user_id: f.owner_user_id,
                balance: (f.balance - amount) as i64,
                version: (f.version + 1) as u64,
            };
            let credited = Account {
                id: to_account_id,
                owner_user_id: t.owner_user_id,
                balance: (t.balance + amount) as i64,
                version: (t.version + 1) as u64,
            };
            let record = Transaction {
                id: log.len() as u64,
                from_account_id,
                to_account_id,
                amount,
                created_at: spec_commit_time(log, now),
            };
            TransferOutcome {
                accounts: accounts.update(from_account_id as int, debited).update(
                    to_account_id as int,
                    credited,
                ),
                log: log.push(record),
                result: Ok(record),
            }
        },
    }
}

impl Ledger {
    /// Both stores are well-formed.
    pub open spec fn wf(self) -> bool {
        &&& self.store.wf()
        &&& self.log.wf()
    }

    /// An empty ledger.
    pub fn new() -> (r: Ledger)
        ensures
            r.wf(),
            r.store.accounts@ == Seq::<Account>::empty(),
            r.log.entries@ == Seq::<Transaction>::empty(),
    {
        Ledger { store: AccountStore::new(), log: TransactionLog::new() }
    }

    /// Creates an account for `owner_user_id`; see [`AccountStore::create`].
    pub fn create_account(&mut self, owner_user_id: u64, initial_balance: i64) -> (r: Result<
        u64,
        LedgerError,
    >)
        requires
            old(self).wf(),
        ensures
            final(self).wf(),
            final(self).log == old(self).log,
            initial_balance < 0 ==> r == Err::<u64, _>(LedgerError::InvalidAmount) && *final(self)
                == *old(self),
            initial_balance >= 0 && spec_total(old(self).store.accounts@) + initial_balance
                > i64::MAX ==> r == Err::<u64, _>(LedgerError::PersistenceError) && *final(self)
                == *old(self),
            initial_balance >= 0 && spec_total(old(self).store.accounts@) + initial_balance
                <= i64::MAX ==> {
                &&& r == Ok::<_, LedgerError>(old(self).store.accounts@.len() as u64)
                &&& final(self).store.accounts@ == old(self).store.accounts@.push(
                    (Account {
                        id: old(self).store.accounts@.len() as u64,
                        owner_user_id,
                        balance: initial_balance,
                        version: 0,
                    }),
                )
            },
    {
        self.store.create(owner_user_id, initial_balance)
    }

    /// Transfers `amount` from `from_account_id` to `to_account_id` on behalf
    /// of `actor_user_id`, recording the commit with the wall-clock reading
    /// `now`.
    ///
    /// Reading the clock is I/O and stays with the caller at its edge; the
    /// log clamps a reading that went backwards, so the ledger itself cannot
    /// fail on any value of `now`. The outcome is exactly [`spec_transfer`]
    /// of the starting state: a denied request (see [`spec_transfer_denied`]
    /// for every error and when it is returned) changes nothing at all, and
    /// a granted one debits the source, credits the destination and appends
    /// one record, all visible together. The sum of the two balances — and
    /// the total over all accounts — is conserved.
    pub fn transfer(
        &mut self,
        actor_user_id: u64,
        from_account_id: u64,
        to_account_id: u64,
        amount: i64,
        now: i64,
    ) -> (r: Result<Transaction, LedgerError>)
        requires
            old(self).wf(),
        ensures
            final(self).wf(),
            ({
                let o = spec_transfer(
                    old(self).store.accounts@,
                    old(self).log.entries@,
                    actor_user_id,
                    from_account_id,
                    to_account_id,
                    amount,
                    now,
                );
                &&& final(self).store.accounts@ == o.accounts
                &&& final(self).log.entries@ == o.log
                &&& r == o.result
            }),
            r is Ok <==> spec_transfer_denied(
                old(self).store.accounts@,
                actor_user_id,
                from_account_id,
                to_account_id,
                amount,
            ) is None,
            spec_transfer_denied(
                old(self).store.accounts@,
                actor_user_id,
                from_account_id,
                to_account_id,
                amount,
            ) matches Some(e) ==> r == Err::<Transaction, _>(e),
            r is Err ==> *final(self) == *old(self),
            r matches Ok(t) ==> {
                let s0 = old(self).store.accounts@;
                let s1 = final(self).store.accounts@;
                &&& account_at(s1, from_account_id).balance == account_at(
                    s0,
                    from_account_id,
                ).balance - amount
                &&& account_at(s1, to_account_id).balance == account_at(s0, to_account_id).balance
                    + amount
                &&& account_at(s1, from_account_id).balance + account_at(s1, to_account_id).balance
                    == account_at(s0, from_account_id).balance + account_at(
                    s0,
                    to_account_id,
                ).balance
                &&& account_at(s1, from_account_id).version == account_at(
                    s0,
                    from_account_id,
                ).version + 1
                &&& account_at(s1, to_account_id).version == account_at(s0, to_account_id).version
                    + 1
                &&& spec_total(s1) == spec_total(s0)
                &&& s1.len() == s0.len()
                &&& forall|id: u64|
                    has_account(s0, id) && id != from_account_id && id != to_account_id
                        ==> account_at(s1, id) == account_at(s0, id)
                &&& final(self).log.entries@ == old(self).log.entries@.push(t)
                &&& t.from_account_id == from_account_id
                &&& t.to_account_id == to_account_id
                &&& t.amount == amount
                &&& t.id == old(self).log.entries@.len() as u64
                &&& t.created_at == spec_commit_time(old(self).log.entries@, now)
            },
    {
        if amount <= 0 {
            return Err(LedgerError::InvalidAmount);
        }
        if from_account_id == to_account_id {
            return Err(LedgerError::SelfTransfer);
        }
        let from_account = match self.store.get(from_account_id) {
            Some(a) => a,
            None => { return Err(LedgerError::AccountNotFound) },
        };
        let to_account = match self.store.get(to_account_id) {
            Some(a) => a,
            None => { return Err(LedgerError::AccountNotFound) },
        };
        if from_account.owner_user_id != actor_user_id {
            return Err(LedgerError::Unauthorized);
        }
        if from_account.balance < amount {
            return Err(LedgerError::InsufficientFunds);
        }
        if from_account.version == u64::MAX || to_account.version == u64::MAX {
            return Err(LedgerError::PersistenceError);
        }
        let ghost s0 = self.store.accounts@;
        proof {
            lemma_total_bounds(s0);
        }
        let debit_result = self.store.apply_delta(
            from_account_id,
            0i64 - amount,
            from_account.version,
        );
        let debited = match debit_result {
            Ok(a) => a,
            Err(e) => {
                proof {
                    assert(false);
                }
                return Err(e);
            },
        };
        let ghost s1 = self.store.accounts@;
        proof {
            lemma_total_update(s0, from_account_id as int, debited);
            lemma_total_bounds(s1);
            assert(account_at(s1, to_account_id) == to_account);
            assert(to_account.balance + amount <= spec_total(s0) <= i64::MAX);
        }
        let credit_result = self.store.apply_delta(to_account_id, amount, to_account.version);
        let credited = match credit_result {
            Ok(a) => a,
            Err(e) => {
                proof {
                    assert(false);
                }
                return Err(e);
            },
        };
        let record = self.log.append(from_account_id, to_account_id, amount, now);
        proof {
            lemma_total_update(s1, to_account_id as int, credited);
            assert(self.store.accounts@ =~= s0.update(from_account_id as int, debited).update(
                to_account_id as int,
                credited,
            ));
            assert forall|id: u64|
                has_account(s0, id) && id != from_account_id && id
                    != to_account_id implies account_at(self.store.accounts@, id) == account_at(
                s0,
                id,
            ) by {
                assert(self.store.accounts@[id as int] == s0[id as int]);
            }
        }
        Ok(record)
    }
}

} // verus!
