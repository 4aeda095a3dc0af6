//! The account store and the transaction log, exercised directly: creation,
//! atomic deltas with version tokens, and the log's order and queries.

use ledger::account::{Account, Transaction};
use ledger::errors::LedgerError;
use ledger::store::AccountStore;
use ledger::txlog::TransactionLog;

#[test]
fn create_assigns_consecutive_ids() {
    let mut s = AccountStore::new();
    assert_eq!(s.create(7, 0), Ok(0));
    assert_eq!(s.create(7, 250), Ok(1));
    assert_eq!(s.create(8, 0), Ok(2));
    let a = s.get(1).unwrap();
    assert_eq!(a.owner_user_id, 7);
    assert_eq!(a.balance, 250);
    assert_eq!(a.version, 0);
    assert!(s.get(3).is_none());
}

#[test]
fn create_rejects_negative_initial_balance() {
    let mut s = AccountStore::new();
    assert_eq!(s.create(7, -1), Err(LedgerError::InvalidAmount));
    assert!(s.get(0).is_none());
}

#[test]
fn create_rejects_unrepresentable_total() {
    let mut s = AccountStore::new();
    assert_eq!(s.create(1, i64::MAX), Ok(0));
    assert_eq!(s.create(2, 1), Err(LedgerError::PersistenceError));
    assert!(s.get(1).is_none());
    assert_eq!(s.total_balance(), i64::MAX);
}

#[test]
fn apply_delta_deposits_and_withdraws() {
    let mut s = AccountStore::new();
    assert_eq!(s.create(7, 100), Ok(0));
    let a = s.apply_delta(0, 50, 0).unwrap();
    assert_eq!(a.balance, 150);
    assert_eq!(a.version, 1);
    let a = s.apply_delta(0, -150, 1).unwrap();
    assert_eq!(a.balance, 0);
    assert_eq!(a.version, 2);
    assert_eq!(s.total_balance(), 0);
}

#[test]
fn apply_delta_detects_stale_version() {
    let mut s = AccountStore::new();
    assert_eq!(s.create(7, 100), Ok(0));
    s.apply_delta(0, 10, 0).unwrap();
    // A second writer still holding version 0 must not get through.
    assert_eq!(s.apply_delta(0, 10, 0), Err(LedgerError::ConcurrentModification));
    assert_eq!(s.get(0).unwrap().balance, 110);
}

#[test]
fn apply_delta_rejects_overdraft() {
    let mut s = AccountStore::new();
    assert_eq!(s.create(7, 100), Ok(0));
    assert_eq!(s.apply_delta(0, -101, 0), Err(LedgerError::InsufficientFunds));
    let a = s.get(0).unwrap();
    assert_eq!(a.balance, 100);
    assert_eq!(a.version, 0);
}

#[test]
fn apply_delta_rejects_missing_account() {
    let mut s = AccountStore::new();
    assert_eq!(s.apply_delta(0, 1, 0), Err(LedgerError::AccountNotFound));
}

#[test]
fn apply_delta_rejects_unrepresentable_total() {
    let mut s = AccountStore::new();
    assert_eq!(s.create(1, i64::MAX - 10), Ok(0));
    assert_eq!(s.create(2, 10), Ok(1));
    assert_eq!(s.apply_delta(1, 1, 0), Err(LedgerError::PersistenceError));
    assert_eq!(s.get(1).unwrap().balance, 10);
}

#[test]
fn apply_delta_rejects_exhausted_version_counter() {
    let s0 = AccountStore {
        accounts: vec![Account { id: 0, owner_user_id: 1, balance: 5, version: u64::MAX }],
        total: 5,
    };
    let mut s = s0;
    assert_eq!(s.apply_delta(0, 1, u64::MAX), Err(LedgerError::PersistenceError));
    assert_eq!(s.get(0).unwrap().balance, 5);
}

#[test]
fn list_by_owner_ascending_ids() {
    let mut s = AccountStore::new();
    assert_eq!(s.create(7, 1), Ok(0));
    assert_eq!(s.create(8, 2), Ok(1));
    assert_eq!(s.create(7, 3), Ok(2));
    let owned = s.list_by_owner(7);
    assert_eq!(owned.len(), 2);
    assert_eq!(owned[0].id, 0);
    assert_eq!(owned[1].id, 2);
    assert!(s.list_by_owner(9).is_empty());
}

#[test]
fn append_assigns_ids_and_clamps_time() {
    let mut log = TransactionLog::new();
    let t0 = log.append(0, 1, 10, 100);
    assert_eq!(t0.id, 0);
    assert_eq!(t0.created_at, 100);
    // A wall-clock reading that went backwards is clamped to the last commit
    // time, so the log order stays the commit order.
    let t1 = log.append(1, 0, 20, 90);
    assert_eq!(t1.id, 1);
    assert_eq!(t1.created_at, 100);
    let t2 = log.append(0, 1, 30, 105);
    assert_eq!(t2.created_at, 105);
    assert_eq!(log.get(1), Some(t1));
    assert_eq!(log.get(3), None);
}

#[test]
fn list_for_accounts_filters_and_orders_newest_first() {
    let mut log = TransactionLog::new();
    log.append(0, 1, 10, 100);
    log.append(2, 3, 20, 101);
    log.append(1, 2, 30, 102);
    let r = log.list_for_accounts(&vec![0, 1]);
    assert_eq!(r.len(), 2);
    assert_eq!(r[0].amount, 30);
    assert_eq!(r[1].amount, 10);
    assert!(r[0].created_at >= r[1].created_at);
    let none: Vec<Transaction> = log.list_for_accounts(&vec![9]);
    assert!(none.is_empty());
}
