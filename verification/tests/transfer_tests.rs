//! Transfers: the scenarios, boundaries and laws of the coordinator, on
//! concrete values. Amounts are in minor units: `100.00` is written `10_000`.

use ledger::account::Account;
use ledger::coordinator::Ledger;
use ledger::errors::LedgerError;
use ledger::store::AccountStore;
use ledger::txlog::TransactionLog;

fn two_account_ledger(balance_a: i64, balance_b: i64) -> Ledger {
    let mut l = Ledger::new();
    assert_eq!(l.create_account(1, balance_a), Ok(0));
    assert_eq!(l.create_account(2, balance_b), Ok(1));
    l
}

#[test]
fn scenario_transfer_succeeds() {
    // Account A holds 100.00; its owner moves 40.00 to B, which starts at 0.
    let mut l = two_account_ledger(10_000, 0);
    let t = l.transfer(1, 0, 1, 4_000, 5).unwrap();
    assert_eq!(t.amount, 4_000);
    assert_eq!(t.from_account_id, 0);
    assert_eq!(t.to_account_id, 1);
    assert_eq!(t.created_at, 5);
    assert_eq!(l.get_account_balance(1, 0), Ok(6_000));
    assert_eq!(l.get_account_balance(2, 1), Ok(4_000));
    let records = l.log.list_for_accounts(&vec![0, 1]);
    assert_eq!(records.len(), 1);
    assert_eq!(records[0].amount, 4_000);
    assert_eq!(records[0].id, t.id);
}

#[test]
fn scenario_insufficient_funds() {
    // Account A holds 10.00; moving 50.00 fails and changes nothing.
    let mut l = two_account_ledger(1_000, 0);
    let r = l.transfer(1, 0, 1, 5_000, 5);
    assert_eq!(r, Err(LedgerError::InsufficientFunds));
    assert_eq!(l.get_account_balance(1, 0), Ok(1_000));
    assert_eq!(l.get_account_balance(2, 1), Ok(0));
    assert_eq!(l.log.entries.len(), 0);
}

#[test]
fn exact_balance_drains_source() {
    let mut l = two_account_ledger(2_500, 0);
    let r = l.transfer(1, 0, 1, 2_500, 7);
    assert!(r.is_ok());
    assert_eq!(l.get_account_balance(1, 0), Ok(0));
    assert_eq!(l.get_account_balance(2, 1), Ok(2_500));
}

#[test]
fn zero_amount_rejected() {
    let mut l = two_account_ledger(1_000, 0);
    assert_eq!(l.transfer(1, 0, 1, 0, 5), Err(LedgerError::InvalidAmount));
    assert_eq!(l.get_account_balance(1, 0), Ok(1_000));
    assert_eq!(l.log.entries.len(), 0);
}

#[test]
fn negative_amount_rejected() {
    let mut l = two_account_ledger(1_000, 0);
    assert_eq!(l.transfer(1, 0, 1, -500, 5), Err(LedgerError::InvalidAmount));
    assert_eq!(l.get_account_balance(1, 0), Ok(1_000));
    assert_eq!(l.log.entries.len(), 0);
}

#[test]
fn self_transfer_rejected() {
    let mut l = two_account_ledger(1_000, 0);
    assert_eq!(l.transfer(1, 0, 0, 100, 5), Err(LedgerError::SelfTransfer));
    assert_eq!(l.get_account_balance(1, 0), Ok(1_000));
}

#[test]
fn missing_accounts_rejected() {
    let mut l = two_account_ledger(1_000, 0);
    assert_eq!(l.transfer(1, 9, 1, 100, 5), Err(LedgerError::AccountNotFound));
    assert_eq!(l.transfer(1, 0, 9, 100, 5), Err(LedgerError::AccountNotFound));
}

#[test]
fn foreign_source_rejected() {
    // User 2 does not own account 0.
    let mut l = two_account_ledger(1_000, 0);
    assert_eq!(l.transfer(2, 0, 1, 100, 5), Err(LedgerError::Unauthorized));
    assert_eq!(l.get_account_balance(1, 0), Ok(1_000));
}

#[test]
fn conservation_of_total() {
    let mut l = two_account_ledger(7_000, 300);
    let before = l.store.total_balance();
    let a = l.get_account_balance(1, 0).unwrap();
    let b = l.get_account_balance(2, 1).unwrap();
    l.transfer(1, 0, 1, 4_999, 5).unwrap();
    assert_eq!(l.store.total_balance(), before);
    let a2 = l.get_account_balance(1, 0).unwrap();
    let b2 = l.get_account_balance(2, 1).unwrap();
    assert_eq!(a2 + b2, a + b);
}

#[test]
fn no_double_spend_in_sequence() {
    // Three competing transfers of 5.00 against a balance of exactly 10.00:
    // two succeed, the third fails, whatever the destination accounts.
    let mut l = Ledger::new();
    assert_eq!(l.create_account(1, 1_000), Ok(0));
    assert_eq!(l.create_account(2, 0), Ok(1));
    assert_eq!(l.create_account(3, 0), Ok(2));
    assert!(l.transfer(1, 0, 1, 500, 5).is_ok());
    assert!(l.transfer(1, 0, 2, 500, 6).is_ok());
    assert_eq!(l.transfer(1, 0, 1, 500, 7), Err(LedgerError::InsufficientFunds));
    assert_eq!(l.get_account_balance(1, 0), Ok(0));
    assert_eq!(l.log.entries.len(), 2);
}

#[test]
fn retry_after_failure_records_once() {
    // A failed attempt leaves no record; the retry that succeeds leaves
    // exactly one for the logical transfer.
    let mut l = two_account_ledger(1_000, 0);
    assert_eq!(l.transfer(1, 0, 1, 2_000, 5), Err(LedgerError::InsufficientFunds));
    assert_eq!(l.log.entries.len(), 0);
    assert!(l.transfer(1, 0, 1, 1_000, 6).is_ok());
    assert_eq!(l.log.entries.len(), 1);
}

#[test]
fn exhausted_version_counter_fails_commit() {
    // A source whose version counter is exhausted cannot commit; nothing
    // changes, and retrying against the same state stays record-free.
    let store = AccountStore {
        accounts: vec![
            Account { id: 0, owner_user_id: 1, balance: 1_000, version: u64::MAX },
            Account { id: 1, owner_user_id: 2, balance: 0, version: 0 },
        ],
        total: 1_000,
    };
    let mut l = Ledger { store, log: TransactionLog::new() };
    assert_eq!(l.transfer(1, 0, 1, 100, 5), Err(LedgerError::PersistenceError));
    assert_eq!(l.get_account_balance(1, 0), Ok(1_000));
    assert_eq!(l.log.entries.len(), 0);
    assert_eq!(l.transfer(1, 0, 1, 100, 6), Err(LedgerError::PersistenceError));
    assert_eq!(l.log.entries.len(), 0);
}

#[test]
fn commit_time_never_goes_backwards() {
    // A wall-clock reading that went backwards is clamped to the last commit
    // time, so record order stays commit order.
    let mut l = two_account_ledger(1_000, 0);
    let t0 = l.transfer(1, 0, 1, 100, 50).unwrap();
    assert_eq!(t0.created_at, 50);
    let t1 = l.transfer(1, 0, 1, 100, 40).unwrap();
    assert_eq!(t1.created_at, 50);
    let t2 = l.transfer(1, 0, 1, 100, 60).unwrap();
    assert_eq!(t2.created_at, 60);
}

#[test]
fn error_status_codes() {
    assert_eq!(LedgerError::InvalidAmount.status_code(), 400);
    assert_eq!(LedgerError::SelfTransfer.status_code(), 400);
    assert_eq!(LedgerError::InsufficientFunds.status_code(), 400);
    assert_eq!(LedgerError::AccountNotFound.status_code(), 401);
    assert_eq!(LedgerError::TransactionNotFound.status_code(), 401);
    assert_eq!(LedgerError::Unauthorized.status_code(), 401);
    assert_eq!(LedgerError::ConcurrentModification.status_code(), 500);
    assert_eq!(LedgerError::PersistenceError.status_code(), 500);
}
