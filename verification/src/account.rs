//! The data model of the ledger: accounts and the transactions that move
//! funds between them.
//!
//! All monetary values are fixed-point decimals held as a signed count of
//! minor units; they are never negative at rest.

use vstd::prelude::*;

verus! {

/// One account of the ledger.
///
/// `id` and `owner_user_id` are set at creation and never change. `balance`
/// is non-negative for every account at rest. `version` is the concurrency
/// token: it grows by one on every balance mutation, and a mutation is
/// applied only against the version its caller last observed.
#[derive(Clone, Copy, Debug, PartialEq, Eq, Structural)]
pub struct Account {
    pub id: u64,
    pub owner_user_id: u64,
    pub balance: i64,
    pub version: u64,
}

/// One committed transfer, recorded exactly once, immutable afterward.
///
/// `amount` is strictly positive and `from_account_id` differs from
/// `to_account_id`. `created_at` is the commit time as a day number.
#[derive(Clone, Copy, Debug, PartialEq, Eq, Structural)]
pub struct Transaction {
    pub id: u64,
    pub from_account_id: u64,
    pub to_account_id: u64,
    pub amount: i64,
    pub created_at: i64,
}

} // verus!
