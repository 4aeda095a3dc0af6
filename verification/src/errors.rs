//! The error taxonomy of the ledger, and the wire-level error record that
//! the surrounding request layer renders from it.

use vstd::prelude::*;

verus! {

/// Every failure a ledger operation can report.
///
/// Validation failures (`InvalidAmount`, `SelfTransfer`, `AccountNotFound`,
/// `Unauthorized`) and `InsufficientFunds` are deterministic in the current
/// state and are reported without any side effect. `ConcurrentModification`
/// reports a stale version token handed to the atomic update step.
/// `TransactionNotFound` is the read-side miss for a ledger record.
/// `PersistenceError` means the store cannot commit the requested change
/// (its value range is exhausted).
#[derive(Clone, Copy, Debug, PartialEq, Eq, Structural)]
pub enum LedgerError {
    InvalidAmount,
    SelfTransfer,
    AccountNotFound,
    TransactionNotFound,
    Unauthorized,
    InsufficientFunds,
    ConcurrentModification,
    PersistenceError,
}

impl LedgerError {
    /// The transport-level status code the request layer maps this error to:
    /// rejected requests are client errors, a missing account or an
    /// authorization failure answers as the authentication layer does, and
    /// storage-side failures are server errors.
    pub fn status_code(&self) -> (code: u16)
        ensures
            code == self.spec_status_code(),
    {
        match self {
            LedgerError::InvalidAmount => 400,
            LedgerError::SelfTransfer => 400,
            LedgerError::InsufficientFunds => 400,
            LedgerError::AccountNotFound => 401,
            LedgerError::TransactionNotFound => 401,
            LedgerError::Unauthorized => 401,
            LedgerError::ConcurrentModification => 500,
            LedgerError::PersistenceError => 500,
        }
    }

    /// The status code of each error kind, as a mathematical map.
    pub open spec fn spec_status_code(self) -> u16 {
        match self {
            LedgerError::InvalidAmount => 400,
            LedgerError::SelfTransfer => 400,
            LedgerError::InsufficientFunds => 400,
            LedgerError::AccountNotFound => 401,
            LedgerError::TransactionNotFound => 401,
            LedgerError::Unauthorized => 401,
            LedgerError::ConcurrentModification => 500,
            LedgerError::PersistenceError => 500,
        }
    }
}

/// The error record every endpoint answers with: a stable cause, a safe
/// human-readable description, and the status code.
pub struct ErrorResponse {
    pub cause: String,
    pub description: String,
    pub status_code: u16,
}

impl ErrorResponse {
    pub fn new(cause: String, description: String, status_code: u16) -> (r: ErrorResponse)
        ensures
            r.cause == cause,
            r.description == description,
            r.status_code == status_code,
    {
        ErrorResponse { cause, description, status_code }
    }
}

} // verus!
