//! A verified ledger for a two-party financial account model.
//!
//! Users own accounts with a monetary balance; transactions move funds
//! between accounts. The library guarantees that a funds transfer is atomic,
//! conserves the sum of the two balances involved, and cannot double-spend:
//! every balance mutation goes through a single compare-and-set step, so no
//! two mutations of the same account can both observe the pre-mutation
//! balance.
//!
//! Monetary values are fixed-point decimals held as a signed count of minor
//! units (for instance cents); no floating point is used anywhere in the
//! ledger arithmetic.

pub mod account;
pub mod store;
pub mod txlog;
pub mod coordinator;
pub mod facade;
pub mod laws;
pub mod errors;
pub mod user_types;
pub mod auth;
