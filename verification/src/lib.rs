//! A verified in-memory transaction ledger with a dispute lifecycle.
//!
//! Transactions (deposits, withdrawals, disputes, resolves, chargebacks)
//! are applied per account; disputes move funds between an available and
//! a held balance, and a chargeback permanently locks the account.

pub mod client;
pub mod engine;
pub mod records;
pub mod sums;
pub mod transaction;
