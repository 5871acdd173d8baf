//! A toy payments engine: deposits, withdrawals, disputes, resolves and
//! chargebacks applied per client to a ledger of accounts.
//!
//! - `decimal`: fixed-point numbers, with their arithmetic done by
//!   `rust_decimal` and its results stated.
//! - `types`: identifiers, amounts, balances and transactions.
//! - `account`: one client's account and its operations.
//! - `ledger`: all accounts plus the history that disputes refer to;
//!   `Ledger::apply` is the single mutation point.
//! - `laws`: what holds across transactions.
//! - `csv`: input rows to transactions, accounts to output rows.
pub mod account;
pub mod csv;
pub mod decimal;
pub mod laws;
pub mod ledger;
pub mod types;
