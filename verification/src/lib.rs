//! A payments ledger: an ordered stream of deposits, withdrawals, disputes,
//! resolutions and chargebacks is applied to per-client accounts.
//!
//! Every rule of the ledger is a spec function over a mathematical model of
//! the engine's state, and the executable engine is proved to follow it.

pub mod account;
pub mod amount;
pub mod decimal;
pub mod engine;
pub mod error;
pub mod laws;
pub mod ledger;
pub mod transaction;
