//! A ledger engine: an ordered stream of deposits, withdrawals, disputes,
//! resolves and chargebacks is folded into per-client account balances.

pub mod amount;
pub mod models;
pub mod model;
pub mod laws;
pub mod engine;
