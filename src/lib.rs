//! Per-customer account ledger: ingestion of raw transaction rows, the
//! per-customer transaction log, and the replay that turns each log into
//! available / held / total balances and a lock flag.

pub mod amount;
pub mod transaction;
pub mod account;
pub mod laws;
pub mod customers;
pub mod cli;
