//! Business services: reconciliation of the ledger against the chain,
//! settlement rules, distributed-lock rules, the circuit breaker, feature
//! flags, the transaction pipeline and payment matching.

pub mod account_monitor;
pub mod circuit_breaker;
pub mod compliance;
pub mod feature_flags;
pub mod lock_manager;
pub mod reconciliation;
pub mod settlement;
pub mod transaction_processor;
