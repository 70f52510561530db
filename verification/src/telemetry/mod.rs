//! Telemetry: input validation, error handling, the exporter connection
//! pool, the export buffer, the span flush wait, graceful shutdown, rate limiting, label
//! cardinality, health checks and webhooks.

pub mod connection_pool;
pub mod data_export;
pub mod error_handling;
pub mod flush;
pub mod graceful_shutdown;
pub mod health_checks;
pub mod input_validation;
pub mod metrics_optimization;
pub mod rate_limiting;
pub mod webhook;
