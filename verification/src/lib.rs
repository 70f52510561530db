//! Core logic of the Synapse payment backend: readiness and shutdown state
//! machines, bounded connection pools, rate limiting, input validation,
//! status-transition rules and payment reconciliation.

pub mod bounded_pool;
pub mod calendar;
pub mod clock;
pub mod decimal;
pub mod error;
pub mod ids;
pub mod readiness;
pub mod secrets;
pub mod security;
pub mod services;
pub mod stellar;
pub mod telemetry;
pub mod tenant;
pub mod text;
pub mod token_bucket;
pub mod utils;
pub mod validation;
pub mod ws;
