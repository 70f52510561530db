//! WebSocket support: the connection ceiling, activity metrics,
//! connection health and cursor pagination of event streams.

pub mod connection_pool;
pub mod health;
pub mod metrics;
pub mod pagination;
