//! Security module: session validation, the security error type and the
//! security-backend connection pool.

pub mod connection_pool;
pub mod error;
pub mod session;

pub use connection_pool::{SecurityConnectionPool, SecurityPoolConfig, SecurityPoolError};
pub use error::SecurityError;
pub use session::{validate_session_params, SessionValidationError};
