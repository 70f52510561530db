//! Bounded connection pool for security-layer backends (e.g. Vault).
//!
//! - The backend URL must use `https://` and be at most 2048 bytes long.
//! - The pool is hard-capped at `max_size` connections; acquisition beyond
//!   the cap fails with [`SecurityPoolError::Exhausted`].
//! - Stale idle connections are evicted on the next acquisition.

use std::time::Duration;
use vstd::prelude::*;

use crate::bounded_pool::{conn_of, acquire_spec, release_spec, BoundedPool, PoolConnection, PoolView};
use crate::clock::{duration_as_nanos, duration_from_secs, duration_nanos};
use crate::security::error::SecurityError;
use crate::text::{has_prefix, starts_with};
use vstd::utf8::encode_utf8;

verus! {

/// Longest accepted backend URL, in bytes.
pub const MAX_ENDPOINT_LEN: usize = 2048;

/// Configuration for the security-layer connection pool.
#[derive(Debug, Clone)]
pub struct SecurityPoolConfig {
    /// Maximum number of connections the pool may hold at once.
    pub max_size: usize,
    /// Connections idle longer than this are evicted on the next operation.
    pub max_idle: Duration,
    /// Backend endpoint URL (`https://` only, at most 2048 bytes).
    pub endpoint: String,
}

impl Default for SecurityPoolConfig {
    /// Five connections, two minutes of idle time, `https://localhost:8200`.
    fn default() -> (c: Self)
        ensures
            c.max_size == 5,
            duration_nanos(c.max_idle) == 120 * crate::clock::NANOS_PER_SEC,
            c.endpoint@ == "https://localhost:8200"@,
    {
        SecurityPoolConfig {
            max_size: 5,
            max_idle: duration_from_secs(120),
            endpoint: "https://localhost:8200".to_owned(),
        }
    }
}

/// Errors produced by the security connection pool.
#[derive(Debug, Clone)]
pub enum SecurityPoolError {
    /// All connections are in use; the pool is at capacity (its size).
    Exhausted(usize),
    /// The pool configuration is invalid.
    InvalidConfig(String),
}

/// A connection managed by the security pool.
pub type SecurityConnection = PoolConnection;

/// Why `endpoint` is refused, if it is: empty, longer than 2048 bytes, or
/// not an `https://` URL, checked in that order.
pub open spec fn endpoint_rejection(endpoint: Seq<char>) -> Option<Seq<char>> {
    if endpoint.len() == 0 {
        Some("endpoint must not be empty"@)
    } else if encode_utf8(endpoint).len() as usize > MAX_ENDPOINT_LEN {
        Some("endpoint exceeds maximum length of 2048 characters"@)
    } else if !has_prefix(endpoint, "https://"@) {
        Some("endpoint must use the https:// scheme"@)
    } else {
        None
    }
}

/// Validates a backend endpoint URL for the security pool.
pub fn validate_endpoint(endpoint: &str) -> (r: Result<(), SecurityPoolError>)
    ensures
        r is Ok <==> endpoint_rejection(endpoint@) is None,
        r matches Err(e) ==> e matches SecurityPoolError::InvalidConfig(m) && m@
            == endpoint_rejection(endpoint@)->0,
{
    if endpoint.is_empty() {
        return Err(SecurityPoolError::InvalidConfig("endpoint must not be empty".to_owned()));
    }
    if endpoint.len() > MAX_ENDPOINT_LEN {
        return Err(
            SecurityPoolError::InvalidConfig(
                "endpoint exceeds maximum length of 2048 characters".to_owned(),
            ),
        );
    }
    if !starts_with(endpoint, "https://") {
        return Err(
            SecurityPoolError::InvalidConfig("endpoint must use the https:// scheme".to_owned()),
        );
    }
    Ok(())
}

/// Bounded, secure connection pool for security-layer backends.
pub struct SecurityConnectionPool {
    config: SecurityPoolConfig,
    pool: BoundedPool,
}

impl View for SecurityConnectionPool {
    type V = PoolView;

    closed spec fn view(&self) -> PoolView {
        self.pool@
    }
}

impl SecurityConnectionPool {
    /// The pool's internal counters are consistent.
    pub closed spec fn wf(&self) -> bool {
        self.pool.wf() && self.pool@.max_size == self.config.max_size
    }

    /// Creates a pool with the default configuration.
    pub fn new() -> (r: Result<Self, SecurityPoolError>)
        ensures
            r matches Ok(p) ==> p.wf() && p@.idle.len() == 0 && p@.total == 0 && p@.next_id == 1
                && p@.max_size == 5 && p@.max_idle == 120 * crate::clock::NANOS_PER_SEC
                && p@.endpoint == "https://localhost:8200"@,
            r is Ok <==> endpoint_rejection("https://localhost:8200"@) is None,
    {
        let config = SecurityPoolConfig::default();
        let r = Self::with_config(config);
        r
    }

    /// Creates a pool with the supplied configuration, after validating the
    /// endpoint (see [`validate_endpoint`]) and that `max_size` is positive.
    pub fn with_config(config: SecurityPoolConfig) -> (r: Result<Self, SecurityPoolError>)
        ensures
            r is Ok <==> endpoint_rejection(config.endpoint@) is None && config.max_size
                > 0,
            r matches Err(e) ==> e is InvalidConfig,
            r matches Ok(p) ==> p.wf() && p@.idle.len() == 0 && p@.total == 0 && p@.next_id == 1
                && p@.max_size == config.max_size && p@.max_idle == duration_nanos(config.max_idle)
                && p@.endpoint == config.endpoint@,
    {
        match validate_endpoint(config.endpoint.as_str()) {
            Ok(()) => {},
            Err(e) => {
                return Err(e);
            },
        }
        if config.max_size == 0 {
            return Err(SecurityPoolError::InvalidConfig("max_size must be at least 1".to_owned()));
        }
        let max_idle = duration_as_nanos(&config.max_idle);
        let pool = BoundedPool::new(config.endpoint.clone(), config.max_size, max_idle);
        Ok(SecurityConnectionPool { config, pool })
    }

    /// Acquires a connection at clock reading `now` (nanoseconds since the
    /// pool was created): stale idle connections are evicted, then the
    /// oldest idle connection is reused, or a new one created under the cap;
    /// at the cap the result is `Exhausted(max_size)`.
    pub fn acquire_at(&mut self, now: u64) -> (r: Result<SecurityConnection, SecurityPoolError>)
        requires
            old(self).wf(),
            old(self)@.next_id < u64::MAX,
        ensures
            final(self).wf(),
            acquire_spec(old(self)@, now, final(self)@, conn_of(r)),
            r matches Err(e) ==> e matches SecurityPoolError::Exhausted(n) && n == old(self)@.max_size,
    {
        let r = match self.pool.acquire_at(now) {
            Some(c) => Ok(c),
            None => Err(SecurityPoolError::Exhausted(self.config.max_size)),
        };
        proof {
            reveal(conn_of);
        }
        r
    }

    /// Acquires a connection at the current clock reading (see
    /// [`Self::acquire_at`]).
    pub fn acquire(&mut self) -> (r: Result<SecurityConnection, SecurityPoolError>)
        requires
            old(self).wf(),
            old(self)@.next_id < u64::MAX,
        ensures
            final(self).wf(),
            exists|now: u64| #[trigger] acquire_spec(old(self)@, now, final(self)@, conn_of(r)),
            r matches Err(e) ==> e matches SecurityPoolError::Exhausted(n) && n == old(self)@.max_size,
    {
        let now = self.pool.now();
        self.acquire_at(now)
    }

    /// Returns a connection at clock reading `now`: a stale connection is
    /// discarded (and the total decremented); a fresh one is queued for reuse.
    pub fn release_at(&mut self, conn: SecurityConnection, now: u64)
        requires
            old(self).wf(),
        ensures
            final(self).wf(),
            release_spec(old(self)@, conn@, now, final(self)@),
    {
        self.pool.release_at(conn, now);
    }

    /// Returns a connection at the current clock reading (see
    /// [`Self::release_at`]).
    pub fn release(&mut self, conn: SecurityConnection)
        requires
            old(self).wf(),
        ensures
            final(self).wf(),
            exists|now: u64| #[trigger] release_spec(old(self)@, conn@, now, final(self)@),
    {
        let now = self.pool.now();
        self.release_at(conn, now);
    }

    /// Number of idle connections available.
    pub fn idle_count(&self) -> (n: usize)
        ensures
            n == self@.idle.len(),
    {
        self.pool.idle_count()
    }

    /// Total connections managed (idle and in use).
    pub fn total_count(&self) -> (n: usize)
        ensures
            n == self@.total,
    {
        self.pool.total_count()
    }
}

impl From<SecurityPoolError> for SecurityError {
    /// Pool errors surface as rate-limit exceeded (HTTP 429): they indicate
    /// the backend is under load, not a client mistake.
    fn from(e: SecurityPoolError) -> (r: Self) {
        SecurityError::RateLimitExceeded
    }
}

impl vstd::std_specs::convert::FromSpecImpl<SecurityPoolError> for SecurityError {
    open spec fn obeys_from_spec() -> bool {
        true
    }

    open spec fn from_spec(e: SecurityPoolError) -> SecurityError {
        SecurityError::RateLimitExceeded
    }
}

} // verus!
