//! Bounded connection pool for telemetry exporters.
//!
//! The endpoint is validated at construction (`http`/`https`, at most 2048
//! bytes), the pool is hard-capped at `max_size`, and stale idle
//! connections are evicted on the next acquisition.

use std::time::Duration;
use vstd::prelude::*;

use crate::bounded_pool::{acquire_spec, conn_of, release_spec, BoundedPool, PoolConnection, PoolView};
use crate::clock::{duration_as_nanos, duration_from_secs, duration_nanos, NANOS_PER_SEC};
use crate::telemetry::error_handling::TelemetryError;
use crate::telemetry::input_validation::{endpoint_error, InputValidator};

verus! {

/// Pool configuration for telemetry exporter connections.
#[derive(Debug, Clone)]
pub struct PoolConfig {
    /// Maximum number of connections the pool may hold at once.
    pub max_size: usize,
    /// Connections idle longer than this are evicted on the next operation.
    pub max_idle: Duration,
    /// Exporter endpoint URL.
    pub endpoint: String,
}

impl Default for PoolConfig {
    /// Ten connections, five minutes of idle time, `http://localhost:4317`.
    fn default() -> (c: Self)
        ensures
            c.max_size == 10,
            duration_nanos(c.max_idle) == 300 * NANOS_PER_SEC,
            c.endpoint@ == "http://localhost:4317"@,
    {
        PoolConfig {
            max_size: 10,
            max_idle: duration_from_secs(300),
            endpoint: "http://localhost:4317".to_owned(),
        }
    }
}

/// A connection managed by the telemetry pool.
pub type PooledConnection = PoolConnection;

/// Bounded, secure connection pool for telemetry exporters.
pub struct ConnectionPool {
    config: PoolConfig,
    pool: BoundedPool,
}

impl View for ConnectionPool {
    type V = PoolView;

    closed spec fn view(&self) -> PoolView {
        self.pool@
    }
}

impl ConnectionPool {
    /// The pool's internal counters are consistent.
    pub closed spec fn wf(&self) -> bool {
        self.pool.wf() && self.pool@.max_size == self.config.max_size
    }

    /// Creates a pool with the default configuration.
    pub fn new() -> (r: Result<Self, TelemetryError>)
        ensures
            r matches Ok(p) ==> p.wf() && p@.idle.len() == 0 && p@.total == 0 && p@.next_id == 1
                && p@.max_size == 10 && p@.max_idle == 300 * NANOS_PER_SEC
                && p@.endpoint == "http://localhost:4317"@,
            r is Ok <==> endpoint_error("http://localhost:4317"@) is None,
    {
        Self::with_config(PoolConfig::default())
    }

    /// Creates a pool with the supplied configuration after validating the
    /// endpoint (a `ValidationError` when invalid) and the size (a
    /// `PoolConfigError` when zero).
    pub fn with_config(config: PoolConfig) -> (r: Result<Self, TelemetryError>)
        ensures
            r is Ok <==> endpoint_error(config.endpoint@) is None && config.max_size > 0,
            r matches Err(e) ==> (endpoint_error(config.endpoint@) is Some ==> (e matches
                TelemetryError::ValidationError(v) && v@ == endpoint_error(config.endpoint@)->0)),
            r matches Err(e) ==> (endpoint_error(config.endpoint@) is None ==> e is PoolConfigError),
            r matches Ok(p) ==> p.wf() && p@.idle.len() == 0 && p@.total == 0 && p@.next_id == 1
                && p@.max_size == config.max_size && p@.max_idle == duration_nanos(config.max_idle)
                && p@.endpoint == config.endpoint@,
    {
        match InputValidator::validate_endpoint(config.endpoint.as_str()) {
            Ok(()) => {},
            Err(e) => {
                return Err(TelemetryError::ValidationError(e));
            },
        }
        if config.max_size == 0 {
            return Err(TelemetryError::PoolConfigError("max_size must be at least 1".to_owned()));
        }
        let max_idle = duration_as_nanos(&config.max_idle);
        let pool = BoundedPool::new(config.endpoint.clone(), config.max_size, max_idle);
        Ok(ConnectionPool { config, pool })
    }

    /// Acquires a connection at clock reading `now` (nanoseconds since the
    /// pool was created); at capacity the result is `PoolExhausted(max_size)`.
    pub fn acquire_at(&mut self, now: u64) -> (r: Result<PooledConnection, TelemetryError>)
        requires
            old(self).wf(),
            old(self)@.next_id < u64::MAX,
        ensures
            final(self).wf(),
            acquire_spec(old(self)@, now, final(self)@, conn_of(r)),
            r matches Err(e) ==> e matches TelemetryError::PoolExhausted(n) && n == old(self)@.max_size,
    {
        let r = match self.pool.acquire_at(now) {
            Some(c) => Ok(c),
            None => Err(TelemetryError::PoolExhausted(self.config.max_size)),
        };
        proof {
            reveal(conn_of);
        }
        r
    }

    /// Acquires a connection at the current clock reading.
    pub fn acquire(&mut self) -> (r: Result<PooledConnection, TelemetryError>)
        requires
            old(self).wf(),
            old(self)@.next_id < u64::MAX,
        ensures
            final(self).wf(),
            exists|now: u64| #[trigger] acquire_spec(old(self)@, now, final(self)@, conn_of(r)),
            r matches Err(e) ==> e matches TelemetryError::PoolExhausted(n) && n == old(self)@.max_size,
    {
        let now = self.pool.now();
        self.acquire_at(now)
    }

    /// Returns a connection at clock reading `now`.
    pub fn release_at(&mut self, conn: PooledConnection, now: u64)
        requires
            old(self).wf(),
        ensures
            final(self).wf(),
            release_spec(old(self)@, conn@, now, final(self)@),
    {
        self.pool.release_at(conn, now);
    }

    /// Returns a connection at the current clock reading.
    pub fn release(&mut self, conn: PooledConnection)
        requires
            old(self).wf(),
        ensures
            final(self).wf(),
            exists|now: u64| #[trigger] release_spec(old(self)@, conn@, now, final(self)@),
    {
        let now = self.pool.now();
        self.release_at(conn, now);
    }

    /// Number of idle connections in the pool.
    pub fn idle_count(&self) -> (n: usize)
        ensures
            n == self@.idle.len(),
    {
        self.pool.idle_count()
    }

    /// Total connections managed by the pool (idle and in use).
    pub fn total_count(&self) -> (n: usize)
        ensures
            n == self@.total,
    {
        self.pool.total_count()
    }
}

} // verus!
