//! A ceiling on the number of concurrently open WebSocket connections.
//!
//! The pool does not manage sockets: it counts permits. [`ConnectionPool::acquire`]
//! hands out a [`ConnectionPermit`] while the count is below the ceiling, and
//! [`ConnectionPool::release`] takes one back.

use vstd::prelude::*;

use crate::text::owned;

verus! {

/// Configuration of a [`ConnectionPool`].
#[derive(Debug, Clone, Copy, PartialEq, Eq, Structural)]
pub struct PoolConfig {
    /// Maximum number of concurrent connections the pool allows.
    pub max_connections: usize,
    /// Advisory lower bound; the pool does not pre-warm connections.
    pub min_connections: usize,
}

impl Default for PoolConfig {
    /// At most 1000 connections, an advisory minimum of 10.
    fn default() -> (c: Self)
        ensures
            c.max_connections == 1000,
            c.min_connections == 10,
    {
        PoolConfig { max_connections: 1000, min_connections: 10 }
    }
}

/// Errors of [`ConnectionPool::acquire`].
#[derive(Debug, Clone, Copy, PartialEq, Eq, Structural)]
pub enum PoolError {
    /// The pool is at capacity; no connection may be accepted until a permit
    /// is released.
    AcquisitionFailed,
}

impl PoolError {
    /// The message this error displays.
    pub fn to_string(&self) -> (s: String)
        ensures
            s@ == "connection pool is at capacity; try again later"@,
    {
        owned("connection pool is at capacity; try again later")
    }
}

/// The right to hold one open connection; handed back with
/// [`ConnectionPool::release`], which is the only way its slot is freed.
/// Permits cannot be cloned, and one that is dropped unreleased keeps its
/// slot, so the compiler warns when a permit goes unused.
#[must_use]
#[derive(Debug)]
pub struct ConnectionPermit {
    _private: (),
}

/// Counts connections against a ceiling.
#[derive(Debug)]
pub struct ConnectionPool {
    active_connections: usize,
    max_connections: usize,
}

/// Abstract state of a [`ConnectionPool`].
pub struct ConnectionPoolView {
    pub active: nat,
    pub max: nat,
}

/// The pool with one more connection active.
pub open spec fn acquired(v: ConnectionPoolView) -> ConnectionPoolView {
    ConnectionPoolView { active: v.active + 1, ..v }
}

/// The pool with one connection fewer active, never below zero.
pub open spec fn released(v: ConnectionPoolView) -> ConnectionPoolView {
    ConnectionPoolView {
        active: if v.active > 0 {
            (v.active - 1) as nat
        } else {
            0nat
        },
        ..v
    }
}

impl View for ConnectionPool {
    type V = ConnectionPoolView;

    closed spec fn view(&self) -> ConnectionPoolView {
        ConnectionPoolView { active: self.active_connections as nat, max: self.max_connections as nat }
    }
}

impl ConnectionPool {
    /// The active count never exceeds the ceiling.
    pub closed spec fn wf(&self) -> bool {
        self.active_connections <= self.max_connections
    }

    /// An empty pool with the configured ceiling; `min_connections` is
    /// advisory only.
    pub fn new(config: PoolConfig) -> (p: Self)
        ensures
            p.wf(),
            p@.active <= p@.max,
            p@.active == 0,
            p@.max == config.max_connections,
    {
        ConnectionPool { active_connections: 0, max_connections: config.max_connections }
    }

    /// Hands out a permit while fewer than the ceiling are active; at the
    /// ceiling, refuses and changes nothing.
    pub fn acquire(&mut self) -> (r: Result<ConnectionPermit, PoolError>)
        requires
            old(self).wf(),
        ensures
            final(self).wf(),
            final(self)@.active <= final(self)@.max,
            old(self)@.active < old(self)@.max ==> r is Ok && final(self)@ == acquired(old(self)@),
            old(self)@.active >= old(self)@.max ==> r == Err::<ConnectionPermit, PoolError>(
                PoolError::AcquisitionFailed,
            ) && final(self)@ == old(self)@,
    {
        if self.active_connections >= self.max_connections {
            return Err(PoolError::AcquisitionFailed);
        }
        self.active_connections = self.active_connections + 1;
        Ok(ConnectionPermit { _private: () })
    }

    /// Takes a permit back: one connection fewer is active (never below zero).
    pub fn release(&mut self, permit: ConnectionPermit)
        requires
            old(self).wf(),
        ensures
            final(self).wf(),
            final(self)@.active <= final(self)@.max,
            final(self)@ == released(old(self)@),
    {
        let _ = permit;
        self.active_connections = self.active_connections.saturating_sub(1);
    }

    /// A well-formed pool never has more connections active than its
    /// ceiling.
    pub proof fn lemma_active_within_ceiling(&self)
        requires
            self.wf(),
        ensures
            self@.active <= self@.max,
    {
    }

    /// Number of active connections.
    pub fn active_connections(&self) -> (n: usize)
        ensures
            n == self@.active,
    {
        self.active_connections
    }

    /// The ceiling.
    pub fn capacity(&self) -> (n: usize)
        ensures
            n == self@.max,
    {
        self.max_connections
    }

    /// Permits that can still be handed out: the ceiling minus the active
    /// count, floored at zero.
    pub fn available_permits(&self) -> (n: usize)
        ensures
            n == if self@.max >= self@.active {
                (self@.max - self@.active) as nat
            } else {
                0nat
            },
    {
        self.max_connections.saturating_sub(self.active_connections)
    }

    /// No further permit can be handed out.
    pub fn is_full(&self) -> (r: bool)
        ensures
            r == (self@.active >= self@.max),
    {
        self.available_permits() == 0
    }
}

/// Acquiring a permit and releasing it leaves the pool as it was.
pub proof fn lemma_acquire_release_round_trip(v: ConnectionPoolView)
    requires
        v.active < v.max,
    ensures
        released(acquired(v)) == v,
{
}

} // verus!
