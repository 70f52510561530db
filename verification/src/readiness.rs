//! Readiness state used for readiness probes and connection draining.

use std::time::Duration;
use vstd::prelude::*;

use crate::clock::{duration_from_secs, duration_nanos, NANOS_PER_SEC};
use crate::text::{concat, push_char, trim_trailing_slashes, without_trailing_slashes};

verus! {

/// Default drain window, in seconds.
pub const DEFAULT_DRAIN_TIMEOUT_SECS: u64 = 30;

/// Readiness state for the application.
///
/// The application starts NOT READY; it becomes ready once initialization
/// checks pass, and leaves the ready state (draining) on shutdown. It has
/// one owner: handlers that must see each other's changes share it behind
/// a lock, so a copy never goes stale.
#[derive(Debug)]
pub struct ReadinessState {
    ready: bool,
    drain_timeout_secs: u64,
    draining: bool,
}

/// Abstract view of a [`ReadinessState`].
pub struct ReadinessView {
    pub ready: bool,
    pub draining: bool,
    pub drain_timeout_secs: u64,
}

impl View for ReadinessState {
    type V = ReadinessView;

    closed spec fn view(&self) -> ReadinessView {
        ReadinessView {
            ready: self.ready,
            draining: self.draining,
            drain_timeout_secs: self.drain_timeout_secs,
        }
    }
}

impl ReadinessState {
    /// Creates a readiness state with the default drain timeout (30 s),
    /// initially not ready and not draining.
    pub fn new() -> (s: Self)
        ensures
            !s@.ready,
            !s@.draining,
            s@.drain_timeout_secs == DEFAULT_DRAIN_TIMEOUT_SECS,
    {
        Self::with_drain_timeout(DEFAULT_DRAIN_TIMEOUT_SECS)
    }

    /// Creates a readiness state with a custom drain timeout, initially not
    /// ready and not draining.
    pub fn with_drain_timeout(drain_timeout_secs: u64) -> (s: Self)
        ensures
            !s@.ready,
            !s@.draining,
            s@.drain_timeout_secs == drain_timeout_secs,
    {
        ReadinessState { ready: false, drain_timeout_secs, draining: false }
    }

    /// Whether the application accepts traffic.
    pub fn is_ready(&self) -> (r: bool)
        ensures
            r == self@.ready,
    {
        self.ready
    }

    /// Whether the application is draining.
    pub fn is_draining(&self) -> (r: bool)
        ensures
            r == self@.draining,
    {
        self.draining
    }

    /// The drain window in seconds.
    pub fn drain_timeout_secs(&self) -> (r: u64)
        ensures
            r == self@.drain_timeout_secs,
    {
        self.drain_timeout_secs
    }

    /// The drain window.
    pub fn drain_timeout(&self) -> (d: Duration)
        ensures
            duration_nanos(d) == self@.drain_timeout_secs * NANOS_PER_SEC,
    {
        duration_from_secs(self.drain_timeout_secs)
    }

    /// Starts draining: the application stops being ready and the drain
    /// window is returned.
    pub fn start_drain(&mut self) -> (d: Duration)
        ensures
            !final(self)@.ready,
            final(self)@.draining,
            final(self)@.drain_timeout_secs == old(self)@.drain_timeout_secs,
            duration_nanos(d) == old(self)@.drain_timeout_secs * NANOS_PER_SEC,
    {
        self.set_not_ready();
        self.drain_timeout()
    }

    /// Marks the application ready; any drain in progress is cancelled.
    pub fn set_ready(&mut self)
        ensures
            final(self)@.ready,
            !final(self)@.draining,
            final(self)@.drain_timeout_secs == old(self)@.drain_timeout_secs,
    {
        self.ready = true;
        self.draining = false;
    }

    /// Marks the application not ready and draining.
    pub fn set_not_ready(&mut self)
        ensures
            !final(self)@.ready,
            final(self)@.draining,
            final(self)@.drain_timeout_secs == old(self)@.drain_timeout_secs,
    {
        self.ready = false;
        self.draining = true;
    }
}

/// The answer to a request to drain the application.
#[derive(Debug, Clone, Copy, PartialEq, Eq, Structural)]
pub enum DrainReply {
    /// A drain was already under way; the drain window, in seconds.
    AlreadyDraining { drain_timeout_secs: u64 },
    /// The drain starts now; the process exits after the drain window, in
    /// seconds.
    Draining { drain_timeout_secs: u64 },
}

impl ReadinessState {
    /// Answers a request to drain: a drain already under way is left as
    /// it is; otherwise the application stops being ready and starts
    /// draining.
    pub fn request_drain(&mut self) -> (r: DrainReply)
        ensures
            old(self)@.draining ==> r == (DrainReply::AlreadyDraining {
                drain_timeout_secs: old(self)@.drain_timeout_secs,
            }) && final(self)@ == old(self)@,
            !old(self)@.draining ==> r == (DrainReply::Draining {
                drain_timeout_secs: old(self)@.drain_timeout_secs,
            }) && !final(self)@.ready && final(self)@.draining
                && final(self)@.drain_timeout_secs == old(self)@.drain_timeout_secs,
    {
        if self.draining {
            DrainReply::AlreadyDraining { drain_timeout_secs: self.drain_timeout_secs }
        } else {
            self.set_not_ready();
            DrainReply::Draining { drain_timeout_secs: self.drain_timeout_secs }
        }
    }

    /// How long shutdown waits for in-flight requests: the drain window
    /// when the application is not ready, nothing when it is.
    pub fn drain_wait(&self) -> (d: Option<Duration>)
        ensures
            self@.ready ==> d is None,
            !self@.ready ==> (d matches Some(t) && duration_nanos(t) == self@.drain_timeout_secs * NANOS_PER_SEC),
    {
        if self.ready {
            None
        } else {
            Some(self.drain_timeout())
        }
    }
}

/// The critical initialization check that failed.
#[derive(Debug, Clone, PartialEq, Eq)]
pub enum InitializationError {
    /// The database could not be reached; the detail says why.
    DatabaseCheck(String),
}

impl InitializationError {
    /// The message this error displays.
    pub fn to_string(&self) -> (s: String)
        ensures
            self matches InitializationError::DatabaseCheck(d) && s@ == "Database check failed: "@ + d@,
    {
        match self {
            InitializationError::DatabaseCheck(d) => concat("Database check failed: ", d.as_str()),
        }
    }
}

impl ReadinessState {
    /// Concludes the initialization checks from their outcomes. The cache
    /// and the ledger are not critical: their failures are tolerated. A
    /// failed database check fails initialization and leaves the state as
    /// it was; otherwise the application becomes ready.
    pub fn complete_initialization(
        &mut self,
        cache: Result<(), String>,
        ledger: Result<(), String>,
        database: Result<(), String>,
    ) -> (r: Result<(), InitializationError>)
        ensures
            database matches Err(m) ==> (r matches Err(InitializationError::DatabaseCheck(d)) && d@ == m@
                && final(self)@ == old(self)@),
            database is Ok ==> r is Ok && final(self)@.ready && !final(self)@.draining
                && final(self)@.drain_timeout_secs == old(self)@.drain_timeout_secs,
    {
        match database {
            Err(m) => Err(InitializationError::DatabaseCheck(m)),
            Ok(()) => {
                self.set_ready();
                Ok(())
            },
        }
    }
}

/// The address probed to check that the ledger's API answers: its base
/// address without trailing slashes, then a single `/`.
pub fn ledger_probe_url(base: &str) -> (u: String)
    ensures
        u@ == trim_trailing_slashes(base@).push('/'),
{
    let mut u = without_trailing_slashes(base);
    push_char(&mut u, '/');
    u
}

impl Default for ReadinessState {
    fn default() -> (s: Self)
        ensures
            !s@.ready,
            !s@.draining,
            s@.drain_timeout_secs == DEFAULT_DRAIN_TIMEOUT_SECS,
    {
        Self::new()
    }
}

} // verus!
