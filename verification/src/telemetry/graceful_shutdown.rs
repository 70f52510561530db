//! Ordered, time-bounded graceful shutdown of the telemetry pipeline.
//!
//! Phases advance strictly in the order
//! `Running → Draining → Flushing → Stopping → Completed`:
//! [`ShutdownCoordinator::initiate`] opens the drain window,
//! [`ShutdownCoordinator::flush_pending`] flushes (or drops, once the drain
//! window has expired) the pending spans, [`ShutdownCoordinator::begin_stop`]
//! stops the exporter and [`ShutdownCoordinator::complete`] finalises the
//! shutdown and its metrics. An operation attempted in the wrong phase fails
//! with [`ShutdownError::InvalidPhase`]; completing twice fails with
//! [`ShutdownError::AlreadyCompleted`].

use std::time::{Duration, Instant};
use vstd::prelude::*;

use crate::clock::{
    duration_as_nanos, duration_debug_string, duration_debug_text, duration_from_nanos,
    duration_from_secs, duration_nanos, elapsed_nanos, instant_now, NANOS_PER_SEC,
};
use crate::telemetry::error_handling::{TelemetryError, TelemetryResult};
use crate::text::{concat, decimal, decimal_string};

verus! {

/// Default flush timeout, in seconds.
pub const DEFAULT_FLUSH_TIMEOUT_SECS: u64 = 5;
/// Default drain timeout, in seconds.
pub const DEFAULT_DRAIN_TIMEOUT_SECS: u64 = 30;
/// Largest accepted flush timeout, in seconds.
pub const MAX_FLUSH_TIMEOUT_SECS: u64 = 60;
/// Largest accepted drain timeout, in seconds.
pub const MAX_DRAIN_TIMEOUT_SECS: u64 = 300;
/// Most pending spans flushed in one shutdown.
pub const MAX_PENDING_SPANS: usize = 10_000;

/// Configuration for the shutdown coordinator.
#[derive(Debug, Clone)]
pub struct ShutdownConfig {
    /// Maximum time to wait for pending spans to be exported.
    pub flush_timeout: Duration,
    /// Maximum total time of the drain window.
    pub drain_timeout: Duration,
    /// Whether to drop pending spans, rather than fail, once the drain
    /// window has expired.
    pub force_on_timeout: bool,
}

impl Default for ShutdownConfig {
    /// Flush within 5 s, drain within 30 s, drop spans on timeout.
    fn default() -> (c: Self)
        ensures
            duration_nanos(c.flush_timeout) == DEFAULT_FLUSH_TIMEOUT_SECS * NANOS_PER_SEC,
            duration_nanos(c.drain_timeout) == DEFAULT_DRAIN_TIMEOUT_SECS * NANOS_PER_SEC,
            c.force_on_timeout,
    {
        ShutdownConfig {
            flush_timeout: duration_from_secs(DEFAULT_FLUSH_TIMEOUT_SECS),
            drain_timeout: duration_from_secs(DEFAULT_DRAIN_TIMEOUT_SECS),
            force_on_timeout: true,
        }
    }
}

/// Why a configuration with flush timeout `f` and drain timeout `d` (in
/// nanoseconds) is refused, if it is.
pub open spec fn config_rejection(f: nat, d: nat) -> Option<Seq<char>> {
    if f == 0 {
        Some("flush_timeout must be positive"@)
    } else if d == 0 {
        Some("drain_timeout must be positive"@)
    } else if f > MAX_FLUSH_TIMEOUT_SECS * NANOS_PER_SEC {
        Some("flush_timeout exceeds maximum of 60s"@)
    } else if d > MAX_DRAIN_TIMEOUT_SECS * NANOS_PER_SEC {
        Some("drain_timeout exceeds maximum of 300s"@)
    } else if d < f {
        Some("drain_timeout must be >= flush_timeout"@)
    } else {
        None
    }
}

impl ShutdownConfig {
    /// Validates the configuration: both timeouts positive, the flush
    /// timeout at most 60 s, the drain timeout at most 300 s and at least
    /// the flush timeout.
    pub fn validate(&self) -> (r: TelemetryResult<()>)
        ensures
            r is Ok <==> config_rejection(duration_nanos(self.flush_timeout), duration_nanos(self.drain_timeout)) is None,
            r matches Err(e) ==> e matches TelemetryError::ShutdownError(m) && m@ == config_rejection(
                duration_nanos(self.flush_timeout),
                duration_nanos(self.drain_timeout),
            )->0,
    {
        let f = duration_as_nanos(&self.flush_timeout);
        let d = duration_as_nanos(&self.drain_timeout);
        if f == 0 {
            return Err(TelemetryError::ShutdownError("flush_timeout must be positive".to_owned()));
        }
        if d == 0 {
            return Err(TelemetryError::ShutdownError("drain_timeout must be positive".to_owned()));
        }
        if f > 60_000_000_000u128 {
            return Err(TelemetryError::ShutdownError("flush_timeout exceeds maximum of 60s".to_owned()));
        }
        if d > 300_000_000_000u128 {
            return Err(TelemetryError::ShutdownError("drain_timeout exceeds maximum of 300s".to_owned()));
        }
        if d < f {
            return Err(TelemetryError::ShutdownError("drain_timeout must be >= flush_timeout".to_owned()));
        }
        Ok(())
    }
}

/// Ordered phases of the shutdown lifecycle.
#[derive(Debug, Clone, Copy, PartialEq, Eq, PartialOrd, Ord, Structural)]
pub enum ShutdownPhase {
    /// Normal operation.
    Running,
    /// Shutdown initiated; new spans should be rejected.
    Draining,
    /// Pending spans are being flushed.
    Flushing,
    /// The exporter is being stopped.
    Stopping,
    /// Shutdown complete.
    Completed,
}

/// Position of a phase in the lifecycle.
pub open spec fn phase_rank(p: ShutdownPhase) -> nat {
    match p {
        ShutdownPhase::Running => 0,
        ShutdownPhase::Draining => 1,
        ShutdownPhase::Flushing => 2,
        ShutdownPhase::Stopping => 3,
        ShutdownPhase::Completed => 4,
    }
}

/// The lower-case name of a phase.
pub open spec fn phase_name(p: ShutdownPhase) -> Seq<char> {
    match p {
        ShutdownPhase::Running => "running"@,
        ShutdownPhase::Draining => "draining"@,
        ShutdownPhase::Flushing => "flushing"@,
        ShutdownPhase::Stopping => "stopping"@,
        ShutdownPhase::Completed => "completed"@,
    }
}

impl ShutdownPhase {
    /// The lower-case name of the phase.
    pub fn to_string(&self) -> (s: String)
        ensures
            s@ == phase_name(*self),
    {
        match self {
            ShutdownPhase::Running => "running".to_owned(),
            ShutdownPhase::Draining => "draining".to_owned(),
            ShutdownPhase::Flushing => "flushing".to_owned(),
            ShutdownPhase::Stopping => "stopping".to_owned(),
            ShutdownPhase::Completed => "completed".to_owned(),
        }
    }
}

/// Errors specific to the shutdown coordinator.
#[derive(Debug, Clone)]
pub enum ShutdownError {
    /// Shutdown has already completed.
    AlreadyCompleted,
    /// The operation needs phase `expected` but the coordinator is in `current`.
    InvalidPhase { expected: ShutdownPhase, current: ShutdownPhase },
    /// The drain window expired after the given time.
    DrainTimeout(Duration),
    /// The flush timed out after the given time.
    FlushTimeout(Duration),
    /// More pending spans than [`MAX_PENDING_SPANS`].
    TooManyPendingSpans(usize),
    /// Configuration error.
    Config(String),
}

/// The message each shutdown error displays.
pub open spec fn shutdown_error_message(e: ShutdownError) -> Seq<char> {
    match e {
        ShutdownError::AlreadyCompleted => "Shutdown already completed"@,
        ShutdownError::InvalidPhase { expected, current } => "Invalid phase transition: expected "@
            + phase_name(expected) + ", current "@ + phase_name(current),
        ShutdownError::DrainTimeout(d) => "Drain timeout exceeded after "@ + duration_debug_text(d),
        ShutdownError::FlushTimeout(d) => "Flush timeout exceeded after "@ + duration_debug_text(d),
        ShutdownError::TooManyPendingSpans(n) => "Too many pending spans: "@ + decimal(n as nat)
            + " exceeds maximum of 10000"@,
        ShutdownError::Config(s) => "Configuration error: "@ + s@,
    }
}

impl ShutdownError {
    /// The human-readable message of this error.
    pub fn to_string(&self) -> (s: String)
        ensures
            s@ == shutdown_error_message(*self),
    {
        match self {
            ShutdownError::AlreadyCompleted => "Shutdown already completed".to_owned(),
            ShutdownError::InvalidPhase { expected, current } => {
                let mut s = concat("Invalid phase transition: expected ", expected.to_string().as_str());
                s.append(", current ");
                s.append(current.to_string().as_str());
                s
            },
            ShutdownError::DrainTimeout(d) => concat(
                "Drain timeout exceeded after ",
                duration_debug_string(d).as_str(),
            ),
            ShutdownError::FlushTimeout(d) => concat(
                "Flush timeout exceeded after ",
                duration_debug_string(d).as_str(),
            ),
            ShutdownError::TooManyPendingSpans(n) => {
                let mut s = concat("Too many pending spans: ", decimal_string(*n as u64).as_str());
                s.append(" exceeds maximum of 10000");
                s
            },
            ShutdownError::Config(m) => concat("Configuration error: ", m.as_str()),
        }
    }
}

impl ShutdownError {
    /// The telemetry error reporting this shutdown error (a `ShutdownError`
    /// carrying its message).
    pub fn to_telemetry_error(&self) -> (r: TelemetryError)
        ensures
            r matches TelemetryError::ShutdownError(m) && m@ == shutdown_error_message(*self),
    {
        TelemetryError::ShutdownError(self.to_string())
    }
}

/// Metrics collected during a shutdown run.
#[derive(Debug, Clone)]
pub struct ShutdownMetrics {
    /// Number of spans flushed during shutdown.
    pub spans_flushed: usize,
    /// Number of spans dropped because the drain window expired.
    pub spans_dropped: usize,
    /// Time from `initiate` to `complete`.
    pub total_duration: Option<Duration>,
    /// Whether shutdown completed within the drain window.
    pub completed_within_timeout: bool,
}

impl Default for ShutdownMetrics {
    fn default() -> (m: Self)
        ensures
            m.spans_flushed == 0,
            m.spans_dropped == 0,
            m.total_duration is None,
            !m.completed_within_timeout,
    {
        ShutdownMetrics {
            spans_flushed: 0,
            spans_dropped: 0,
            total_duration: None,
            completed_within_timeout: false,
        }
    }
}

/// Abstract state of a [`ShutdownCoordinator`]; times are clock readings in
/// nanoseconds.
pub struct ShutdownView {
    pub phase: ShutdownPhase,
    pub drain_started_at: Option<u64>,
    pub spans_flushed: nat,
    pub spans_dropped: nat,
    /// Length in nanoseconds of the recorded total duration, if any.
    pub total_duration: Option<nat>,
    pub completed_within_timeout: bool,
    pub flush_timeout: nat,
    pub drain_timeout: nat,
    pub force_on_timeout: bool,
}

/// Time elapsed since the drain window opened, at `now`, if it has opened
/// (a reading earlier than the start counts as no time elapsed).
pub open spec fn elapsed_since_drain(s: ShutdownView, now: u64) -> Option<nat> {
    match s.drain_started_at {
        Some(t) => Some(if now >= t { (now - t) as nat } else { 0 }),
        None => None,
    }
}

/// The error owed when an operation needs phase `expected`.
pub open spec fn phase_error(s: ShutdownView, expected: ShutdownPhase) -> ShutdownError {
    ShutdownError::InvalidPhase { expected, current: s.phase }
}

struct CoordinatorState {
    phase: ShutdownPhase,
    drain_started_at: Option<u64>,
    metrics: ShutdownMetrics,
}

/// Coordinator for telemetry graceful shutdown.
pub struct ShutdownCoordinator {
    config: ShutdownConfig,
    state: CoordinatorState,
    drain_timeout: u128,
    epoch: Instant,
}

impl View for ShutdownCoordinator {
    type V = ShutdownView;

    closed spec fn view(&self) -> ShutdownView {
        ShutdownView {
            phase: self.state.phase,
            drain_started_at: self.state.drain_started_at,
            spans_flushed: self.state.metrics.spans_flushed as nat,
            spans_dropped: self.state.metrics.spans_dropped as nat,
            total_duration: match self.state.metrics.total_duration {
                Some(d) => Some(duration_nanos(d)),
                None => None,
            },
            completed_within_timeout: self.state.metrics.completed_within_timeout,
            flush_timeout: duration_nanos(self.config.flush_timeout),
            drain_timeout: duration_nanos(self.config.drain_timeout),
            force_on_timeout: self.config.force_on_timeout,
        }
    }
}

impl ShutdownCoordinator {
    /// The cached drain timeout agrees with the configuration.
    pub closed spec fn wf(&self) -> bool {
        self.drain_timeout == duration_nanos(self.config.drain_timeout)
    }

    /// Creates a coordinator in the `Running` phase with empty metrics,
    /// after validating `config` (see [`ShutdownConfig::validate`]).
    pub fn new(config: ShutdownConfig) -> (r: TelemetryResult<Self>)
        ensures
            r is Ok <==> config_rejection(duration_nanos(config.flush_timeout), duration_nanos(config.drain_timeout)) is None,
            r matches Err(e) ==> e is ShutdownError,
            r matches Ok(c) ==> c.wf() && c@ == (ShutdownView {
                phase: ShutdownPhase::Running,
                drain_started_at: None,
                spans_flushed: 0,
                spans_dropped: 0,
                total_duration: None,
                completed_within_timeout: false,
                flush_timeout: duration_nanos(config.flush_timeout),
                drain_timeout: duration_nanos(config.drain_timeout),
                force_on_timeout: config.force_on_timeout,
            }),
    {
        match config.validate() {
            Ok(()) => {},
            Err(e) => {
                return Err(e);
            },
        }
        let drain_timeout = duration_as_nanos(&config.drain_timeout);
        Ok(ShutdownCoordinator {
            config,
            state: CoordinatorState {
                phase: ShutdownPhase::Running,
                drain_started_at: None,
                metrics: ShutdownMetrics::default(),
            },
            drain_timeout,
            epoch: instant_now(),
        })
    }

    /// Creates a coordinator with the default configuration.
    pub fn with_defaults() -> (r: TelemetryResult<Self>)
        ensures
            r matches Ok(c) ==> c.wf() && c@.phase == ShutdownPhase::Running && c@.drain_started_at
                is None && c@.spans_flushed == 0 && c@.spans_dropped == 0
                && c@.total_duration is None && c@.flush_timeout == DEFAULT_FLUSH_TIMEOUT_SECS * NANOS_PER_SEC
                && c@.drain_timeout == DEFAULT_DRAIN_TIMEOUT_SECS * NANOS_PER_SEC && c@.force_on_timeout,
            r is Ok,
    {
        Self::new(ShutdownConfig::default())
    }

    /// The coordinator's current clock reading, in nanoseconds.
    pub fn now(&self) -> u64 {
        elapsed_nanos(&self.epoch)
    }

    /// The current phase.
    pub fn phase(&self) -> (p: ShutdownPhase)
        ensures
            p == self@.phase,
    {
        self.state.phase
    }

    /// Whether the coordinator is `Running`.
    pub fn is_running(&self) -> (b: bool)
        ensures
            b == (self@.phase == ShutdownPhase::Running),
    {
        self.state.phase == ShutdownPhase::Running
    }

    /// Whether the shutdown has completed.
    pub fn is_completed(&self) -> (b: bool)
        ensures
            b == (self@.phase == ShutdownPhase::Completed),
    {
        self.state.phase == ShutdownPhase::Completed
    }

    /// Initiates the shutdown at clock reading `now`: `Running → Draining`,
    /// opening the drain window at `now`.
    pub fn initiate_at(&mut self, now: u64) -> (r: Result<(), ShutdownError>)
        requires
            old(self).wf(),
        ensures
            final(self).wf(),
            phase_rank(final(self)@.phase) >= phase_rank(old(self)@.phase),
            old(self)@.phase == ShutdownPhase::Completed ==> (r matches Err(e) && e is AlreadyCompleted
                && final(self)@ == old(self)@),
            old(self)@.phase != ShutdownPhase::Completed && old(self)@.phase != ShutdownPhase::Running
                ==> (r matches Err(e) && e == phase_error(old(self)@, ShutdownPhase::Running)
                && final(self)@ == old(self)@),
            old(self)@.phase == ShutdownPhase::Running ==> r is Ok && final(self)@ == (ShutdownView {
                phase: ShutdownPhase::Draining,
                drain_started_at: Some(now),
                ..old(self)@
            }),
    {
        if self.state.phase == ShutdownPhase::Completed {
            return Err(ShutdownError::AlreadyCompleted);
        }
        if self.state.phase != ShutdownPhase::Running {
            return Err(ShutdownError::InvalidPhase { expected: ShutdownPhase::Running, current: self.state.phase });
        }
        self.state.phase = ShutdownPhase::Draining;
        self.state.drain_started_at = Some(now);
        Ok(())
    }

    /// Initiates the shutdown at the current clock reading.
    pub fn initiate(&mut self) -> (r: Result<(), ShutdownError>)
        requires
            old(self).wf(),
        ensures
            final(self).wf(),
            phase_rank(final(self)@.phase) >= phase_rank(old(self)@.phase),
            old(self)@.phase == ShutdownPhase::Completed ==> (r matches Err(e) && e is AlreadyCompleted
                && final(self)@ == old(self)@),
            old(self)@.phase != ShutdownPhase::Completed && old(self)@.phase != ShutdownPhase::Running
                ==> (r matches Err(e) && e == phase_error(old(self)@, ShutdownPhase::Running)
                && final(self)@ == old(self)@),
            old(self)@.phase == ShutdownPhase::Running ==> r is Ok && final(self)@.phase == ShutdownPhase::Draining
                && final(self)@.drain_started_at is Some && final(self)@ == (ShutdownView {
                drain_started_at: final(self)@.drain_started_at,
                phase: ShutdownPhase::Draining,
                ..old(self)@
            }),
    {
        let now = self.now();
        self.initiate_at(now)
    }

    /// Records `pending_spans` at clock reading `now` and advances
    /// `Draining → Flushing`. At most [`MAX_PENDING_SPANS`] are accepted
    /// (checked first, leaving the state unchanged). Once in `Flushing`: if
    /// the drain window has expired the spans are dropped (`Ok(0)`) when
    /// `force_on_timeout` is set and the call fails with `DrainTimeout`
    /// otherwise; else all of them are flushed.
    pub fn flush_pending_at(&mut self, pending_spans: usize, now: u64) -> (r: Result<usize, ShutdownError>)
        requires
            old(self).wf(),
        ensures
            final(self).wf(),
            phase_rank(final(self)@.phase) >= phase_rank(old(self)@.phase),
            pending_spans > MAX_PENDING_SPANS ==> (r matches Err(e) && e == ShutdownError::TooManyPendingSpans(pending_spans)
                && final(self)@ == old(self)@),
            pending_spans <= MAX_PENDING_SPANS && old(self)@.phase != ShutdownPhase::Draining ==> (r matches Err(e)
                && e == phase_error(old(self)@, ShutdownPhase::Draining) && final(self)@ == old(self)@),
            pending_spans <= MAX_PENDING_SPANS && old(self)@.phase == ShutdownPhase::Draining ==> ({
                let elapsed = elapsed_since_drain(old(self)@, now);
                let expired = elapsed is Some && elapsed->0 >= old(self)@.drain_timeout;
                if expired && old(self)@.force_on_timeout {
                    r == Ok::<usize, ShutdownError>(0) && final(self)@ == (ShutdownView {
                        phase: ShutdownPhase::Flushing,
                        spans_dropped: pending_spans as nat,
                        ..old(self)@
                    })
                } else if expired {
                    r matches Err(e) && e matches ShutdownError::DrainTimeout(d) && duration_nanos(d)
                        == elapsed->0 && final(self)@ == (ShutdownView {
                        phase: ShutdownPhase::Flushing,
                        ..old(self)@
                    })
                } else {
                    r == Ok::<usize, ShutdownError>(pending_spans) && final(self)@ == (ShutdownView {
                        phase: ShutdownPhase::Flushing,
                        spans_flushed: pending_spans as nat,
                        ..old(self)@
                    })
                }
            }),
    {
        if pending_spans > MAX_PENDING_SPANS {
            return Err(ShutdownError::TooManyPendingSpans(pending_spans));
        }
        if self.state.phase != ShutdownPhase::Draining {
            return Err(ShutdownError::InvalidPhase { expected: ShutdownPhase::Draining, current: self.state.phase });
        }
        self.state.phase = ShutdownPhase::Flushing;
        match self.state.drain_started_at {
            Some(t) => {
                let elapsed: u64 = if now >= t {
                    now - t
                } else {
                    0
                };
                if elapsed as u128 >= self.drain_timeout {
                    if self.config.force_on_timeout {
                        self.state.metrics.spans_dropped = pending_spans;
                        return Ok(0);
                    } else {
                        return Err(ShutdownError::DrainTimeout(duration_from_nanos(elapsed)));
                    }
                }
            },
            None => {},
        }
        self.state.metrics.spans_flushed = pending_spans;
        Ok(pending_spans)
    }

    /// Records `pending_spans` at the current clock reading (see
    /// [`Self::flush_pending_at`]).
    pub fn flush_pending(&mut self, pending_spans: usize) -> (r: Result<usize, ShutdownError>)
        requires
            old(self).wf(),
        ensures
            final(self).wf(),
            phase_rank(final(self)@.phase) >= phase_rank(old(self)@.phase),
            pending_spans > MAX_PENDING_SPANS ==> (r matches Err(e) && e == ShutdownError::TooManyPendingSpans(pending_spans)
                && final(self)@ == old(self)@),
            pending_spans <= MAX_PENDING_SPANS && old(self)@.phase != ShutdownPhase::Draining ==> (r matches Err(e)
                && e == phase_error(old(self)@, ShutdownPhase::Draining) && final(self)@ == old(self)@),
            pending_spans <= MAX_PENDING_SPANS && old(self)@.phase == ShutdownPhase::Draining ==> final(self)@.phase
                == ShutdownPhase::Flushing,
            r matches Ok(n) ==> (n == pending_spans && final(self)@.spans_flushed == pending_spans) || (n == 0
                && final(self)@.spans_dropped == pending_spans && old(self)@.force_on_timeout),
    {
        let now = self.now();
        self.flush_pending_at(pending_spans, now)
    }

    /// Advances `Flushing → Stopping`.
    pub fn begin_stop(&mut self) -> (r: Result<(), ShutdownError>)
        requires
            old(self).wf(),
        ensures
            final(self).wf(),
            phase_rank(final(self)@.phase) >= phase_rank(old(self)@.phase),
            old(self)@.phase == ShutdownPhase::Flushing ==> r is Ok && final(self)@ == (ShutdownView {
                phase: ShutdownPhase::Stopping,
                ..old(self)@
            }),
            old(self)@.phase != ShutdownPhase::Flushing ==> (r matches Err(e) && e == phase_error(
                old(self)@,
                ShutdownPhase::Flushing,
            ) && final(self)@ == old(self)@),
    {
        if self.state.phase != ShutdownPhase::Flushing {
            return Err(ShutdownError::InvalidPhase { expected: ShutdownPhase::Flushing, current: self.state.phase });
        }
        self.state.phase = ShutdownPhase::Stopping;
        Ok(())
    }

    /// Completes the shutdown at clock reading `now`: `Stopping →
    /// Completed`, recording the total duration (the time since the drain
    /// window opened, or zero) and whether it is within the drain timeout,
    /// and returns the metrics.
    pub fn complete_at(&mut self, now: u64) -> (r: Result<ShutdownMetrics, ShutdownError>)
        requires
            old(self).wf(),
        ensures
            final(self).wf(),
            phase_rank(final(self)@.phase) >= phase_rank(old(self)@.phase),
            old(self)@.phase == ShutdownPhase::Completed ==> (r matches Err(e) && e is AlreadyCompleted
                && final(self)@ == old(self)@),
            old(self)@.phase != ShutdownPhase::Completed && old(self)@.phase != ShutdownPhase::Stopping
                ==> (r matches Err(e) && e == phase_error(old(self)@, ShutdownPhase::Stopping)
                && final(self)@ == old(self)@),
            old(self)@.phase == ShutdownPhase::Stopping ==> ({
                let total: nat = match elapsed_since_drain(old(self)@, now) {
                    Some(t) => t,
                    None => 0,
                };
                &&& final(self)@ == (ShutdownView {
                    phase: ShutdownPhase::Completed,
                    total_duration: Some(total),
                    completed_within_timeout: total <= old(self)@.drain_timeout,
                    ..old(self)@
                })
                &&& r is Ok
                &&& r->Ok_0.spans_flushed == final(self)@.spans_flushed
                &&& r->Ok_0.spans_dropped == final(self)@.spans_dropped
                &&& r->Ok_0.total_duration is Some
                &&& duration_nanos(r->Ok_0.total_duration->0) == total
                &&& r->Ok_0.completed_within_timeout == (total <= old(self)@.drain_timeout)
            }),
    {
        if self.state.phase == ShutdownPhase::Completed {
            return Err(ShutdownError::AlreadyCompleted);
        }
        if self.state.phase != ShutdownPhase::Stopping {
            return Err(ShutdownError::InvalidPhase { expected: ShutdownPhase::Stopping, current: self.state.phase });
        }
        self.state.phase = ShutdownPhase::Completed;
        let total: u64 = match self.state.drain_started_at {
            Some(t) => if now >= t {
                now - t
            } else {
                0
            },
            None => 0,
        };
        self.state.metrics.total_duration = Some(duration_from_nanos(total));
        self.state.metrics.completed_within_timeout = total as u128 <= self.drain_timeout;
        Ok(self.metrics())
    }

    /// Completes the shutdown at the current clock reading (see
    /// [`Self::complete_at`]).
    pub fn complete(&mut self) -> (r: Result<ShutdownMetrics, ShutdownError>)
        requires
            old(self).wf(),
        ensures
            final(self).wf(),
            phase_rank(final(self)@.phase) >= phase_rank(old(self)@.phase),
            old(self)@.phase == ShutdownPhase::Completed ==> (r matches Err(e) && e is AlreadyCompleted
                && final(self)@ == old(self)@),
            old(self)@.phase != ShutdownPhase::Completed && old(self)@.phase != ShutdownPhase::Stopping
                ==> (r matches Err(e) && e == phase_error(old(self)@, ShutdownPhase::Stopping)
                && final(self)@ == old(self)@),
            old(self)@.phase == ShutdownPhase::Stopping ==> final(self)@.phase == ShutdownPhase::Completed
                && final(self)@.total_duration is Some && r is Ok && r->Ok_0.spans_flushed
                == old(self)@.spans_flushed && r->Ok_0.spans_dropped == old(self)@.spans_dropped
                && r->Ok_0.total_duration is Some,
    {
        let now = self.now();
        self.complete_at(now)
    }

    /// A snapshot of the current metrics.
    pub fn metrics(&self) -> (m: ShutdownMetrics)
        ensures
            m.spans_flushed == self@.spans_flushed,
            m.spans_dropped == self@.spans_dropped,
            m.completed_within_timeout == self@.completed_within_timeout,
            match (m.total_duration, self@.total_duration) {
                (Some(d), Some(n)) => duration_nanos(d) == n,
                (None, None) => true,
                _ => false,
            },
    {
        let total_duration = match &self.state.metrics.total_duration {
            Some(d) => Some(d.clone()),
            None => None,
        };
        ShutdownMetrics {
            spans_flushed: self.state.metrics.spans_flushed,
            spans_dropped: self.state.metrics.spans_dropped,
            total_duration,
            completed_within_timeout: self.state.metrics.completed_within_timeout,
        }
    }

    /// The time elapsed since the drain window opened, at clock reading
    /// `now`, or `None` before the shutdown was initiated.
    pub fn elapsed_drain_time_at(&self, now: u64) -> (r: Option<Duration>)
        ensures
            match (r, elapsed_since_drain(self@, now)) {
                (Some(d), Some(n)) => duration_nanos(d) == n,
                (None, None) => true,
                _ => false,
            },
    {
        match self.state.drain_started_at {
            Some(t) => Some(duration_from_nanos(if now >= t {
                now - t
            } else {
                0
            })),
            None => None,
        }
    }

    /// The time elapsed since the drain window opened, or `None` before the
    /// shutdown was initiated.
    pub fn elapsed_drain_time(&self) -> (r: Option<Duration>)
        ensures
            r is Some <==> self@.drain_started_at is Some,
    {
        let now = self.now();
        self.elapsed_drain_time_at(now)
    }

    /// Whether the drain window has expired at clock reading `now`.
    pub fn drain_window_expired_at(&self, now: u64) -> (b: bool)
        requires
            self.wf(),
        ensures
            b == (elapsed_since_drain(self@, now) matches Some(e) && e >= self@.drain_timeout),
    {
        match self.state.drain_started_at {
            Some(t) => {
                let e: u64 = if now >= t {
                    now - t
                } else {
                    0
                };
                e as u128 >= self.drain_timeout
            },
            None => false,
        }
    }

    /// Whether the drain window has expired, at the coordinator's current
    /// clock reading; never before initiation.
    pub fn drain_window_expired(&self) -> (b: bool)
        requires
            self.wf(),
        ensures
            self@.drain_started_at is None ==> !b,
            exists|now: u64|
                b == (#[trigger] elapsed_since_drain(self@, now) matches Some(e) && e >= self@.drain_timeout),
    {
        let now = self.now();
        self.drain_window_expired_at(now)
    }
}

} // verus!
