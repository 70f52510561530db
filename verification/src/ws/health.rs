//! Health of a WebSocket connection.
//!
//! A connection is healthy, degraded (up but impaired) or unhealthy:
//!
//! ```text
//! Healthy ──► Degraded ──► Unhealthy
//!    ▲                         │
//!    └─────── mark_healthy ────┘
//! ```
//!
//! Marking a connection healthy also notes the time of the check; a new
//! check is due once the check interval has elapsed since.

use std::time::{Duration, Instant};
use vstd::prelude::*;

use crate::clock::{duration_as_nanos, duration_from_secs, duration_nanos, elapsed_since, instant_now, NANOS_PER_SEC};
use crate::text::{chars_of, owned};
use crate::validation::{
    char_is_control, is_control_char, required_error, sanitize_string, sanitized, validate_required,
    validation_message,
};

verus! {

/// Health of a connection.
#[derive(Debug, Clone, Copy, PartialEq, Eq, Structural)]
pub enum HealthStatus {
    Healthy,
    /// Up, but with raised errors or latency.
    Degraded,
    Unhealthy,
}

/// What a [`HealthChecker`] holds: whether the connection is up (healthy or
/// degraded) and whether it is degraded.
pub struct HealthFlags {
    pub up: bool,
    pub degraded: bool,
}

/// The status that the flags stand for: not up is unhealthy, whatever the
/// degraded flag says.
pub open spec fn status_of(f: HealthFlags) -> HealthStatus {
    if !f.up {
        HealthStatus::Unhealthy
    } else if f.degraded {
        HealthStatus::Degraded
    } else {
        HealthStatus::Healthy
    }
}

/// Health of one WebSocket connection.
pub struct HealthChecker {
    up: bool,
    degraded: bool,
    last_check: Instant,
    check_interval: Duration,
    auth_key: Option<String>,
}

impl View for HealthChecker {
    type V = HealthFlags;

    closed spec fn view(&self) -> HealthFlags {
        HealthFlags { up: self.up, degraded: self.degraded }
    }
}

/// The message of an input holding a control character.
pub open spec fn control_input_message() -> Seq<char> {
    "input contains invalid control characters"@
}

/// What checking a health-check input gives: nothing for the empty input;
/// a refusal for one with a control character; else the refusal, if any,
/// of its sanitized text as a required field.
pub open spec fn input_error(input: Seq<char>) -> Option<Seq<char>> {
    if input.len() == 0 {
        None
    } else if exists|i: int| 0 <= i < input.len() && is_control_char(#[trigger] input[i]) {
        Some(control_input_message())
    } else {
        match required_error(sanitized(input)) {
            Some(m) => Some(validation_message("health_input"@, m)),
            None => None,
        }
    }
}

impl HealthChecker {
    /// A healthy connection, checked now, to be checked again every
    /// `check_interval`.
    pub fn new(check_interval: Duration, auth_key: Option<String>) -> (h: Self)
        ensures
            h@ == (HealthFlags { up: true, degraded: false }),
            h.check_interval() == check_interval,
            h.auth_key() == auth_key,
    {
        HealthChecker { up: true, degraded: false, last_check: instant_now(), check_interval, auth_key }
    }

    /// The interval between checks.
    pub closed spec fn check_interval(&self) -> Duration {
        self.check_interval
    }

    /// The key that health-check access is authenticated with, if any.
    pub closed spec fn auth_key(&self) -> Option<String> {
        self.auth_key
    }

    /// The interval between checks.
    pub fn interval(&self) -> (d: Duration)
        ensures
            d == self.check_interval(),
    {
        self.check_interval
    }

    /// Whether the connection is up: healthy or degraded.
    pub fn is_healthy(&self) -> (r: bool)
        ensures
            r == self@.up,
    {
        self.up
    }

    /// The three-level status.
    pub fn status(&self) -> (s: HealthStatus)
        ensures
            s == status_of(self@),
    {
        if !self.up {
            HealthStatus::Unhealthy
        } else if self.degraded {
            HealthStatus::Degraded
        } else {
            HealthStatus::Healthy
        }
    }

    /// Marks the connection fully healthy, clearing the degraded flag, and
    /// notes the time of the check.
    pub fn mark_healthy(&mut self)
        ensures
            final(self)@ == (HealthFlags { up: true, degraded: false }),
            final(self).check_interval() == old(self).check_interval(),
            final(self).auth_key() == old(self).auth_key(),
    {
        self.degraded = false;
        self.up = true;
        self.last_check = instant_now();
    }

    /// Marks the connection degraded: up, but impaired.
    pub fn mark_degraded(&mut self)
        ensures
            final(self)@ == (HealthFlags { up: true, degraded: true }),
            final(self).check_interval() == old(self).check_interval(),
            final(self).auth_key() == old(self).auth_key(),
    {
        self.up = true;
        self.degraded = true;
    }

    /// Marks the connection unhealthy.
    pub fn mark_unhealthy(&mut self)
        ensures
            final(self)@ == (HealthFlags { up: false, degraded: old(self)@.degraded }),
            final(self).check_interval() == old(self).check_interval(),
            final(self).auth_key() == old(self).auth_key(),
    {
        self.up = false;
    }

    /// Whether a check is due when `elapsed` has passed since the last one:
    /// once the check interval has elapsed.
    pub fn check_due_after(&self, elapsed: &Duration) -> (r: bool)
        ensures
            r == (duration_nanos(*elapsed) >= duration_nanos(self.check_interval())),
    {
        duration_as_nanos(elapsed) >= duration_as_nanos(&self.check_interval)
    }

    /// Whether a check is due now, by the clock: whether the time read as
    /// elapsed since the last check has reached the check interval.
    pub fn should_check(&self) -> (r: bool)
        ensures
            exists|elapsed: Duration| r == (#[trigger] duration_nanos(elapsed) >= duration_nanos(self.check_interval())),
    {
        let elapsed = elapsed_since(&self.last_check);
        let r = self.check_due_after(&elapsed);
        assert(r == (duration_nanos(elapsed) >= duration_nanos(self.check_interval())));
        r
    }

    /// Time since the last check, by the clock.
    pub fn time_since_last_check(&self) -> (d: Duration) {
        elapsed_since(&self.last_check)
    }

    /// Checks an input of a health check: the empty input is accepted;
    /// one with a control character is refused outright; any other must
    /// not sanitize to blank text.
    pub fn validate_input(&self, input: &str) -> (r: Result<(), String>)
        ensures
            match input_error(input@) {
                None => r is Ok,
                Some(m) => r matches Err(e) && e@ == m,
            },
    {
        let cs = chars_of(input);
        if cs.len() == 0 {
            return Ok(());
        }
        let mut i: usize = 0;
        while i < cs.len()
            invariant
                cs@ == input@,
                i <= cs@.len(),
                forall|j: int| 0 <= j < i ==> !is_control_char(#[trigger] input@[j]),
            decreases cs@.len() - i,
        {
            if char_is_control(cs[i]) {
                assert(is_control_char(input@[i as int]));
                return Err(owned("input contains invalid control characters"));
            }
            i = i + 1;
        }
        let clean = sanitize_string(input);
        match validate_required("health_input", clean.as_str()) {
            Ok(()) => Ok(()),
            Err(e) => Err(e.to_string()),
        }
    }
}

impl Default for HealthChecker {
    fn default() -> (h: Self)
        ensures
            h@ == (HealthFlags { up: true, degraded: false }),
            duration_nanos(h.check_interval()) == 30 * NANOS_PER_SEC,
            h.auth_key() is None,
    {
        Self::new(duration_from_secs(30), None)
    }
}

} // verus!
