//! Health checks with input validation, redacted results and call-frequency
//! caching.
//!
//! A check reuses its cached result while it is fresh. Within one interval,
//! only a limited number of checks are computed afresh; beyond that, the
//! cached result is returned even when stale. Clock readings are
//! nanoseconds since the manager was created.

use std::time::Instant;
use vstd::prelude::*;

use crate::clock::{elapsed_nanos, instant_now, unix_time_millis, NANOS_PER_SEC};
use crate::telemetry::input_validation::byte_len;
use crate::text::{chars_of, owned};

verus! {

/// Caching and rate limiting of health checks.
#[derive(Debug, Clone, Copy, PartialEq, Eq, Structural)]
pub struct HealthCheckConfig {
    /// How long a result stays fresh, and how long a counting interval lasts,
    /// in seconds.
    pub cache_duration_secs: u64,
    /// Checks computed afresh per interval before the cache is used.
    pub max_uncached_checks_per_interval: u32,
}

impl Default for HealthCheckConfig {
    /// Five seconds, two fresh checks per interval.
    fn default() -> (c: Self)
        ensures
            c.cache_duration_secs == 5,
            c.max_uncached_checks_per_interval == 2,
    {
        HealthCheckConfig { cache_duration_secs: 5, max_uncached_checks_per_interval: 2 }
    }
}

/// Status of one component; sensitive values are never included.
#[derive(Debug)]
pub struct ComponentStatus {
    pub status: String,
    pub message: Option<String>,
}

impl ComponentStatus {
    /// A healthy component, with no message.
    pub fn healthy() -> (c: Self)
        ensures
            c.status@ == "healthy"@,
            c.message is None,
    {
        ComponentStatus { status: owned("healthy"), message: None }
    }

    /// An unhealthy component, with `msg`.
    pub fn unhealthy(msg: String) -> (c: Self)
        ensures
            c.status@ == "unhealthy"@,
            c.message == Some(msg),
    {
        ComponentStatus { status: owned("unhealthy"), message: Some(msg) }
    }

    /// A copy of this status.
    pub fn duplicate(&self) -> (c: Self)
        ensures
            c == *self,
    {
        let message = match &self.message {
            Some(m) => Some(m.clone()),
            None => None,
        };
        ComponentStatus { status: self.status.clone(), message }
    }
}

/// The components a health check reports on.
#[derive(Debug)]
pub struct HealthComponents {
    pub database: ComponentStatus,
    pub telemetry_export: ComponentStatus,
    pub message_queue: ComponentStatus,
}

/// The result of a health check.
#[derive(Debug)]
pub struct HealthCheckResult {
    pub status: String,
    /// Milliseconds since the Unix epoch when the check was computed.
    pub timestamp: u64,
    pub components: HealthComponents,
}

impl HealthCheckResult {
    /// A copy of this result.
    pub fn duplicate(&self) -> (r: Self)
        ensures
            r == *self,
    {
        HealthCheckResult {
            status: self.status.clone(),
            timestamp: self.timestamp,
            components: HealthComponents {
                database: self.components.database.duplicate(),
                telemetry_export: self.components.telemetry_export.duplicate(),
                message_queue: self.components.message_queue.duplicate(),
            },
        }
    }
}

/// Whether a character is alphabetic or numeric in Unicode.
pub uninterp spec fn alphanumeric(c: char) -> bool;

/// Calls `char::is_alphanumeric` (Unicode `Alphabetic` or `Numeric`); the
/// result is named [`alphanumeric`].
#[verifier::external_body]
fn char_is_alphanumeric(c: char) -> (r: bool)
    ensures
        r == alphanumeric(c),
{
    c.is_alphanumeric()
}

/// The error owed for a health check of type `check_type`, if any.
pub open spec fn check_type_error(check_type: Seq<char>) -> Option<Seq<char>> {
    if check_type.len() == 0 {
        Some("Health check type cannot be empty"@)
    } else if byte_len(check_type) > 256 {
        Some("Health check type exceeds maximum length"@)
    } else if !(forall|i: int|
        0 <= i < check_type.len() ==> alphanumeric(#[trigger] check_type[i]) || check_type[i] == '_') {
        Some("Health check type contains invalid characters"@)
    } else {
        None
    }
}

/// Validates a health check type: non-empty, at most 256 bytes, and made of
/// alphanumeric characters and underscores.
pub fn validate_request(check_type: &str) -> (r: Result<(), String>)
    ensures
        match check_type_error(check_type@) {
            None => r is Ok,
            Some(m) => r matches Err(e) && e@ == m,
        },
{
    if check_type.is_empty() {
        return Err(owned("Health check type cannot be empty"));
    }
    if check_type.len() > 256 {
        return Err(owned("Health check type exceeds maximum length"));
    }
    let chars = chars_of(check_type);
    let mut i: usize = 0;
    while i < chars.len()
        invariant
            i <= chars.len(),
            chars@ == check_type@,
            check_type@.len() > 0,
            byte_len(check_type@) <= 256,
            forall|j: int| 0 <= j < i ==> alphanumeric(#[trigger] check_type@[j]) || check_type@[j] == '_',
        decreases chars.len() - i,
    {
        let c = chars[i];
        if !(char_is_alphanumeric(c) || c == '_') {
            proof {
                assert(!(alphanumeric(check_type@[i as int]) || check_type@[i as int] == '_'));
            }
            return Err(owned("Health check type contains invalid characters"));
        }
        i = i + 1;
    }
    Ok(())
}

/// A freshly computed result at `now_ms`: every component healthy.
pub open spec fn fresh_result(r: HealthCheckResult, now_ms: u64) -> bool {
    &&& r.status@ == "healthy"@
    &&& r.timestamp == now_ms
    &&& r.components.database.status@ == "healthy"@ && r.components.database.message is None
    &&& r.components.telemetry_export.status@ == "healthy"@ && r.components.telemetry_export.message is None
    &&& r.components.message_queue.status@ == "healthy"@ && r.components.message_queue.message is None
}

fn healthy_result(now_ms: u64) -> (r: HealthCheckResult)
    ensures
        fresh_result(r, now_ms),
{
    HealthCheckResult {
        status: owned("healthy"),
        timestamp: now_ms,
        components: HealthComponents {
            database: ComponentStatus::healthy(),
            telemetry_export: ComponentStatus::healthy(),
            message_queue: ComponentStatus::healthy(),
        },
    }
}

/// Abstract state of a [`HealthCheckManager`].
pub struct HealthView {
    /// The cached result and the clock reading it was computed at.
    pub cached: Option<(HealthCheckResult, u64)>,
    /// Checks counted in the current interval.
    pub count: u32,
    /// Clock reading at which the current interval began.
    pub interval_start: u64,
    /// Length of a cache lifetime and of an interval, in nanoseconds.
    pub window: nat,
    /// Fresh checks allowed per interval.
    pub max_uncached: u32,
}

/// More than the window has elapsed from `since` to `now`.
pub open spec fn elapsed_beyond(since: u64, now: u64, window: nat) -> bool {
    now > since && now - since > window
}

/// The state after the interval is restarted at `now` if it has run out.
pub open spec fn interval_checked(v: HealthView, now: u64) -> HealthView {
    if elapsed_beyond(v.interval_start, now, v.window) {
        HealthView { interval_start: now, count: 0, ..v }
    } else {
        v
    }
}

/// What a valid check at `now` answers: the cached result while fresh;
/// otherwise it counts the check, and past the interval's allowance it
/// answers the cached result however stale; else it computes a fresh result
/// (at `now_ms`) and caches it.
pub open spec fn check_spec(v: HealthView, now: u64, now_ms: u64, w: HealthView, r: HealthCheckResult) -> bool {
    let a = interval_checked(v, now);
    match a.cached {
        Some((res, at)) if !elapsed_beyond(at, now, a.window) => w == a && r == res,
        _ => {
            let count = if a.count < u32::MAX { (a.count + 1) as u32 } else { a.count };
            let b = HealthView { count, ..a };
            if count > a.max_uncached && a.cached is Some {
                w == b && r == (a.cached->0).0
            } else {
                &&& fresh_result(r, now_ms)
                &&& w.cached matches Some((res2, at2)) && res2 == r && at2 == now
                &&& w.count == b.count && w.interval_start == b.interval_start
                &&& w.window == b.window && w.max_uncached == b.max_uncached
            }
        },
    }
}

/// Health checks with caching and call-frequency limiting.
#[derive(Debug)]
pub struct HealthCheckManager {
    config: HealthCheckConfig,
    cached: Option<(HealthCheckResult, u64)>,
    check_count: u32,
    interval_start: u64,
    epoch: Instant,
}

impl View for HealthCheckManager {
    type V = HealthView;

    closed spec fn view(&self) -> HealthView {
        HealthView {
            cached: self.cached,
            count: self.check_count,
            interval_start: self.interval_start,
            window: (self.config.cache_duration_secs * NANOS_PER_SEC) as nat,
            max_uncached: self.config.max_uncached_checks_per_interval,
        }
    }
}

impl HealthCheckManager {
    /// A manager with the default configuration.
    pub fn new() -> (m: Self)
        ensures
            m@.cached is None,
            m@.count == 0,
            m@.interval_start == 0,
            m@.window == 5 * NANOS_PER_SEC,
            m@.max_uncached == 2,
    {
        Self::with_config(HealthCheckConfig::default())
    }

    /// A manager with `config`, nothing cached.
    pub fn with_config(config: HealthCheckConfig) -> (m: Self)
        ensures
            m@.cached is None,
            m@.count == 0,
            m@.interval_start == 0,
            m@.window == config.cache_duration_secs * NANOS_PER_SEC,
            m@.max_uncached == config.max_uncached_checks_per_interval,
    {
        HealthCheckManager { config, cached: None, check_count: 0, interval_start: 0, epoch: instant_now() }
    }

    /// The manager's clock reading: nanoseconds since it was created.
    pub fn now(&self) -> u64 {
        elapsed_nanos(&self.epoch)
    }

    fn window_nanos(&self) -> (n: u128)
        ensures
            n == self@.window,
    {
        (self.config.cache_duration_secs as u128) * (NANOS_PER_SEC as u128)
    }

    fn beyond(&self, since: u64, now: u64) -> (r: bool)
        ensures
            r == elapsed_beyond(since, now, self@.window),
    {
        now > since && ((now - since) as u128) > self.window_nanos()
    }

    /// A health check of `check_type` at clock reading `now`, computing a
    /// fresh result stamped `now_ms` when one is needed (see [`check_spec`]).
    pub fn check_at(&mut self, check_type: &str, now: u64, now_ms: u64) -> (r: Result<HealthCheckResult, String>)
        ensures
            check_type_error(check_type@) matches Some(m) ==> (r matches Err(e) && e@ == m && final(self)@ == old(
                self,
            )@),
            check_type_error(check_type@) is None ==> (r matches Ok(res) && check_spec(
                old(self)@,
                now,
                now_ms,
                final(self)@,
                res,
            )),
    {
        match validate_request(check_type) {
            Ok(()) => {},
            Err(e) => {
                return Err(e);
            },
        }
        if self.beyond(self.interval_start, now) {
            self.interval_start = now;
            self.check_count = 0;
        }
        match &self.cached {
            Some((res, at)) => {
                if !self.beyond(*at, now) {
                    return Ok(res.duplicate());
                }
            },
            None => {},
        }
        self.check_count = self.check_count.saturating_add(1);
        if self.check_count > self.config.max_uncached_checks_per_interval {
            match &self.cached {
                Some((res, _)) => {
                    return Ok(res.duplicate());
                },
                None => {},
            }
        }
        let result = healthy_result(now_ms);
        let copy = result.duplicate();
        self.cached = Some((copy, now));
        Ok(result)
    }

    /// A health check of `check_type` now.
    pub fn check(&mut self, check_type: &str) -> (r: Result<HealthCheckResult, String>)
        ensures
            check_type_error(check_type@) matches Some(m) ==> (r matches Err(e) && e@ == m),
            check_type_error(check_type@) is None ==> (r matches Ok(res) && exists|now: u64, now_ms: u64|
                #[trigger] check_spec(old(self)@, now, now_ms, final(self)@, res)),
    {
        let now = self.now();
        let now_ms = unix_time_millis();
        self.check_at(check_type, now, now_ms)
    }
}

impl Default for HealthCheckManager {
    /// The same as [`HealthCheckManager::new`].
    fn default() -> (m: Self)
        ensures
            m@.cached is None,
            m@.count == 0,
            m@.interval_start == 0,
            m@.window == 5 * NANOS_PER_SEC,
            m@.max_uncached == 2,
    {
        Self::new()
    }
}

} // verus!
