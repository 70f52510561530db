//! The circuit breaker's state machine.
//!
//! The persisted state is `open` or `closed` with failure and success
//! counts; the half-open state is derived from the time the breaker opened.
//! A call is refused while the breaker is open, and while it is half-open
//! unless the caller won the probe lease. Times are microseconds since the
//! Unix epoch.

use vstd::prelude::*;

use crate::text::{owned, str_eq};

verus! {

/// How long each instance trusts its local snapshot, in milliseconds.
pub const DEFAULT_CACHE_TTL_MS: u64 = 100;

/// How long the half-open probe lease is held, in milliseconds.
pub const DEFAULT_PROBE_LEASE_TTL_MS: u64 = 30000;

/// Probe successes needed to close the breaker.
pub const DEFAULT_SUCCESS_THRESHOLD: u32 = 1;

/// The error of a refused call.
#[derive(Debug, Clone, Copy, PartialEq, Eq, Structural)]
pub enum CircuitBreakerError {
    Open,
}

impl CircuitBreakerError {
    /// The message this error displays.
    pub fn to_string(&self) -> (s: String)
        ensures
            s@ == "Circuit breaker is open"@,
    {
        owned("Circuit breaker is open")
    }
}

/// The state a call sees.
#[derive(Debug, Clone, Copy, PartialEq, Eq, Structural)]
pub enum CircuitState {
    Closed,
    Open,
    HalfOpen,
}

/// The state shared by all instances.
#[derive(Debug, Clone)]
pub struct PersistedState {
    /// `open`, or anything else for closed.
    pub state: String,
    /// When the breaker opened.
    pub opened_at: Option<i64>,
    pub failure_count: u32,
    pub success_count: u32,
    pub last_error: Option<String>,
}

/// A snapshot of the breaker for callers.
#[derive(Debug, Clone)]
pub struct CircuitBreakerState {
    pub state: CircuitState,
    pub opened_at: Option<i64>,
    pub failure_count: u32,
    pub last_error: Option<String>,
}

/// The state a closed breaker starts in.
pub open spec fn is_initial(p: PersistedState) -> bool {
    &&& p.state@ == "closed"@
    &&& p.opened_at is None
    &&& p.failure_count == 0
    &&& p.success_count == 0
    &&& p.last_error is None
}

impl PersistedState {
    /// Closed, with no failure or success counted.
    pub fn initial() -> (p: Self)
        ensures
            is_initial(p),
    {
        PersistedState {
            state: owned("closed"),
            opened_at: None,
            failure_count: 0,
            success_count: 0,
            last_error: None,
        }
    }
}

/// The state a call sees at `now`: closed unless persisted open; half-open
/// once more than the reset timeout has passed since it opened.
pub open spec fn derived_state(p: PersistedState, now: int, reset_timeout: int) -> CircuitState {
    if p.state@ != "open"@ {
        CircuitState::Closed
    } else {
        match p.opened_at {
            Some(t) => if now - t > reset_timeout {
                CircuitState::HalfOpen
            } else {
                CircuitState::Open
            },
            None => CircuitState::Open,
        }
    }
}

/// The state a call sees at `now` (see [`derived_state`]).
pub fn derive_state(p: &PersistedState, now: i64, reset_timeout: i64) -> (s: CircuitState)
    ensures
        s == derived_state(*p, now as int, reset_timeout as int),
        p.state@ != "open"@ ==> s == CircuitState::Closed,
        p.state@ == "open"@ && p.opened_at is None ==> s == CircuitState::Open,
        match p.opened_at {
            Some(t) => p.state@ == "open"@ ==> (now - t > reset_timeout ==> s == CircuitState::HalfOpen) && (now
                - t <= reset_timeout ==> s == CircuitState::Open),
            None => true,
        },
{
    if !str_eq(p.state.as_str(), "open") {
        return CircuitState::Closed;
    }
    match p.opened_at {
        Some(t) => if (now as i128) - (t as i128) > reset_timeout as i128 {
            CircuitState::HalfOpen
        } else {
            CircuitState::Open
        },
        None => CircuitState::Open,
    }
}

/// A breaker persisted open since `t` is half-open at every instant more
/// than the reset timeout after `t`, and open at every instant up to it.
pub proof fn lemma_open_breaker_recovers(p: PersistedState, t: i64, now: int, reset_timeout: int)
    requires
        p.state@ == "open"@,
        p.opened_at == Some(t),
    ensures
        now - t > reset_timeout ==> derived_state(p, now, reset_timeout) == CircuitState::HalfOpen,
        now - t <= reset_timeout ==> derived_state(p, now, reset_timeout) == CircuitState::Open,
{
}

/// Recovery is monotone in time: once a breaker is half-open, it stays
/// half-open at every later instant (until its persisted state changes).
pub proof fn lemma_half_open_persists(p: PersistedState, now1: int, now2: int, reset_timeout: int)
    requires
        now1 <= now2,
        derived_state(p, now1, reset_timeout) == CircuitState::HalfOpen,
    ensures
        derived_state(p, now2, reset_timeout) == CircuitState::HalfOpen,
{
}

/// Only a breaker persisted open is ever seen open or half-open.
pub proof fn lemma_closed_unless_persisted_open(p: PersistedState, now: int, reset_timeout: int)
    requires
        p.state@ != "open"@,
    ensures
        derived_state(p, now, reset_timeout) == CircuitState::Closed,
{
}

/// How a call is let through.
#[derive(Debug, Clone, Copy, PartialEq, Eq, Structural)]
pub enum Admission {
    /// The breaker is closed: an ordinary call.
    Normal,
    /// The breaker is half-open and this caller holds the probe lease.
    Probe,
    /// The call is refused.
    Refused,
}

/// Whether a call is let through in state `s`; `lease_won` says whether the
/// caller won the probe lease (asked only when half-open).
pub fn admission(s: CircuitState, lease_won: bool) -> (a: Admission)
    ensures
        s == CircuitState::Closed ==> a == Admission::Normal,
        s == CircuitState::Open ==> a == Admission::Refused,
        s == CircuitState::HalfOpen ==> a == if lease_won { Admission::Probe } else { Admission::Refused },
{
    match s {
        CircuitState::Closed => Admission::Normal,
        CircuitState::Open => Admission::Refused,
        CircuitState::HalfOpen => if lease_won {
            Admission::Probe
        } else {
            Admission::Refused
        },
    }
}

/// One more, saturating.
pub open spec fn inc(n: u32) -> u32 {
    if n < u32::MAX { (n + 1) as u32 } else { n }
}

/// The state after a successful call: one more success, no last error; at
/// the success threshold, closed with all counts reset.
pub open spec fn after_success(p: PersistedState, success_threshold: u32, q: PersistedState) -> bool {
    let s = inc(p.success_count);
    if s >= success_threshold {
        &&& is_initial(q)
    } else {
        &&& q.state@ == p.state@
        &&& q.opened_at == p.opened_at
        &&& q.failure_count == p.failure_count
        &&& q.success_count == s
        &&& q.last_error is None
    }
}

/// The state after a failed call with message `error` at `now`: one more
/// failure, successes reset, the error kept; at the failure threshold, open
/// since `now`.
pub open spec fn after_failure(
    p: PersistedState,
    error: Seq<char>,
    failure_threshold: u32,
    now: i64,
    q: PersistedState,
) -> bool {
    let f = inc(p.failure_count);
    &&& q.failure_count == f
    &&& q.success_count == 0
    &&& q.last_error matches Some(e) && e@ == error
    &&& if f >= failure_threshold {
        q.state@ == "open"@ && q.opened_at == Some(now)
    } else {
        q.state@ == p.state@ && q.opened_at == p.opened_at
    }
}

/// Records a successful call (see [`after_success`]).
pub fn record_success(p: &mut PersistedState, success_threshold: u32)
    ensures
        after_success(*old(p), success_threshold, *final(p)),
{
    p.success_count = p.success_count.saturating_add(1);
    p.last_error = None;
    if p.success_count >= success_threshold {
        p.state = owned("closed");
        p.failure_count = 0;
        p.success_count = 0;
        p.opened_at = None;
    }
}

/// Records a failed call with message `error` at `now` (see
/// [`after_failure`]).
pub fn record_failure(p: &mut PersistedState, error: String, failure_threshold: u32, now: i64)
    ensures
        after_failure(*old(p), error@, failure_threshold, now, *final(p)),
{
    p.failure_count = p.failure_count.saturating_add(1);
    p.success_count = 0;
    p.last_error = Some(error);
    if p.failure_count >= failure_threshold {
        p.state = owned("open");
        p.opened_at = Some(now);
    }
}

/// A failure that reaches the failure threshold opens the breaker: calls
/// at `now` are refused, and once the reset timeout has passed the breaker
/// is half-open.
pub proof fn lemma_failure_opens(p: PersistedState, error: Seq<char>, threshold: u32, now: i64, q: PersistedState, reset_timeout: i64)
    requires
        p.failure_count < u32::MAX,
        after_failure(p, error, threshold, now, q),
        p.failure_count + 1 >= threshold,
        reset_timeout >= 0,
    ensures
        derived_state(q, now as int, reset_timeout as int) == CircuitState::Open,
        derived_state(q, now + reset_timeout + 1, reset_timeout as int) == CircuitState::HalfOpen,
{
}

/// A success that reaches the success threshold closes the breaker,
/// whatever state it was in.
pub proof fn lemma_success_closes(p: PersistedState, threshold: u32, q: PersistedState, now: i64, reset_timeout: i64)
    requires
        p.success_count < u32::MAX,
        after_success(p, threshold, q),
        p.success_count + 1 >= threshold,
    ensures
        derived_state(q, now as int, reset_timeout as int) == CircuitState::Closed,
        q.failure_count == 0,
{
    reveal_strlit("closed");
    reveal_strlit("open");
    assert("closed"@.len() != "open"@.len());
}

/// A snapshot of `p` as a call at `now` sees it.
pub fn snapshot(p: &PersistedState, now: i64, reset_timeout: i64) -> (s: CircuitBreakerState)
    ensures
        s.state == derived_state(*p, now as int, reset_timeout as int),
        s.opened_at == p.opened_at,
        s.failure_count == p.failure_count,
        s.last_error == p.last_error,
{
    CircuitBreakerState {
        state: derive_state(p, now, reset_timeout),
        opened_at: p.opened_at,
        failure_count: p.failure_count,
        last_error: p.last_error.clone(),
    }
}

} // verus!
