//! Distributed-lock rules: the fair queue's configuration, the decisions
//! of the acquisition loops, the registry of held locks with its overdue
//! flag, and lock errors.

use std::time::Duration;
use vstd::prelude::*;

use crate::clock::{duration_from_millis, duration_from_secs, duration_nanos, unix_time_millis, NANOS_PER_MILLI, NANOS_PER_SEC};
use crate::text::{concat, owned, str_eq};

verus! {

/// Key of the leader lease.
pub const LEADER_KEY: &'static str = "processor:leader";

/// Length of the leader lease, in seconds.
pub const LEADER_LEASE_SECS: u64 = 30;

/// Lifetime of an instance heartbeat, in seconds.
pub const HEARTBEAT_TTL_SECS: u64 = 45;

/// Configuration of the fair lock queue.
#[derive(Clone, Debug)]
pub struct FairLockConfig {
    /// How long a waiter stays queued before it counts as stale; longer
    /// than `max_wait`.
    pub waiter_ttl: Duration,
    /// Longest a caller waits in the queue.
    pub max_wait: Duration,
    /// How often the queue is polled while waiting.
    pub poll_interval: Duration,
}

impl Default for FairLockConfig {
    /// Waiters expire after 60 s, callers wait at most 30 s, polling every
    /// 50 ms.
    fn default() -> (c: Self)
        ensures
            duration_nanos(c.waiter_ttl) == 60 * NANOS_PER_SEC,
            duration_nanos(c.max_wait) == 30 * NANOS_PER_SEC,
            duration_nanos(c.poll_interval) == 50 * NANOS_PER_MILLI,
    {
        FairLockConfig {
            waiter_ttl: duration_from_secs(60),
            max_wait: duration_from_secs(30),
            poll_interval: duration_from_millis(50),
        }
    }
}

/// The current Unix time in milliseconds (0 if the clock reads before the
/// epoch). Nothing is promised of the reading.
pub fn unix_ms() -> u64 {
    unix_time_millis()
}

/// The queue score below which a waiter is stale at `now_ms`: its enqueue
/// time is more than `waiter_ttl_ms` ago.
pub fn stale_threshold_ms(now_ms: u64, waiter_ttl_ms: u64) -> (t: i128)
    ensures
        t == now_ms - waiter_ttl_ms,
{
    (now_ms as i128) - (waiter_ttl_ms as i128)
}

/// What the fair-lock loop does after one round.
#[derive(Debug, Clone, Copy, PartialEq, Eq, Structural)]
pub enum FairLockStep {
    /// The lock key was taken: leave the queue and hold the lock.
    Acquired,
    /// The wait is over: leave the queue empty-handed.
    GiveUp,
    /// Poll again after the poll interval.
    Wait,
}

/// One round of the fair-lock loop: holding the lock when this waiter is at
/// the front and took the lock key; otherwise giving up once the deadline
/// has passed, else waiting.
pub fn fair_lock_step(at_front: bool, lock_taken: bool, deadline_passed: bool) -> (s: FairLockStep)
    ensures
        at_front && lock_taken ==> s == FairLockStep::Acquired,
        !(at_front && lock_taken) && deadline_passed ==> s == FairLockStep::GiveUp,
        !(at_front && lock_taken) && !deadline_passed ==> s == FairLockStep::Wait,
{
    if at_front && lock_taken {
        FairLockStep::Acquired
    } else if deadline_passed {
        FairLockStep::GiveUp
    } else {
        FairLockStep::Wait
    }
}

/// What the plain lock loop does after one attempt.
#[derive(Debug, Clone, Copy, PartialEq, Eq, Structural)]
pub enum LockStep {
    /// The lock was taken.
    Acquired,
    /// The timeout has elapsed.
    TimedOut,
    /// Try again after a short pause.
    Retry,
}

/// One attempt of the plain lock loop, after `elapsed_ms` of trying with a
/// timeout of `timeout_ms`.
pub fn lock_step(acquired: bool, elapsed_ms: u64, timeout_ms: u64) -> (s: LockStep)
    ensures
        acquired ==> s == LockStep::Acquired,
        !acquired && elapsed_ms >= timeout_ms ==> s == LockStep::TimedOut,
        !acquired && elapsed_ms < timeout_ms ==> s == LockStep::Retry,
{
    if acquired {
        LockStep::Acquired
    } else if elapsed_ms >= timeout_ms {
        LockStep::TimedOut
    } else {
        LockStep::Retry
    }
}

/// A lock held for `held_secs` is overdue when that is more than twice the
/// expected duration.
pub open spec fn is_overdue(held_secs: u64, expected_secs: u64) -> bool {
    held_secs > 2 * expected_secs
}

/// Metadata about a held lock.
#[derive(Debug, Clone)]
pub struct ActiveLockInfo {
    pub resource: String,
    pub token: String,
    /// Unix time, in seconds, at which the lock was taken.
    pub acquired_at: u64,
    pub ttl_secs: u64,
    pub expected_duration_secs: u64,
    pub overdue: bool,
}

/// The locks held in this process, by token.
#[derive(Debug)]
pub struct LockRegistry {
    entries: Vec<ActiveLockInfo>,
}

/// The tokens of a sequence of lock records.
pub open spec fn tokens(v: Seq<ActiveLockInfo>) -> Seq<Seq<char>> {
    v.map_values(|i: ActiveLockInfo| i.token@)
}

/// The record of `info` as of `now_secs`: its overdue flag refreshed.
pub open spec fn refreshed(info: ActiveLockInfo, now_secs: u64, out: ActiveLockInfo) -> bool {
    let held = if now_secs >= info.acquired_at { (now_secs - info.acquired_at) as u64 } else { 0u64 };
    &&& out.resource@ == info.resource@
    &&& out.token@ == info.token@
    &&& out.acquired_at == info.acquired_at
    &&& out.ttl_secs == info.ttl_secs
    &&& out.expected_duration_secs == info.expected_duration_secs
    &&& out.overdue == is_overdue(held, info.expected_duration_secs)
}

impl LockRegistry {
    /// No two records share a token.
    pub closed spec fn wf(&self) -> bool {
        tokens(self.entries@).no_duplicates()
    }

    /// The records held, in registration order.
    pub closed spec fn records(&self) -> Seq<ActiveLockInfo> {
        self.entries@
    }

    /// An empty registry.
    pub fn new() -> (r: Self)
        ensures
            r.wf(),
            r.records().len() == 0,
    {
        LockRegistry { entries: Vec::new() }
    }

    fn position(&self, token: &str) -> (r: Option<usize>)
        ensures
            match r {
                Some(i) => i < self.records().len() && self.records()[i as int].token@ == token@,
                None => !tokens(self.records()).contains(token@),
            },
    {
        let mut i: usize = 0;
        while i < self.entries.len()
            invariant
                i <= self.entries@.len(),
                forall|j: int| 0 <= j < i ==> self.entries@[j].token@ != token@,
            decreases self.entries@.len() - i,
        {
            if str_eq(self.entries[i].token.as_str(), token) {
                return Some(i);
            }
            i = i + 1;
        }
        proof {
            if tokens(self.entries@).contains(token@) {
                let j = choose|j: int| 0 <= j < tokens(self.entries@).len() && tokens(self.entries@)[j] == token@;
                assert(self.entries@[j].token@ == token@);
            }
        }
        None
    }

    /// Records `info`, replacing the record with the same token if any.
    pub fn register(&mut self, info: ActiveLockInfo)
        requires
            old(self).wf(),
        ensures
            final(self).wf(),
            tokens(old(self).records()).contains(info.token@) ==> exists|i: int|
                0 <= i < old(self).records().len() && old(self).records()[i].token@ == info.token@ && final(self).records() == old(self).records().update(i, info),
            !tokens(old(self).records()).contains(info.token@) ==> final(self).records() == old(self).records().push(info),
    {
        let ghost before = self.entries@;
        match self.position(info.token.as_str()) {
            Some(i) => {
                proof {
                    assert(tokens(before)[i as int] == info.token@);
                }
                self.entries.set(i, info);
                proof {
                    assert(tokens(self.entries@) =~= tokens(before));
                }
            },
            None => {
                let ghost t = info.token@;
                self.entries.push(info);
                proof {
                    assert(tokens(self.entries@) =~= tokens(before).push(t));
                    assert forall|a: int, b: int| 0 <= a < b < tokens(self.entries@).len() implies tokens(
                        self.entries@,
                    )[a] != tokens(self.entries@)[b] by {
                        if b == before.len() {
                            assert(tokens(before)[a] != t);
                        }
                    }
                }
            },
        }
    }

    /// Removes the record of `token`, if any.
    pub fn deregister(&mut self, token: &str)
        requires
            old(self).wf(),
        ensures
            final(self).wf(),
            !tokens(old(self).records()).contains(token@) ==> final(self).records() == old(self).records(),
            tokens(old(self).records()).contains(token@) ==> exists|i: int|
                0 <= i < old(self).records().len() && old(self).records()[i].token@ == token@ && final(self).records() == old(self).records().remove(i),
    {
        let ghost before = self.entries@;
        match self.position(token) {
            Some(i) => {
                proof {
                    assert(tokens(before)[i as int] == token@);
                }
                self.entries.remove(i);
                proof {
                    assert(tokens(self.entries@) =~= tokens(before).remove(i as int));
                    assert forall|a: int, b: int| 0 <= a < b < tokens(self.entries@).len() implies tokens(
                        self.entries@,
                    )[a] != tokens(self.entries@)[b] by {
                        let a2 = if a < i { a } else { a + 1 };
                        let b2 = if b < i { b } else { b + 1 };
                        assert(tokens(before)[a2] != tokens(before)[b2]);
                    }
                }
            },
            None => {},
        }
    }

    /// The records as of `now_secs`, each with its overdue flag refreshed.
    pub fn snapshot_at(&self, now_secs: u64) -> (v: Vec<ActiveLockInfo>)
        ensures
            v@.len() == self.records().len(),
            forall|i: int| 0 <= i < v@.len() ==> refreshed(self.records()[i], now_secs, #[trigger] v@[i]),
    {
        let mut v: Vec<ActiveLockInfo> = Vec::new();
        let mut i: usize = 0;
        while i < self.entries.len()
            invariant
                i <= self.entries@.len(),
                v@.len() == i,
                forall|j: int| 0 <= j < i ==> refreshed(self.entries@[j], now_secs, #[trigger] v@[j]),
            decreases self.entries@.len() - i,
        {
            let info = &self.entries[i];
            let held = now_secs.saturating_sub(info.acquired_at);
            let limit = info.expected_duration_secs as u128 * 2;
            let out = ActiveLockInfo {
                resource: info.resource.clone(),
                token: info.token.clone(),
                acquired_at: info.acquired_at,
                ttl_secs: info.ttl_secs,
                expected_duration_secs: info.expected_duration_secs,
                overdue: (held as u128) > limit,
            };
            v.push(out);
            i = i + 1;
        }
        v
    }
}

/// Error of a critical section run under a lock.
#[derive(Debug)]
pub enum LockError {
    /// A Redis operation failed, with its message.
    Redis(String),
    /// The lock was not acquired within the timeout.
    LockNotAcquired,
    /// The lock was lost during the critical section.
    LockLost,
    /// The critical section failed, with its message.
    Inner(String),
}

/// The message each lock error displays.
pub open spec fn lock_error_message(e: LockError) -> Seq<char> {
    match e {
        LockError::Redis(s) => "Redis error: "@ + s@,
        LockError::LockNotAcquired => "lock not acquired within timeout"@,
        LockError::LockLost => "lock lost during critical section (renewal failed)"@,
        LockError::Inner(s) => "critical section error: "@ + s@,
    }
}

impl LockError {
    /// The message this error displays.
    pub fn to_string(&self) -> (s: String)
        ensures
            s@ == lock_error_message(*self),
    {
        match self {
            LockError::Redis(d) => concat("Redis error: ", d.as_str()),
            LockError::LockNotAcquired => owned("lock not acquired within timeout"),
            LockError::LockLost => owned("lock lost during critical section (renewal failed)"),
            LockError::Inner(d) => concat("critical section error: ", d.as_str()),
        }
    }
}

} // verus!
