//! Per-kind rate limiting of telemetry.
//!
//! Traces, metrics and events each draw on a token bucket of their own, so
//! a burst of one kind never starves the others. A refused request is not
//! an error: the caller drops the record and the refusal is counted.
//!
//! | Kind   | Default limit | Window |
//! |--------|---------------|--------|
//! | Trace  | 1000          | 60 s   |
//! | Metric | 5000          | 60 s   |
//! | Event  | 500           | 60 s   |

use std::time::{Duration, Instant};
use vstd::prelude::*;

use crate::clock::{duration_as_nanos, duration_from_secs, duration_nanos, elapsed_nanos, instant_now, NANOS_PER_SEC};
use crate::telemetry::data_export::RecordType;
use crate::token_bucket::{acquire_step, refilled, BucketView, TokenBucket};

verus! {

/// Default maximum traces per window.
pub const DEFAULT_TRACE_LIMIT: u32 = 1000;

/// Default maximum metrics per window.
pub const DEFAULT_METRIC_LIMIT: u32 = 5000;

/// Default maximum events per window.
pub const DEFAULT_EVENT_LIMIT: u32 = 500;

/// Default window length, in seconds, for every kind.
pub const DEFAULT_WINDOW_SECS: u64 = 60;

/// The default window, in nanoseconds.
pub open spec fn default_window_nanos() -> nat {
    (DEFAULT_WINDOW_SECS * NANOS_PER_SEC) as nat
}

/// Limits of the three buckets and their common window.
#[derive(Debug, Clone)]
pub struct TelemetryRateLimitConfig {
    /// Maximum traces allowed per window.
    pub trace_limit: u32,
    /// Maximum metrics allowed per window.
    pub metric_limit: u32,
    /// Maximum events allowed per window.
    pub event_limit: u32,
    /// Length of the window for all kinds.
    pub window: Duration,
}

impl Default for TelemetryRateLimitConfig {
    /// The limits of the table above.
    fn default() -> (c: Self)
        ensures
            c.trace_limit == DEFAULT_TRACE_LIMIT,
            c.metric_limit == DEFAULT_METRIC_LIMIT,
            c.event_limit == DEFAULT_EVENT_LIMIT,
            duration_nanos(c.window) == default_window_nanos(),
    {
        TelemetryRateLimitConfig {
            trace_limit: DEFAULT_TRACE_LIMIT,
            metric_limit: DEFAULT_METRIC_LIMIT,
            event_limit: DEFAULT_EVENT_LIMIT,
            window: duration_from_secs(DEFAULT_WINDOW_SECS),
        }
    }
}

/// Counts of granted and refused requests, per kind.
#[derive(Debug, Clone, Copy, PartialEq, Eq, Structural)]
pub struct TelemetryRateLimitMetrics {
    pub traces_acquired: u64,
    pub traces_rejected: u64,
    pub metrics_acquired: u64,
    pub metrics_rejected: u64,
    pub events_acquired: u64,
    pub events_rejected: u64,
}

impl Default for TelemetryRateLimitMetrics {
    /// All counts zero.
    fn default() -> (m: Self)
        ensures
            m.traces_acquired == 0,
            m.traces_rejected == 0,
            m.metrics_acquired == 0,
            m.metrics_rejected == 0,
            m.events_acquired == 0,
            m.events_rejected == 0,
    {
        TelemetryRateLimitMetrics {
            traces_acquired: 0,
            traces_rejected: 0,
            metrics_acquired: 0,
            metrics_rejected: 0,
            events_acquired: 0,
            events_rejected: 0,
        }
    }
}

/// Abstract state of a [`TelemetryRateLimiter`]: its three buckets.
pub struct RateLimiterView {
    pub trace: BucketView,
    pub metric: BucketView,
    pub event: BucketView,
}

/// The bucket a record kind draws on.
pub open spec fn bucket_of(v: RateLimiterView, kind: RecordType) -> BucketView {
    match kind {
        RecordType::Trace => v.trace,
        RecordType::Metric => v.metric,
        RecordType::Event => v.event,
    }
}

/// The limiter with the bucket of `kind` replaced by `b`.
pub open spec fn with_bucket(v: RateLimiterView, kind: RecordType, b: BucketView) -> RateLimiterView {
    match kind {
        RecordType::Trace => RateLimiterView { trace: b, ..v },
        RecordType::Metric => RateLimiterView { metric: b, ..v },
        RecordType::Event => RateLimiterView { event: b, ..v },
    }
}

/// A full bucket of `limit` tokens over `window` nanoseconds, whose first
/// window starts at the limiter's creation.
pub open spec fn fresh_bucket(limit: u32, window: nat) -> BucketView {
    BucketView { capacity: limit as nat, window, tokens: limit as nat, window_start: 0, acquired: 0, rejected: 0 }
}

/// The bucket refilled and restarted at `now`, its counters kept.
pub open spec fn reset_bucket(b: BucketView, now: nat) -> BucketView {
    BucketView { tokens: b.capacity, window_start: now, ..b }
}

/// Every bucket refilled and restarted at `now`.
pub open spec fn reset_all_spec(v: RateLimiterView, now: nat) -> RateLimiterView {
    RateLimiterView {
        trace: reset_bucket(v.trace, now),
        metric: reset_bucket(v.metric, now),
        event: reset_bucket(v.event, now),
    }
}

/// A run of requests, each of a kind at a clock reading, in order: the
/// limiter after them, and which of them were granted.
pub open spec fn limiter_run(v: RateLimiterView, calls: Seq<(RecordType, nat)>) -> (RateLimiterView, Seq<bool>)
    decreases calls.len(),
{
    if calls.len() == 0 {
        (v, Seq::empty())
    } else {
        let (b1, granted) = acquire_step(bucket_of(v, calls[0].0), calls[0].1);
        let (vn, rest) = limiter_run(with_bucket(v, calls[0].0, b1), calls.drop_first());
        (vn, seq![granted] + rest)
    }
}

/// How many of the requests of `kind` among `calls` had the outcome
/// `outcome` in `granted`.
pub open spec fn tally(calls: Seq<(RecordType, nat)>, granted: Seq<bool>, kind: RecordType, outcome: bool) -> nat
    decreases calls.len(),
{
    if calls.len() == 0 || granted.len() == 0 {
        0
    } else {
        (if calls[0].0 == kind && granted[0] == outcome {
            1nat
        } else {
            0nat
        }) + tally(calls.drop_first(), granted.drop_first(), kind, outcome)
    }
}

/// Over any run of requests, each kind's counters grow by exactly the
/// number of its requests that were granted and refused (while they stay
/// below `u64::MAX`); requests of the other kinds leave them alone.
pub proof fn lemma_counts_tally_outcomes(v: RateLimiterView, calls: Seq<(RecordType, nat)>, kind: RecordType)
    requires
        bucket_of(v, kind).acquired + calls.len() <= u64::MAX,
        bucket_of(v, kind).rejected + calls.len() <= u64::MAX,
    ensures
        limiter_run(v, calls).1.len() == calls.len(),
        bucket_of(limiter_run(v, calls).0, kind).acquired == bucket_of(v, kind).acquired + tally(
            calls,
            limiter_run(v, calls).1,
            kind,
            true,
        ),
        bucket_of(limiter_run(v, calls).0, kind).rejected == bucket_of(v, kind).rejected + tally(
            calls,
            limiter_run(v, calls).1,
            kind,
            false,
        ),
    decreases calls.len(),
{
    if calls.len() > 0 {
        let (b1, granted) = acquire_step(bucket_of(v, calls[0].0), calls[0].1);
        let v1 = with_bucket(v, calls[0].0, b1);
        if calls[0].0 == kind {
            assert(bucket_of(v1, kind) == b1);
        } else {
            assert(bucket_of(v1, kind) == bucket_of(v, kind));
        }
        lemma_counts_tally_outcomes(v1, calls.drop_first(), kind);
        let g = limiter_run(v, calls).1;
        let rest = limiter_run(v1, calls.drop_first()).1;
        assert(g == seq![granted] + rest);
        assert(g[0] == granted);
        assert(g.drop_first() =~= rest);
    }
}

/// Running `a` then `b` is running `a + b`: the runs of consecutive calls
/// compose.
pub proof fn lemma_limiter_run_concat(v: RateLimiterView, a: Seq<(RecordType, nat)>, b: Seq<(RecordType, nat)>)
    ensures
        limiter_run(v, a + b).0 == limiter_run(limiter_run(v, a).0, b).0,
        limiter_run(v, a + b).1 == limiter_run(v, a).1 + limiter_run(limiter_run(v, a).0, b).1,
    decreases a.len(),
{
    if a.len() > 0 {
        let (b1, _) = acquire_step(bucket_of(v, a[0].0), a[0].1);
        let v1 = with_bucket(v, a[0].0, b1);
        lemma_limiter_run_concat(v1, a.drop_first(), b);
        assert((a + b).drop_first() =~= a.drop_first() + b);
        assert((a + b)[0] == a[0]);
        let g = limiter_run(v, a + b).1;
        assert(g =~= limiter_run(v, a).1 + limiter_run(limiter_run(v, a).0, b).1);
    } else {
        assert(a + b =~= b);
        assert(limiter_run(v, a).1 + limiter_run(v, b).1 =~= limiter_run(v, b).1);
    }
}

/// For a limiter whose counters are all zero, as [`TelemetryRateLimiter::with_config`]
/// makes it, the counts [`TelemetryRateLimiter::metrics`] reports after any
/// run of requests are the numbers of granted and refused requests of each
/// kind.
pub proof fn lemma_fresh_limiter_tallies(v: RateLimiterView, calls: Seq<(RecordType, nat)>)
    requires
        v.trace.acquired == 0 && v.trace.rejected == 0,
        v.metric.acquired == 0 && v.metric.rejected == 0,
        v.event.acquired == 0 && v.event.rejected == 0,
        calls.len() <= u64::MAX,
    ensures
        ({
            let (w, granted) = limiter_run(v, calls);
            &&& w.trace.acquired == tally(calls, granted, RecordType::Trace, true)
            &&& w.trace.rejected == tally(calls, granted, RecordType::Trace, false)
            &&& w.metric.acquired == tally(calls, granted, RecordType::Metric, true)
            &&& w.metric.rejected == tally(calls, granted, RecordType::Metric, false)
            &&& w.event.acquired == tally(calls, granted, RecordType::Event, true)
            &&& w.event.rejected == tally(calls, granted, RecordType::Event, false)
        }),
{
    lemma_counts_tally_outcomes(v, calls, RecordType::Trace);
    lemma_counts_tally_outcomes(v, calls, RecordType::Metric);
    lemma_counts_tally_outcomes(v, calls, RecordType::Event);
}

/// Three independent token buckets, one per record kind. Clock readings are
/// nanoseconds since the limiter was created.
#[derive(Debug)]
pub struct TelemetryRateLimiter {
    config: TelemetryRateLimitConfig,
    trace: TokenBucket,
    metric: TokenBucket,
    event: TokenBucket,
    epoch: Instant,
}

impl View for TelemetryRateLimiter {
    type V = RateLimiterView;

    closed spec fn view(&self) -> RateLimiterView {
        RateLimiterView { trace: self.trace@, metric: self.metric@, event: self.event@ }
    }
}

impl TelemetryRateLimiter {
    /// Every bucket holds no more than its capacity.
    pub closed spec fn wf(&self) -> bool {
        self.trace.wf() && self.metric.wf() && self.event.wf()
    }

    /// A limiter with the default limits.
    pub fn new() -> (l: Self)
        ensures
            l.wf(),
            l@.trace == fresh_bucket(DEFAULT_TRACE_LIMIT, default_window_nanos()),
            l@.metric == fresh_bucket(DEFAULT_METRIC_LIMIT, default_window_nanos()),
            l@.event == fresh_bucket(DEFAULT_EVENT_LIMIT, default_window_nanos()),
    {
        Self::with_config(TelemetryRateLimitConfig::default())
    }

    /// A limiter whose buckets hold the configured limits, full.
    pub fn with_config(config: TelemetryRateLimitConfig) -> (l: Self)
        ensures
            l.wf(),
            l@.trace == fresh_bucket(config.trace_limit, duration_nanos(config.window)),
            l@.metric == fresh_bucket(config.metric_limit, duration_nanos(config.window)),
            l@.event == fresh_bucket(config.event_limit, duration_nanos(config.window)),
    {
        let window = duration_as_nanos(&config.window);
        let trace = TokenBucket::new(config.trace_limit, window, 0);
        let metric = TokenBucket::new(config.metric_limit, window, 0);
        let event = TokenBucket::new(config.event_limit, window, 0);
        TelemetryRateLimiter { config, trace, metric, event, epoch: instant_now() }
    }

    /// The limiter's clock reading: nanoseconds since it was created.
    pub fn now(&self) -> u64 {
        elapsed_nanos(&self.epoch)
    }

    /// Requests one token of `kind`'s bucket at `now`. Only that bucket
    /// changes (see [`acquire_step`]).
    pub fn try_acquire_at(&mut self, kind: &RecordType, now: u64) -> (granted: bool)
        requires
            old(self).wf(),
        ensures
            final(self).wf(),
            (bucket_of(final(self)@, *kind), granted) == acquire_step(bucket_of(old(self)@, *kind), now as nat),
            final(self)@ == with_bucket(old(self)@, *kind, bucket_of(final(self)@, *kind)),
            (final(self)@, seq![granted]) == limiter_run(old(self)@, seq![(*kind, now as nat)]),
    {
        let granted = match kind {
            RecordType::Trace => self.trace.try_acquire_at(now),
            RecordType::Metric => self.metric.try_acquire_at(now),
            RecordType::Event => self.event.try_acquire_at(now),
        };
        proof {
            let calls = seq![(*kind, now as nat)];
            let (b1, g) = acquire_step(bucket_of(old(self)@, calls[0].0), calls[0].1);
            let v1 = with_bucket(old(self)@, calls[0].0, b1);
            assert(calls.drop_first() =~= Seq::<(RecordType, nat)>::empty());
            assert(limiter_run(v1, calls.drop_first()) == (v1, Seq::<bool>::empty()));
            assert(seq![g] + Seq::<bool>::empty() =~= seq![g]);
            assert(v1 == self@);
        }
        granted
    }

    /// Requests one token of `kind`'s bucket at the current clock reading.
    pub fn try_acquire(&mut self, kind: &RecordType) -> (granted: bool)
        requires
            old(self).wf(),
        ensures
            final(self).wf(),
            exists|now: nat|
                (bucket_of(final(self)@, *kind), granted) == #[trigger] acquire_step(bucket_of(old(self)@, *kind), now),
            final(self)@ == with_bucket(old(self)@, *kind, bucket_of(final(self)@, *kind)),
    {
        let now = self.now();
        self.try_acquire_at(kind, now)
    }

    /// Requests a trace token at `now`; the other buckets do not change.
    pub fn try_acquire_trace_at(&mut self, now: u64) -> (granted: bool)
        requires
            old(self).wf(),
        ensures
            final(self).wf(),
            (final(self)@.trace, granted) == acquire_step(old(self)@.trace, now as nat),
            (final(self)@, seq![granted]) == limiter_run(old(self)@, seq![(RecordType::Trace, now as nat)]),
            final(self)@.metric == old(self)@.metric,
            final(self)@.event == old(self)@.event,
    {
        self.try_acquire_at(&RecordType::Trace, now)
    }

    /// Requests a metric token at `now`; the other buckets do not change.
    pub fn try_acquire_metric_at(&mut self, now: u64) -> (granted: bool)
        requires
            old(self).wf(),
        ensures
            final(self).wf(),
            (final(self)@.metric, granted) == acquire_step(old(self)@.metric, now as nat),
            (final(self)@, seq![granted]) == limiter_run(old(self)@, seq![(RecordType::Metric, now as nat)]),
            final(self)@.trace == old(self)@.trace,
            final(self)@.event == old(self)@.event,
    {
        self.try_acquire_at(&RecordType::Metric, now)
    }

    /// Requests an event token at `now`; the other buckets do not change.
    pub fn try_acquire_event_at(&mut self, now: u64) -> (granted: bool)
        requires
            old(self).wf(),
        ensures
            final(self).wf(),
            (final(self)@.event, granted) == acquire_step(old(self)@.event, now as nat),
            (final(self)@, seq![granted]) == limiter_run(old(self)@, seq![(RecordType::Event, now as nat)]),
            final(self)@.trace == old(self)@.trace,
            final(self)@.metric == old(self)@.metric,
    {
        self.try_acquire_at(&RecordType::Event, now)
    }

    /// Requests a trace token now; the other buckets do not change.
    pub fn try_acquire_trace(&mut self) -> (granted: bool)
        requires
            old(self).wf(),
        ensures
            final(self).wf(),
            exists|now: nat| (final(self)@.trace, granted) == #[trigger] acquire_step(old(self)@.trace, now),
            final(self)@.metric == old(self)@.metric,
            final(self)@.event == old(self)@.event,
    {
        let now = self.now();
        self.try_acquire_trace_at(now)
    }

    /// Requests a metric token now; the other buckets do not change.
    pub fn try_acquire_metric(&mut self) -> (granted: bool)
        requires
            old(self).wf(),
        ensures
            final(self).wf(),
            exists|now: nat| (final(self)@.metric, granted) == #[trigger] acquire_step(old(self)@.metric, now),
            final(self)@.trace == old(self)@.trace,
            final(self)@.event == old(self)@.event,
    {
        let now = self.now();
        self.try_acquire_metric_at(now)
    }

    /// Requests an event token now; the other buckets do not change.
    pub fn try_acquire_event(&mut self) -> (granted: bool)
        requires
            old(self).wf(),
        ensures
            final(self).wf(),
            exists|now: nat| (final(self)@.event, granted) == #[trigger] acquire_step(old(self)@.event, now),
            final(self)@.trace == old(self)@.trace,
            final(self)@.metric == old(self)@.metric,
    {
        let now = self.now();
        self.try_acquire_event_at(now)
    }

    /// Trace tokens left at `now`.
    pub fn remaining_traces_at(&self, now: u64) -> (n: u32)
        requires
            self.wf(),
        ensures
            n == refilled(self@.trace, now as nat).tokens,
    {
        self.trace.available_at(now)
    }

    /// Metric tokens left at `now`.
    pub fn remaining_metrics_at(&self, now: u64) -> (n: u32)
        requires
            self.wf(),
        ensures
            n == refilled(self@.metric, now as nat).tokens,
    {
        self.metric.available_at(now)
    }

    /// Event tokens left at `now`.
    pub fn remaining_events_at(&self, now: u64) -> (n: u32)
        requires
            self.wf(),
        ensures
            n == refilled(self@.event, now as nat).tokens,
    {
        self.event.available_at(now)
    }

    /// Trace tokens left now.
    pub fn remaining_traces(&self) -> (n: u32)
        requires
            self.wf(),
        ensures
            exists|now: nat| n == #[trigger] refilled(self@.trace, now).tokens,
    {
        let now = self.now();
        self.remaining_traces_at(now)
    }

    /// Metric tokens left now.
    pub fn remaining_metrics(&self) -> (n: u32)
        requires
            self.wf(),
        ensures
            exists|now: nat| n == #[trigger] refilled(self@.metric, now).tokens,
    {
        let now = self.now();
        self.remaining_metrics_at(now)
    }

    /// Event tokens left now.
    pub fn remaining_events(&self) -> (n: u32)
        requires
            self.wf(),
        ensures
            exists|now: nat| n == #[trigger] refilled(self@.event, now).tokens,
    {
        let now = self.now();
        self.remaining_events_at(now)
    }

    /// The granted and refused counts of the three buckets.
    pub fn metrics(&self) -> (m: TelemetryRateLimitMetrics)
        ensures
            m.traces_acquired == self@.trace.acquired,
            m.traces_rejected == self@.trace.rejected,
            m.metrics_acquired == self@.metric.acquired,
            m.metrics_rejected == self@.metric.rejected,
            m.events_acquired == self@.event.acquired,
            m.events_rejected == self@.event.rejected,
    {
        TelemetryRateLimitMetrics {
            traces_acquired: self.trace.acquired(),
            traces_rejected: self.trace.rejected(),
            metrics_acquired: self.metric.acquired(),
            metrics_rejected: self.metric.rejected(),
            events_acquired: self.event.acquired(),
            events_rejected: self.event.rejected(),
        }
    }

    /// Refills every bucket and starts a new window at `now`; counts stay.
    pub fn reset_all_at(&mut self, now: u64)
        ensures
            final(self).wf(),
            final(self)@.trace == reset_bucket(old(self)@.trace, now as nat),
            final(self)@.metric == reset_bucket(old(self)@.metric, now as nat),
            final(self)@.event == reset_bucket(old(self)@.event, now as nat),
    {
        self.trace.reset_at(now);
        self.metric.reset_at(now);
        self.event.reset_at(now);
    }

    /// Refills every bucket now; counts stay.
    pub fn reset_all(&mut self)
        ensures
            final(self).wf(),
            exists|now: nat|
                final(self)@ == #[trigger] reset_all_spec(old(self)@, now),
    {
        let now = self.now();
        self.reset_all_at(now);
        assert(self@ == reset_all_spec(old(self)@, now as nat));
    }

    /// Some bucket is empty at `now`.
    pub fn any_exhausted_at(&self, now: u64) -> (r: bool)
        requires
            self.wf(),
        ensures
            r == (refilled(self@.trace, now as nat).tokens == 0
                || refilled(self@.metric, now as nat).tokens == 0
                || refilled(self@.event, now as nat).tokens == 0),
    {
        self.remaining_traces_at(now) == 0 || self.remaining_metrics_at(now) == 0
            || self.remaining_events_at(now) == 0
    }

    /// Some bucket is empty now.
    pub fn any_exhausted(&self) -> (r: bool)
        requires
            self.wf(),
        ensures
            exists|now: nat|
                r == (#[trigger] refilled(self@.trace, now).tokens == 0
                    || refilled(self@.metric, now).tokens == 0
                    || refilled(self@.event, now).tokens == 0),
    {
        let now = self.now();
        self.any_exhausted_at(now)
    }
}

impl Default for TelemetryRateLimiter {
    /// The same as [`TelemetryRateLimiter::new`].
    fn default() -> (l: Self)
        ensures
            l.wf(),
            l@.trace == fresh_bucket(DEFAULT_TRACE_LIMIT, default_window_nanos()),
            l@.metric == fresh_bucket(DEFAULT_METRIC_LIMIT, default_window_nanos()),
            l@.event == fresh_bucket(DEFAULT_EVENT_LIMIT, default_window_nanos()),
    {
        Self::new()
    }
}

} // verus!
