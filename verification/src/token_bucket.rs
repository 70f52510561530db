//! A windowed token bucket.
//!
//! A bucket holds at most `capacity` tokens. Each granted request takes one
//! token; a request that finds the bucket empty is refused. Once a whole
//! window has elapsed since the bucket was last refilled, the next request
//! (or reading) finds it full again. Every operation takes the clock reading
//! `now`, in nanoseconds on the caller's clock.

use vstd::prelude::*;

verus! {

/// Adds one to a counter, saturating at `u64::MAX`.
pub open spec fn bump(n: u64) -> u64 {
    if n < u64::MAX {
        (n + 1) as u64
    } else {
        n
    }
}

/// Abstract state of a [`TokenBucket`].
pub struct BucketView {
    /// Tokens in a full bucket.
    pub capacity: nat,
    /// Length of the refill window, in nanoseconds.
    pub window: nat,
    /// Tokens left in the current window.
    pub tokens: nat,
    /// Clock reading at which the current window began.
    pub window_start: nat,
    /// Requests granted so far (saturating).
    pub acquired: u64,
    /// Requests refused so far (saturating).
    pub rejected: u64,
}

/// The bucket as seen at `now`: full again, with a new window starting at
/// `now`, once a whole window has elapsed; unchanged otherwise.
pub open spec fn refilled(b: BucketView, now: nat) -> BucketView {
    if now >= b.window_start + b.window {
        BucketView { tokens: b.capacity, window_start: now, ..b }
    } else {
        b
    }
}

/// One request at `now`: the bucket after it, and whether it was granted.
pub open spec fn acquire_step(b: BucketView, now: nat) -> (BucketView, bool) {
    let r = refilled(b, now);
    if r.tokens > 0 {
        (BucketView { tokens: (r.tokens - 1) as nat, acquired: bump(r.acquired), ..r }, true)
    } else {
        (BucketView { rejected: bump(r.rejected), ..r }, false)
    }
}

/// A run of requests at the clock readings `times`, in order: the bucket
/// after them, and which of them were granted.
pub open spec fn run(b: BucketView, times: Seq<nat>) -> (BucketView, Seq<bool>)
    decreases times.len(),
{
    if times.len() == 0 {
        (b, Seq::empty())
    } else {
        let (b1, granted) = acquire_step(b, times[0]);
        let (bn, rest) = run(b1, times.drop_first());
        (bn, seq![granted] + rest)
    }
}

/// A well-formed bucket never holds more than its capacity.
pub open spec fn bucket_wf(b: BucketView) -> bool {
    b.tokens <= b.capacity
}

/// A request preserves well-formedness and leaves capacity and window alone.
pub proof fn lemma_step_wf(b: BucketView, now: nat)
    requires
        bucket_wf(b),
    ensures
        bucket_wf(acquire_step(b, now).0),
        acquire_step(b, now).0.capacity == b.capacity,
        acquire_step(b, now).0.window == b.window,
{
}

/// Within one window, a bucket holding `t` tokens grants exactly the first
/// `t` requests and refuses every later one: no window ever lets more than
/// the bucket's tokens through.
pub proof fn lemma_window_grants_first_tokens(b: BucketView, times: Seq<nat>)
    requires
        forall|i: int| 0 <= i < times.len() ==> times[i] < b.window_start + b.window,
    ensures
        run(b, times).1.len() == times.len(),
        forall|i: int| 0 <= i < times.len() ==> (#[trigger] run(b, times).1[i] <==> i < b.tokens),
        run(b, times).0.tokens == if times.len() <= b.tokens {
            (b.tokens - times.len()) as nat
        } else {
            0nat
        },
        run(b, times).0.window_start == b.window_start,
    decreases times.len(),
{
    if times.len() > 0 {
        let (b1, granted) = acquire_step(b, times[0]);
        let rest = times.drop_first();
        assert forall|i: int| 0 <= i < rest.len() implies rest[i] < b1.window_start + b1.window by {
            assert(rest[i] == times[i + 1]);
        }
        lemma_window_grants_first_tokens(b1, rest);
        let out = run(b, times).1;
        assert forall|i: int| 0 <= i < times.len() implies (out[i] <==> i < b.tokens) by {
            if i > 0 {
                assert(out[i] == run(b1, rest).1[i - 1]);
            }
        }
    }
}

/// Once a whole window has elapsed, a bucket of positive capacity grants
/// the next request.
pub proof fn lemma_refill_after_window(b: BucketView, now: nat)
    requires
        now >= b.window_start + b.window,
        b.capacity > 0,
    ensures
        acquire_step(b, now).1,
        acquire_step(b, now).0.tokens == b.capacity - 1,
{
}

/// A token bucket with a fixed capacity and refill window.
#[derive(Debug)]
pub struct TokenBucket {
    capacity: u32,
    window: u128,
    tokens: u32,
    window_start: u64,
    acquired: u64,
    rejected: u64,
}

impl View for TokenBucket {
    type V = BucketView;

    closed spec fn view(&self) -> BucketView {
        BucketView {
            capacity: self.capacity as nat,
            window: self.window as nat,
            tokens: self.tokens as nat,
            window_start: self.window_start as nat,
            acquired: self.acquired,
            rejected: self.rejected,
        }
    }
}

impl TokenBucket {
    /// The bucket's tokens never exceed its capacity.
    pub closed spec fn wf(&self) -> bool {
        self.tokens <= self.capacity
    }

    /// A full bucket whose first window starts at `now`, with no request
    /// counted yet.
    pub fn new(capacity: u32, window: u128, now: u64) -> (b: Self)
        ensures
            b.wf(),
            b@ == (BucketView {
                capacity: capacity as nat,
                window: window as nat,
                tokens: capacity as nat,
                window_start: now as nat,
                acquired: 0,
                rejected: 0,
            }),
    {
        TokenBucket { capacity, window, tokens: capacity, window_start: now, acquired: 0, rejected: 0 }
    }

    fn window_elapsed(&self, now: u64) -> (r: bool)
        ensures
            r == (now as nat >= self@.window_start + self@.window),
    {
        now >= self.window_start && ((now - self.window_start) as u128) >= self.window
    }

    /// Takes one token at `now` if there is one (see [`acquire_step`]).
    pub fn try_acquire_at(&mut self, now: u64) -> (granted: bool)
        requires
            old(self).wf(),
        ensures
            final(self).wf(),
            (final(self)@, granted) == acquire_step(old(self)@, now as nat),
    {
        if self.window_elapsed(now) {
            self.tokens = self.capacity;
            self.window_start = now;
        }
        if self.tokens > 0 {
            self.tokens = self.tokens - 1;
            self.acquired = self.acquired.saturating_add(1);
            true
        } else {
            self.rejected = self.rejected.saturating_add(1);
            false
        }
    }

    /// Tokens left at `now`, counting a refill that is due.
    pub fn available_at(&self, now: u64) -> (n: u32)
        requires
            self.wf(),
        ensures
            n == refilled(self@, now as nat).tokens,
    {
        if self.window_elapsed(now) {
            self.capacity
        } else {
            self.tokens
        }
    }

    /// Fills the bucket and starts a new window at `now`; the counters stay.
    pub fn reset_at(&mut self, now: u64)
        ensures
            final(self).wf(),
            final(self)@ == (BucketView {
                tokens: old(self)@.capacity,
                window_start: now as nat,
                ..old(self)@
            }),
    {
        self.tokens = self.capacity;
        self.window_start = now;
    }

    /// Requests granted so far.
    pub fn acquired(&self) -> (n: u64)
        ensures
            n == self@.acquired,
    {
        self.acquired
    }

    /// Requests refused so far.
    pub fn rejected(&self) -> (n: u64)
        ensures
            n == self@.rejected,
    {
        self.rejected
    }

    /// Tokens in a full bucket.
    pub fn capacity(&self) -> (n: u32)
        ensures
            n == self@.capacity,
    {
        self.capacity
    }
}

} // verus!
