//! The bounded, stale-evicting connection pool shared by the telemetry and
//! security layers.
//!
//! Connections carry the clock reading (in nanoseconds since the pool was
//! created) at which they were last used; a connection idle for longer than
//! the pool's `max_idle` is stale. Every operation is specified for an
//! explicit clock reading `now`.

use std::collections::VecDeque;
use std::time::Instant;
use vstd::prelude::*;

use crate::clock::{elapsed_nanos, instant_now};

verus! {

/// A single connection managed by a pool.
#[derive(Debug)]
pub struct PoolConnection {
    /// Identifier of the connection, unique within its pool.
    pub id: u64,
    /// Endpoint this connection targets.
    pub endpoint: String,
    last_used: u64,
}

/// Abstract view of a [`PoolConnection`].
pub struct ConnView {
    pub id: u64,
    pub endpoint: Seq<char>,
    /// Clock reading at which the connection was last used.
    pub last_used: u64,
}

impl ConnView {
    /// The connection has been idle for longer than `max_idle` at `now`.
    pub open spec fn stale_at(self, now: u64, max_idle: nat) -> bool {
        now - self.last_used > max_idle
    }
}

impl View for PoolConnection {
    type V = ConnView;

    closed spec fn view(&self) -> ConnView {
        ConnView { id: self.id, endpoint: self.endpoint@, last_used: self.last_used }
    }
}

impl PoolConnection {
    /// The connection's identifier.
    pub fn id(&self) -> (r: u64)
        ensures
            r == self@.id,
    {
        self.id
    }

    fn is_stale(&self, now: u64, max_idle: u128) -> (r: bool)
        ensures
            r == self@.stale_at(now, max_idle as nat),
    {
        now > self.last_used && ((now - self.last_used) as u128) > max_idle
    }
}

/// The views of a sequence of connections.
pub open spec fn views(s: Seq<PoolConnection>) -> Seq<ConnView> {
    s.map_values(|c: PoolConnection| c@)
}

/// The idle connections that are not stale at `now`, in their order.
pub open spec fn fresh_idle(idle: Seq<ConnView>, now: u64, max_idle: nat) -> Seq<ConnView>
    decreases idle.len(),
{
    if idle.len() == 0 {
        Seq::empty()
    } else {
        let rest = fresh_idle(idle.drop_last(), now, max_idle);
        if idle.last().stale_at(now, max_idle) {
            rest
        } else {
            rest.push(idle.last())
        }
    }
}

proof fn lemma_fresh_idle_len(idle: Seq<ConnView>, now: u64, max_idle: nat)
    ensures
        fresh_idle(idle, now, max_idle).len() <= idle.len(),
    decreases idle.len(),
{
    if idle.len() > 0 {
        lemma_fresh_idle_len(idle.drop_last(), now, max_idle);
    }
}

/// `a - b` on naturals, floored at zero.
pub open spec fn sat_sub(a: nat, b: nat) -> nat {
    if a >= b {
        (a - b) as nat
    } else {
        0
    }
}

/// Abstract state of a [`BoundedPool`].
pub struct PoolView {
    /// Idle connections, oldest release first.
    pub idle: Seq<ConnView>,
    /// Connections in existence (idle or in use).
    pub total: nat,
    /// Identifier the next new connection receives.
    pub next_id: nat,
    /// Hard cap on `total` for new connections.
    pub max_size: nat,
    /// Idle time, in nanoseconds, beyond which a connection is stale.
    pub max_idle: nat,
    /// Endpoint every new connection targets.
    pub endpoint: Seq<char>,
}

/// The pool after stale idle connections are evicted at `now`.
pub open spec fn evicted(p: PoolView, now: u64) -> PoolView {
    let idle = fresh_idle(p.idle, now, p.max_idle);
    PoolView { idle, total: sat_sub(p.total, (p.idle.len() - idle.len()) as nat), ..p }
}

/// The connection a fallible acquisition handed out, if any.
#[verifier::opaque]
pub open spec fn conn_of<E>(r: Result<PoolConnection, E>) -> Option<PoolConnection> {
    match r {
        Ok(c) => Some(c),
        Err(_) => None,
    }
}

/// What an acquisition at `now` does, over views: evict stale idle
/// connections, then hand out the oldest idle one, or else create a new
/// connection when the pool is under its cap, or else fail (`None`).
pub open spec fn acquire_view_spec(p: PoolView, now: u64, q: PoolView, r: Option<ConnView>) -> bool {
    let e = evicted(p, now);
    if e.idle.len() > 0 {
        &&& r is Some
        &&& r->0 == e.idle[0]
        &&& q == PoolView { idle: e.idle.drop_first(), ..e }
    } else if e.total >= e.max_size {
        &&& r is None
        &&& q == e
    } else {
        &&& r is Some
        &&& r->0 == ConnView { id: p.next_id as u64, endpoint: p.endpoint, last_used: now }
        &&& q == PoolView { total: e.total + 1, next_id: p.next_id + 1, ..e }
    }
}

/// The view of the connection an acquisition handed out, if any.
pub open spec fn handed_view(r: Option<PoolConnection>) -> Option<ConnView> {
    match r {
        Some(c) => Some(c@),
        None => None,
    }
}

/// What an acquisition at `now` does (see [`acquire_view_spec`]).
pub open spec fn acquire_spec(p: PoolView, now: u64, q: PoolView, r: Option<PoolConnection>) -> bool {
    acquire_view_spec(p, now, q, handed_view(r))
}

/// What releasing `c` at `now` does: a stale connection is dropped and
/// `total` decremented (floored at zero); otherwise it is marked used at
/// `now` and queued behind the idle connections.
pub open spec fn release_spec(p: PoolView, c: ConnView, now: u64, q: PoolView) -> bool {
    if c.stale_at(now, p.max_idle) {
        q == PoolView { total: sat_sub(p.total, 1), ..p }
    } else {
        q == PoolView { idle: p.idle.push(ConnView { last_used: now, ..c }), ..p }
    }
}

/// No two of `s` share an identifier.
pub open spec fn distinct_ids(s: Seq<ConnView>) -> bool {
    forall|i: int, j: int| 0 <= i < j < s.len() ==> #[trigger] s[i].id != #[trigger] s[j].id
}

/// The idle connections kept at `now` are some of the idle connections, in
/// their order, and keep distinct identifiers.
proof fn lemma_fresh_idle_sub(idle: Seq<ConnView>, now: u64, max_idle: nat)
    ensures
        forall|k: int|
            0 <= k < fresh_idle(idle, now, max_idle).len() ==> exists|m: int|
                0 <= m < idle.len() && #[trigger] fresh_idle(idle, now, max_idle)[k] == idle[m],
        distinct_ids(idle) ==> distinct_ids(fresh_idle(idle, now, max_idle)),
    decreases idle.len(),
{
    if idle.len() > 0 {
        let d = idle.drop_last();
        lemma_fresh_idle_sub(d, now, max_idle);
        lemma_fresh_idle_len(d, now, max_idle);
        let rest = fresh_idle(d, now, max_idle);
        let f = fresh_idle(idle, now, max_idle);
        assert forall|k: int| 0 <= k < f.len() implies exists|m: int|
            0 <= m < idle.len() && #[trigger] f[k] == idle[m] by {
            if k < rest.len() {
                assert(f[k] == rest[k]);
                let m = choose|m: int| 0 <= m < d.len() && rest[k] == d[m];
                assert(d[m] == idle[m]);
            } else {
                assert(f[k] == idle[idle.len() - 1]);
            }
        }
        if distinct_ids(idle) {
            assert(distinct_ids(d)) by {
                assert forall|i: int, j: int| 0 <= i < j < d.len() implies #[trigger] d[i].id != #[trigger] d[j].id by {
                    assert(d[i] == idle[i] && d[j] == idle[j]);
                }
            }
            if !idle.last().stale_at(now, max_idle) {
                assert forall|i: int, j: int| 0 <= i < j < f.len() implies #[trigger] f[i].id != #[trigger] f[j].id by {
                    assert(f[i] == rest[i]);
                    let m = choose|m: int| 0 <= m < d.len() && rest[i] == d[m];
                    assert(d[m] == idle[m]);
                    if j < rest.len() {
                        assert(f[j] == rest[j]);
                    } else {
                        assert(f[j] == idle[idle.len() - 1]);
                    }
                }
            }
        }
    }
}

/// The pool's books balance against `lent`, the identifiers of the
/// connections it has handed out and not yet taken back: the idle
/// connections and the lent ones make up `total`, which stays within
/// `max_size`; no identifier is both idle and lent, none is idle twice, and
/// all were given out before `next_id`.
pub open spec fn accounted(p: PoolView, lent: Set<u64>) -> bool {
    &&& lent.finite()
    &&& p.idle.len() + lent.len() == p.total
    &&& p.total <= p.max_size
    &&& distinct_ids(p.idle)
    &&& forall|i: int| 0 <= i < p.idle.len() ==> !lent.contains(#[trigger] p.idle[i].id)
    &&& forall|i: int| 0 <= i < p.idle.len() ==> (#[trigger] p.idle[i]).id < p.next_id
    &&& forall|x: u64| #[trigger] lent.contains(x) ==> x < p.next_id
}

/// A new pool balances with nothing lent.
pub proof fn lemma_new_pool_accounted(p: PoolView)
    requires
        p.idle.len() == 0,
        p.total == 0,
    ensures
        accounted(p, Set::empty()),
{
}

/// Eviction keeps the books balanced.
proof fn lemma_evicted_accounted(p: PoolView, now: u64, lent: Set<u64>)
    requires
        accounted(p, lent),
    ensures
        accounted(evicted(p, now), lent),
{
    let f = fresh_idle(p.idle, now, p.max_idle);
    lemma_fresh_idle_len(p.idle, now, p.max_idle);
    lemma_fresh_idle_sub(p.idle, now, p.max_idle);
    let e = evicted(p, now);
    assert(e.idle == f);
    assert forall|i: int| 0 <= i < f.len() implies !lent.contains(#[trigger] f[i].id) && f[i].id < p.next_id by {
        let m = choose|m: int| 0 <= m < p.idle.len() && f[i] == p.idle[m];
        assert(!lent.contains(p.idle[m].id));
    }
}

/// Every acquisition keeps the books balanced: a connection handed out was
/// not lent before and is lent after, so `idle <= total <= max_size` holds
/// throughout.
pub proof fn lemma_acquire_keeps_accounted(
    p: PoolView,
    now: u64,
    q: PoolView,
    r: Option<PoolConnection>,
    lent: Set<u64>,
)
    requires
        accounted(p, lent),
        p.next_id < u64::MAX,
        acquire_spec(p, now, q, r),
    ensures
        match r {
            Some(c) => !lent.contains(c@.id) && accounted(q, lent.insert(c@.id)),
            None => accounted(q, lent),
        },
        q.idle.len() <= q.total <= q.max_size,
{
    lemma_acquire_view_keeps_accounted(p, now, q, handed_view(r), lent);
}

/// [`lemma_acquire_keeps_accounted`], over the view of the connection
/// handed out.
proof fn lemma_acquire_view_keeps_accounted(p: PoolView, now: u64, q: PoolView, r: Option<ConnView>, lent: Set<u64>)
    requires
        accounted(p, lent),
        p.next_id < u64::MAX,
        acquire_view_spec(p, now, q, r),
    ensures
        match r {
            Some(c) => !lent.contains(c.id) && accounted(q, lent.insert(c.id)),
            None => accounted(q, lent),
        },
        q.idle.len() <= q.total <= q.max_size,
{
    lemma_evicted_accounted(p, now, lent);
    let e = evicted(p, now);
    if e.idle.len() > 0 {
        let c = r->0;
        assert(c == e.idle[0]);
        assert(!lent.contains(e.idle[0].id));
        let l2 = lent.insert(c.id);
        assert(l2.len() == lent.len() + 1);
        let qi = e.idle.drop_first();
        assert forall|i: int| 0 <= i < qi.len() implies !l2.contains(#[trigger] qi[i].id) by {
            assert(qi[i] == e.idle[i + 1]);
            assert(e.idle[0].id != e.idle[i + 1].id);
        }
        assert forall|i: int, j: int| 0 <= i < j < qi.len() implies #[trigger] qi[i].id != #[trigger] qi[j].id by {
            assert(qi[i] == e.idle[i + 1] && qi[j] == e.idle[j + 1]);
        }
        assert forall|i: int| 0 <= i < qi.len() implies (#[trigger] qi[i]).id < q.next_id by {
            assert(qi[i] == e.idle[i + 1]);
        }
    } else if e.total >= e.max_size {
    } else {
        let c = r->0;
        assert(c.id == p.next_id);
        assert(!lent.contains(c.id));
        let l2 = lent.insert(c.id);
        assert(l2.len() == lent.len() + 1);
    }
}

/// Every release of a lent connection keeps the books balanced, the
/// connection no longer lent, so `idle <= total <= max_size` holds
/// throughout.
pub proof fn lemma_release_keeps_accounted(p: PoolView, c: ConnView, now: u64, q: PoolView, lent: Set<u64>)
    requires
        accounted(p, lent),
        lent.contains(c.id),
        release_spec(p, c, now, q),
    ensures
        accounted(q, lent.remove(c.id)),
        q.idle.len() <= q.total <= q.max_size,
{
    let l2 = lent.remove(c.id);
    assert(l2.len() == lent.len() - 1);
    if !c.stale_at(now, p.max_idle) {
        let back = ConnView { last_used: now, ..c };
        let qi = p.idle.push(back);
        assert(qi[p.idle.len() as int] == back);
        assert forall|i: int| 0 <= i < p.idle.len() implies qi[i] == p.idle[i] by {}
        assert forall|i: int| 0 <= i < qi.len() implies !l2.contains(#[trigger] qi[i].id) by {
            if i < p.idle.len() {
                assert(qi[i] == p.idle[i]);
            }
        }
        assert forall|i: int, j: int| 0 <= i < j < qi.len() implies #[trigger] qi[i].id != #[trigger] qi[j].id by {
            assert(qi[i] == p.idle[i]);
            if j < p.idle.len() {
                assert(qi[j] == p.idle[j]);
            }
        }
        assert forall|i: int| 0 <= i < qi.len() implies (#[trigger] qi[i]).id < q.next_id by {
            if i < p.idle.len() {
                assert(qi[i] == p.idle[i]);
            }
        }
    }
}

/// One call on a pool, with what it handed out or took back.
pub enum PoolStep {
    /// An acquisition at `now` that handed out `handed` (`None` when the
    /// pool was exhausted).
    Acquire { now: u64, handed: Option<ConnView> },
    /// The release of `conn` at `now`.
    Release { conn: ConnView, now: u64 },
}

/// `q` is what step `s` makes of `p`.
pub open spec fn step_spec(p: PoolView, s: PoolStep, q: PoolView) -> bool {
    match s {
        PoolStep::Acquire { now, handed } => acquire_view_spec(p, now, q, handed),
        PoolStep::Release { conn, now } => release_spec(p, conn, now, q),
    }
}

/// The identifiers lent out after step `s`, `lent` being those before it.
pub open spec fn lent_after(lent: Set<u64>, s: PoolStep) -> Set<u64> {
    match s {
        PoolStep::Acquire { handed, .. } => match handed {
            Some(c) => lent.insert(c.id),
            None => lent,
        },
        PoolStep::Release { conn, .. } => lent.remove(conn.id),
    }
}

/// The identifiers lent out after the first `k` steps of a session that
/// began with nothing lent.
pub open spec fn lent_at(steps: Seq<PoolStep>, k: int) -> Set<u64>
    decreases k,
{
    if k <= 0 {
        Set::empty()
    } else {
        lent_after(lent_at(steps, k - 1), steps[k - 1])
    }
}

/// `states` is a session of `steps` on one pool: each state is what the
/// step before it made of the state before that; every acquisition can
/// number a new connection, and every release gives back a connection that
/// is lent out at that point (handed out by this pool, not yet released).
pub open spec fn pool_session(states: Seq<PoolView>, steps: Seq<PoolStep>) -> bool {
    &&& states.len() == steps.len() + 1
    &&& forall|i: int| 0 <= i < steps.len() ==> step_spec(states[i], #[trigger] steps[i], states[i + 1])
    &&& forall|i: int|
        0 <= i < steps.len() && (#[trigger] steps[i] is Acquire) ==> states[i].next_id < u64::MAX
    &&& forall|i: int|
        0 <= i < steps.len() ==> (#[trigger] steps[i] matches PoolStep::Release { conn, .. } ==> lent_at(
            steps,
            i,
        ).contains(conn.id))
}

proof fn lemma_session_accounted(states: Seq<PoolView>, steps: Seq<PoolStep>, k: int)
    requires
        pool_session(states, steps),
        states[0].idle.len() == 0,
        states[0].total == 0,
        0 <= k <= steps.len(),
    ensures
        accounted(states[k], lent_at(steps, k)),
    decreases k,
{
    if k == 0 {
        lemma_new_pool_accounted(states[0]);
    } else {
        lemma_session_accounted(states, steps, k - 1);
        let i = k - 1;
        let s = steps[i];
        assert(step_spec(states[i], s, states[i + 1]));
        match s {
            PoolStep::Acquire { now, handed } => {
                assert(s is Acquire);
                lemma_acquire_view_keeps_accounted(states[i], now, states[k], handed, lent_at(steps, i));
            },
            PoolStep::Release { conn, now } => {
                assert(lent_at(steps, i).contains(conn.id));
                lemma_release_keeps_accounted(states[i], conn, now, states[k], lent_at(steps, i));
            },
        }
    }
}

/// Over any session on a pool that starts empty, in which every release
/// gives back a connection the pool handed out and that has not been
/// released since, the pool never has more idle connections than
/// connections, nor more connections than its cap.
pub proof fn lemma_session_counts_bounded(states: Seq<PoolView>, steps: Seq<PoolStep>)
    requires
        pool_session(states, steps),
        states[0].idle.len() == 0,
        states[0].total == 0,
    ensures
        forall|k: int|
            0 <= k < states.len() ==> (#[trigger] states[k]).idle.len() <= states[k].total <= states[k].max_size,
{
    assert forall|k: int| 0 <= k < states.len() implies (#[trigger] states[k]).idle.len() <= states[k].total
        <= states[k].max_size by {
        lemma_session_accounted(states, steps, k);
    }
}

/// A bounded pool of connections to one endpoint.
pub struct BoundedPool {
    endpoint: String,
    max_size: usize,
    max_idle: u128,
    available: VecDeque<PoolConnection>,
    total: usize,
    next_id: u64,
    epoch: Instant,
}

impl View for BoundedPool {
    type V = PoolView;

    closed spec fn view(&self) -> PoolView {
        PoolView {
            idle: views(self.available@),
            total: self.total as nat,
            next_id: self.next_id as nat,
            max_size: self.max_size as nat,
            max_idle: self.max_idle as nat,
            endpoint: self.endpoint@,
        }
    }
}

impl BoundedPool {
    /// The pool's counters fit their machine types.
    pub closed spec fn wf(&self) -> bool {
        self.next_id >= 1
    }

    /// Another connection can be numbered without overflow.
    pub open spec fn can_number(&self) -> bool {
        self@.next_id < u64::MAX
    }

    /// An empty pool; the first connection it creates is numbered 1.
    pub fn new(endpoint: String, max_size: usize, max_idle: u128) -> (p: Self)
        ensures
            p.wf(),
            p@.idle.len() == 0,
            p@.total == 0,
            p@.next_id == 1,
            p@.max_size == max_size,
            p@.max_idle == max_idle,
            p@.endpoint == endpoint@,
    {
        BoundedPool {
            endpoint,
            max_size,
            max_idle,
            available: VecDeque::new(),
            total: 0,
            next_id: 1,
            epoch: instant_now(),
        }
    }

    /// Evicts idle connections that are stale at `now`.
    fn evict_stale_at(&mut self, now: u64)
        requires
            old(self).wf(),
        ensures
            final(self).wf(),
            final(self)@ == evicted(old(self)@, now),
            final(self).next_id == old(self).next_id,
    {
        let ghost old_idle = views(self.available@);
        let before = self.available.len();
        let mut kept: VecDeque<PoolConnection> = VecDeque::new();
        let mut i: usize = 0;
        while i < before
            invariant
                before == old_idle.len(),
                i <= before,
                self.total == old(self).total,
                self.next_id == old(self).next_id,
                self.max_size == old(self).max_size,
                self.max_idle == old(self).max_idle,
                self.endpoint@ == old(self).endpoint@,
                old_idle == old(self)@.idle,
                views(self.available@) == old_idle.subrange(i as int, before as int),
                views(kept@) == fresh_idle(old_idle.subrange(0, i as int), now, self.max_idle as nat),
            decreases before - i,
        {
            let ghost avail_before = self.available@;
            let ghost kept_before = kept@;
            assert(views(self.available@).len() == self.available@.len());
            let c = self.available.pop_front().unwrap();
            proof {
                assert(old_idle.subrange(0, i + 1).drop_last() =~= old_idle.subrange(0, i as int));
                assert(old_idle[i as int] == views(avail_before)[0]);
                assert(views(self.available@) =~= views(avail_before).subrange(1, views(avail_before).len() as int));
                assert(views(self.available@) =~= old_idle.subrange(i + 1, before as int));
            }
            if !c.is_stale(now, self.max_idle) {
                kept.push_back(c);
                proof {
                    assert(views(kept@) =~= views(kept_before).push(c@));
                }
            }
            i = i + 1;
        }
        proof {
            assert(old_idle.subrange(0, before as int) =~= old_idle);
            lemma_fresh_idle_len(old_idle, now, self.max_idle as nat);
        }
        let after = kept.len();
        self.available = kept;
        let removed = before - after;
        self.total = if self.total >= removed {
            self.total - removed
        } else {
            0
        };
    }

    /// Acquires a connection at clock reading `now` (see [`acquire_spec`]).
    pub fn acquire_at(&mut self, now: u64) -> (r: Option<PoolConnection>)
        requires
            old(self).wf(),
            old(self).can_number(),
        ensures
            final(self).wf(),
            acquire_spec(old(self)@, now, final(self)@, r),
            old(self)@.total <= old(self)@.max_size ==> final(self)@.total <= final(self)@.max_size,
    {
        self.evict_stale_at(now);
        if self.available.len() > 0 {
            let ghost avail_before = self.available@;
            let c = self.available.pop_front().unwrap();
            proof {
                assert(views(self.available@) =~= views(avail_before).drop_first());
            }
            return Some(c);
        }
        if self.total >= self.max_size {
            return None;
        }
        let id = self.next_id;
        self.next_id = self.next_id + 1;
        self.total = self.total + 1;
        let endpoint = self.endpoint.clone();
        Some(PoolConnection { id, endpoint, last_used: now })
    }

    /// Releases `conn` back to the pool at clock reading `now` (see
    /// [`release_spec`]).
    pub fn release_at(&mut self, conn: PoolConnection, now: u64)
        requires
            old(self).wf(),
        ensures
            final(self).wf(),
            release_spec(old(self)@, conn@, now, final(self)@),
            old(self)@.total <= old(self)@.max_size ==> final(self)@.total <= final(self)@.max_size,
    {
        let mut conn = conn;
        if conn.is_stale(now, self.max_idle) {
            self.total = if self.total >= 1 {
                self.total - 1
            } else {
                0
            };
            return;
        }
        conn.last_used = now;
        let ghost avail_before = self.available@;
        self.available.push_back(conn);
        proof {
            assert(views(self.available@) =~= views(avail_before).push(conn@));
        }
    }

    /// The current clock reading of this pool, in nanoseconds since it was
    /// created.
    pub fn now(&self) -> u64 {
        elapsed_nanos(&self.epoch)
    }

    /// Number of idle connections.
    pub fn idle_count(&self) -> (n: usize)
        ensures
            n == self@.idle.len(),
    {
        self.available.len()
    }

    /// Number of connections in existence.
    pub fn total_count(&self) -> (n: usize)
        ensures
            n == self@.total,
    {
        self.total
    }
}

} // verus!
