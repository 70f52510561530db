//! Rotating secrets: after a rotation, the previous value stays valid for a
//! grace period so that signatures made with it are still accepted.

use std::time::Instant;
use vstd::prelude::*;

use crate::clock::{elapsed_nanos, instant_now, NANOS_PER_SEC};
use crate::text::{concat, str_eq};

verus! {

/// How long, in seconds, the previous value stays valid after a rotation.
pub const ROTATION_GRACE_PERIOD_SECS: u64 = 300;

/// How often, in seconds, secrets are refreshed from the vault.
pub const REFRESH_INTERVAL_SECS: u64 = 300;

/// A secret with its current value and, after a rotation, the previous value
/// and when it was replaced.
#[derive(Debug, Clone)]
pub struct RotatingSecret {
    pub current: String,
    pub previous: Option<(String, Instant)>,
}

/// The grace period in nanoseconds.
pub open spec fn grace_nanos() -> nat {
    (ROTATION_GRACE_PERIOD_SECS * NANOS_PER_SEC) as nat
}

/// The texts of a sequence of borrowed strings.
pub open spec fn texts(v: Seq<&str>) -> Seq<Seq<char>> {
    v.map_values(|s: &str| s@)
}

/// The valid values of `s` when its rotation happened `since` nanoseconds
/// ago: the current value, then the previous one within the grace period.
pub open spec fn valid_after(s: RotatingSecret, since: nat) -> Seq<Seq<char>> {
    match s.previous {
        Some((p, _)) => if since < grace_nanos() {
            seq![s.current@, p@]
        } else {
            seq![s.current@]
        },
        None => seq![s.current@],
    }
}

/// The current value is always valid, and is the first one offered.
pub proof fn lemma_current_always_valid(s: RotatingSecret, since: nat)
    ensures
        valid_after(s, since).len() >= 1,
        valid_after(s, since)[0] == s.current@,
{
}

/// Once the grace period has passed since the rotation, only the current
/// value is valid; within it, the previous value is valid too.
pub proof fn lemma_grace_period_bounds_previous(s: RotatingSecret, since: nat)
    ensures
        since >= grace_nanos() ==> valid_after(s, since) == seq![s.current@],
        s.previous matches Some((p, _)) ==> (since < grace_nanos() ==> valid_after(s, since) == seq![s.current@, p@]),
{
}

/// Values only stop being valid as time passes: whatever is valid at a
/// later reading was valid at every earlier one.
pub proof fn lemma_validity_shrinks_over_time(s: RotatingSecret, since1: nat, since2: nat, x: Seq<char>)
    requires
        since1 <= since2,
        valid_after(s, since2).contains(x),
    ensures
        valid_after(s, since1).contains(x),
{
    let v2 = valid_after(s, since2);
    let j = choose|j: int| 0 <= j < v2.len() && v2[j] == x;
    assert(valid_after(s, since1)[j] == x);
}

impl RotatingSecret {
    /// A secret that has never been rotated.
    pub fn new(value: String) -> (s: Self)
        ensures
            s.current == value,
            s.previous is None,
    {
        RotatingSecret { current: value, previous: None }
    }

    /// The valid values when the rotation happened `since_rotation_ns`
    /// nanoseconds ago: the current value first, then the previous one while
    /// that is less than the grace period.
    pub fn valid_values_after(&self, since_rotation_ns: u64) -> (v: Vec<&str>)
        ensures
            texts(v@) == valid_after(*self, since_rotation_ns as nat),
    {
        let mut v: Vec<&str> = Vec::new();
        v.push(self.current.as_str());
        match &self.previous {
            Some((p, _)) => {
                if since_rotation_ns < ROTATION_GRACE_PERIOD_SECS * NANOS_PER_SEC {
                    v.push(p.as_str());
                }
            },
            None => {},
        }
        assert(texts(v@) =~= valid_after(*self, since_rotation_ns as nat));
        v
    }

    /// The currently valid values: the current value first, then the
    /// previous one while it is within its grace period (by the clock).
    pub fn valid_values(&self) -> (v: Vec<&str>)
        ensures
            exists|since: nat| texts(v@) == #[trigger] valid_after(*self, since),
    {
        let since = match &self.previous {
            Some((_, at)) => elapsed_nanos(at),
            None => 0,
        };
        self.valid_values_after(since)
    }

    /// Replaces the current value by `new_value`; the old current value
    /// becomes the previous one, rotated now.
    pub fn rotate(&mut self, new_value: String)
        ensures
            final(self).current == new_value,
            final(self).previous matches Some((p, _)) && p == old(self).current,
    {
        let mut value = new_value;
        std::mem::swap(&mut self.current, &mut value);
        self.previous = Some((value, instant_now()));
    }
}

impl RotatingSecret {
    /// Takes a value freshly read from the vault: a value that differs
    /// from the current one is rotated in; an equal value, or a failed
    /// read, leaves the secret as it was. Says whether it rotated.
    pub fn refresh(&mut self, fetched: Result<String, String>) -> (rotated: bool)
        ensures
            rotated == (fetched matches Ok(v) && v@ != old(self).current@),
            rotated ==> (fetched matches Ok(v) && final(self).current == v),
            rotated ==> (final(self).previous matches Some((p, _)) && p == old(self).current),
            !rotated ==> *final(self) == *old(self),
    {
        match fetched {
            Ok(v) => {
                if str_eq(self.current.as_str(), v.as_str()) {
                    false
                } else {
                    self.rotate(v);
                    true
                }
            },
            Err(_) => false,
        }
    }

    /// Every valid value, as owned strings: the current value first, then
    /// the previous one while it is within its grace period (by the clock).
    pub fn valid_owned(&self) -> (v: Vec<String>)
        ensures
            exists|since: nat| v@.map_values(|s: String| s@) == #[trigger] valid_after(*self, since),
    {
        let since = match &self.previous {
            Some((_, at)) => elapsed_nanos(at),
            None => 0,
        };
        let mut v: Vec<String> = Vec::new();
        v.push(self.current.clone());
        match &self.previous {
            Some((p, _)) => {
                if since < ROTATION_GRACE_PERIOD_SECS * NANOS_PER_SEC {
                    v.push(p.clone());
                }
            },
            None => {},
        }
        assert(v@.map_values(|s: String| s@) =~= valid_after(*self, since as nat));
        v
    }
}

/// The rotating secrets the application checks requests against: the
/// anchor's webhook secret and the admin API key.
#[derive(Debug, Clone)]
pub struct SecretsStore {
    pub anchor_webhook_secret: RotatingSecret,
    pub admin_api_key: RotatingSecret,
}

impl SecretsStore {
    /// A store of two secrets that have never been rotated.
    pub fn new(anchor_webhook_secret: String, admin_api_key: String) -> (s: Self)
        ensures
            s.anchor_webhook_secret.current == anchor_webhook_secret,
            s.anchor_webhook_secret.previous is None,
            s.admin_api_key.current == admin_api_key,
            s.admin_api_key.previous is None,
    {
        SecretsStore {
            anchor_webhook_secret: RotatingSecret::new(anchor_webhook_secret),
            admin_api_key: RotatingSecret::new(admin_api_key),
        }
    }

    /// The valid values of the anchor's webhook secret.
    pub fn valid_webhook_secrets(&self) -> (v: Vec<String>)
        ensures
            exists|since: nat| v@.map_values(|s: String| s@) == #[trigger] valid_after(
                self.anchor_webhook_secret,
                since,
            ),
    {
        self.anchor_webhook_secret.valid_owned()
    }

    /// The valid values of the admin API key.
    pub fn valid_admin_keys(&self) -> (v: Vec<String>)
        ensures
            exists|since: nat| v@.map_values(|s: String| s@) == #[trigger] valid_after(self.admin_api_key, since),
    {
        self.admin_api_key.valid_owned()
    }
}

/// The map that a list of `(name, value)` entries holds, later entries
/// taking precedence.
pub open spec fn entries_map(e: Seq<(Seq<char>, Seq<char>)>) -> Map<Seq<char>, Seq<char>>
    decreases e.len(),
{
    if e.len() == 0 {
        Map::empty()
    } else {
        entries_map(e.drop_last()).insert(e.last().0, e.last().1)
    }
}

/// Whether no two entries share a name.
pub open spec fn distinct_names(e: Seq<(Seq<char>, Seq<char>)>) -> bool {
    forall|i: int, j: int| 0 <= i < j < e.len() ==> e[i].0 != e[j].0
}

/// The texts of a list of owned `(name, value)` entries.
pub open spec fn entry_texts(e: Seq<(String, String)>) -> Seq<(Seq<char>, Seq<char>)> {
    e.map_values(|p: (String, String)| (p.0@, p.1@))
}

proof fn lemma_entries_map(e: Seq<(Seq<char>, Seq<char>)>)
    requires
        distinct_names(e),
    ensures
        forall|i: int|
            0 <= i < e.len() ==> #[trigger] entries_map(e).contains_key(e[i].0) && entries_map(e)[e[i].0]
                == e[i].1,
        forall|q: Seq<char>|
            #[trigger] entries_map(e).contains_key(q) ==> exists|i: int| 0 <= i < e.len() && e[i].0 == q,
        entries_map(e).dom() == e.map_values(|p: (Seq<char>, Seq<char>)| p.0).to_set(),
        entries_map(e).len() == e.len(),
    decreases e.len(),
{
    let names = e.map_values(|p: (Seq<char>, Seq<char>)| p.0);
    if e.len() == 0 {
        assert(names.to_set() =~= Set::<Seq<char>>::empty());
    } else {
        let f = e.drop_last();
        assert(distinct_names(f));
        lemma_entries_map(f);
        let fnames = f.map_values(|p: (Seq<char>, Seq<char>)| p.0);
        assert(names =~= fnames.push(e.last().0));
        fnames.lemma_push_to_set_commute(e.last().0);
        assert forall|i: int| 0 <= i < e.len() implies #[trigger] entries_map(e).contains_key(e[i].0)
            && entries_map(e)[e[i].0] == e[i].1 by {
            if i < e.len() - 1 {
                assert(f[i] == e[i]);
                assert(e[i].0 != e[e.len() - 1].0);
            }
        }
        assert forall|q: Seq<char>| #[trigger] entries_map(e).contains_key(q) implies exists|i: int|
            0 <= i < e.len() && e[i].0 == q by {
            if q != e.last().0 {
                assert(entries_map(f).contains_key(q));
                let i = choose|i: int| 0 <= i < f.len() && f[i].0 == q;
                assert(e[i] == f[i]);
            } else {
                assert(e[e.len() - 1].0 == q);
            }
        }
        assert(!fnames.contains(e.last().0)) by {
            if fnames.contains(e.last().0) {
                let k = fnames.index_of(e.last().0);
                assert(e[k].0 == e[e.len() - 1].0);
            }
        }
        assert(!entries_map(f).dom().contains(e.last().0));
    }
}

/// The message of a secret that is not set.
pub open spec fn missing_secret_message(key: Seq<char>) -> Seq<char> {
    "Secret '"@ + key + "' not found"@
}

/// A cache of secrets read from the environment.
#[derive(Debug, Clone)]
pub struct EnvSecretsManager {
    cache: Vec<(String, String)>,
}

impl View for EnvSecretsManager {
    type V = Map<Seq<char>, Seq<char>>;

    /// The cached secrets, by name.
    closed spec fn view(&self) -> Map<Seq<char>, Seq<char>> {
        entries_map(entry_texts(self.cache@))
    }
}

impl EnvSecretsManager {
    /// The cache's invariant: no name is cached twice.
    pub closed spec fn wf(&self) -> bool {
        distinct_names(entry_texts(self.cache@))
    }

    /// An empty cache.
    pub fn new() -> (m: Self)
        ensures
            m.wf(),
            m@ == Map::<Seq<char>, Seq<char>>::empty(),
    {
        let m = EnvSecretsManager { cache: Vec::new() };
        assert(entry_texts(m.cache@) =~= Seq::<(Seq<char>, Seq<char>)>::empty());
        m
    }

    fn position(&self, key: &str) -> (r: Option<usize>)
        requires
            self.wf(),
        ensures
            match r {
                Some(i) => i < self.cache@.len() && self.cache@[i as int].0@ == key@,
                None => forall|i: int| 0 <= i < self.cache@.len() ==> self.cache@[i].0@ != key@,
            },
    {
        let mut i: usize = 0;
        while i < self.cache.len()
            invariant
                i <= self.cache@.len(),
                forall|j: int| 0 <= j < i ==> self.cache@[j].0@ != key@,
            decreases self.cache@.len() - i,
        {
            if str_eq(self.cache[i].0.as_str(), key) {
                return Some(i);
            }
            i = i + 1;
        }
        None
    }

    /// The cached value of the secret named `key`, if any.
    pub fn cached(&self, key: &str) -> (r: Option<String>)
        requires
            self.wf(),
        ensures
            match r {
                Some(v) => self@.contains_key(key@) && v@ == self@[key@],
                None => !self@.contains_key(key@),
            },
    {
        proof {
            lemma_entries_map(entry_texts(self.cache@));
        }
        match self.position(key) {
            Some(i) => {
                let ghost e = entry_texts(self.cache@);
                assert(e[i as int].0 == key@);
                assert(entries_map(e).contains_key(e[i as int].0));
                assert(e[i as int].1 == self.cache@[i as int].1@);
                Some(self.cache[i].1.clone())
            },
            None => {
                proof {
                    if self@.contains_key(key@) {
                        let i = choose|i: int|
                            0 <= i < entry_texts(self.cache@).len() && entry_texts(self.cache@)[i].0 == key@;
                        assert(self.cache@[i].0@ == key@);
                    }
                }
                None
            },
        }
    }

    /// Caches `value` as the secret named `key`, replacing any cached
    /// value.
    pub fn rotate_secret(&mut self, key: &str, new_value: String)
        requires
            old(self).wf(),
        ensures
            final(self).wf(),
            final(self)@ == old(self)@.insert(key@, new_value@),
    {
        let ghost before = entry_texts(self.cache@);
        proof {
            lemma_entries_map(before);
        }
        match self.position(key) {
            Some(i) => {
                let name = self.cache[i].0.clone();
                self.cache.set(i, (name, new_value));
                let ghost after = entry_texts(self.cache@);
                assert(after =~= before.update(i as int, (key@, new_value@)));
                assert(distinct_names(after)) by {
                    assert forall|a: int, b: int| 0 <= a < b < after.len() implies after[a].0 != after[b].0 by {
                        assert(after[a].0 == before[a].0);
                        assert(after[b].0 == before[b].0);
                    }
                }
                proof {
                    lemma_entries_map(after);
                    assert forall|q: Seq<char>| #[trigger] entries_map(after).contains_key(q)
                        == before_insert_contains(before, key@, new_value@, q) by {
                        if entries_map(after).contains_key(q) {
                            let j = choose|j: int| 0 <= j < after.len() && after[j].0 == q;
                            assert(before[j].0 == q);
                        }
                        if entries_map(before).insert(key@, new_value@).contains_key(q) && q != key@ {
                            let j = choose|j: int| 0 <= j < before.len() && before[j].0 == q;
                            assert(after[j].0 == q);
                        }
                        if q == key@ {
                            assert(after[i as int].0 == q);
                        }
                    }
                    assert forall|q: Seq<char>| #[trigger] entries_map(after).contains_key(q) implies entries_map(
                        after,
                    )[q] == entries_map(before).insert(key@, new_value@)[q] by {
                        let j = choose|j: int| 0 <= j < after.len() && after[j].0 == q;
                        assert(entries_map(after).contains_key(after[j].0));
                        if j != i {
                            assert(before[j] == after[j]);
                            assert(entries_map(before).contains_key(before[j].0));
                            if j < i {
                                assert(before[j].0 != before[i as int].0);
                            } else {
                                assert(before[i as int].0 != before[j].0);
                            }
                        }
                    }
                    assert(entries_map(after) =~= entries_map(before).insert(key@, new_value@));
                }
            },
            None => {
                self.cache.push((key.to_string(), new_value));
                let ghost after = entry_texts(self.cache@);
                assert(after =~= before.push((key@, new_value@)));
                assert(after.drop_last() =~= before);
                assert(distinct_names(after)) by {
                    assert forall|a: int, b: int| 0 <= a < b < after.len() implies after[a].0 != after[b].0 by {
                        if b == after.len() - 1 {
                            assert(self.cache@[a].0@ != key@);
                        } else {
                            assert(after[a] == before[a] && after[b] == before[b]);
                        }
                    }
                }
            },
        }
    }

    /// Answers a cache miss for the secret named `key` with `env_value`,
    /// its value in the environment: a value is cached and returned; an
    /// unset secret is an error.
    pub fn remember(&mut self, key: &str, env_value: Option<String>) -> (r: Result<String, String>)
        requires
            old(self).wf(),
        ensures
            final(self).wf(),
            match env_value {
                Some(v) => r == Ok::<String, String>(v) && final(self)@ == old(self)@.insert(key@, v@),
                None => (r matches Err(m) && m@ == missing_secret_message(key@)) && final(self)@ == old(self)@,
            },
    {
        match env_value {
            Some(v) => {
                let copy = v.clone();
                self.rotate_secret(key, copy);
                Ok(v)
            },
            None => {
                let a = concat("Secret '", key);
                Err(concat(a.as_str(), "' not found"))
            },
        }
    }

    /// Forgets every cached secret.
    pub fn clear_cache(&mut self)
        ensures
            final(self).wf(),
            final(self)@ == Map::<Seq<char>, Seq<char>>::empty(),
    {
        self.cache = Vec::new();
        assert(entry_texts(self.cache@) =~= Seq::<(Seq<char>, Seq<char>)>::empty());
    }

    /// Number of cached secrets.
    pub fn cache_size(&self) -> (n: usize)
        requires
            self.wf(),
        ensures
            n == self@.len(),
    {
        proof {
            lemma_entries_map(entry_texts(self.cache@));
        }
        self.cache.len()
    }
}

/// Whether `q` is a name of the entries `before` once `key` is set.
pub open spec fn before_insert_contains(
    before: Seq<(Seq<char>, Seq<char>)>,
    key: Seq<char>,
    value: Seq<char>,
    q: Seq<char>,
) -> bool {
    entries_map(before).insert(key, value).contains_key(q)
}

} // verus!
