//! A key/value store whose entries go stale a fixed number of seconds after
//! they were written.
//!
//! Entries are stamped with a reading of a monotonic clock, in nanoseconds
//! since the cache was created, and are evicted lazily: a read that finds a
//! stale entry removes it.  Every operation that reads the clock has a twin
//! suffixed `_at` that takes the reading as an argument; the twins carry the
//! exact contracts.
use std::collections::HashMap;
use std::hash::Hash;
use std::time::{Duration, Instant};
use vstd::prelude::*;
use vstd::std_specs::hash::obeys_key_model;

verus! {

/// `std::time::Instant`, held opaquely as the origin of a cache's clock.
#[verifier::external_type_specification]
#[verifier::external_body]
pub struct ExInstant(std::time::Instant);

/// Relies on `Instant::now`: a reading of the monotonic clock, used as the
/// origin of a cache's timestamps.
#[verifier::external_body]
fn clock_origin() -> Instant {
    Instant::now()
}

/// Relies on `Instant::elapsed`: the time passed since `origin`.
#[verifier::external_body]
fn elapsed_since(origin: &Instant) -> Duration {
    origin.elapsed()
}

/// Relies on `Duration::as_nanos`: the whole nanoseconds that `d` spans.
#[verifier::external_body]
fn total_nanos(d: &Duration) -> u128 {
    d.as_nanos()
}

/// Nanoseconds in one second.
pub const NANOS_PER_SEC: u64 = 1_000_000_000;

/// Whole seconds elapsed from the clock reading `stamp` to the reading `now`,
/// both in nanoseconds; a reading earlier than the stamp counts as no time.
pub open spec fn age_secs(stamp: u64, now: u64) -> nat {
    if now >= stamp {
        ((now - stamp) / NANOS_PER_SEC as int) as nat
    } else {
        0
    }
}

/// Adds one to a counter, stopping at the largest `u64`.
pub open spec fn bump(n: u64) -> u64 {
    if n < u64::MAX {
        (n + 1) as u64
    } else {
        n
    }
}

/// The abstract state of a `TimedCache`.
#[verifier::reject_recursive_types(K)]
pub ghost struct CacheView<K, V> {
    /// Each key's value, with the clock reading at which it was written.
    pub entries: Map<K, (u64, V)>,
    /// How many whole seconds an entry stays fresh.
    pub lifespan: u64,
    pub hits: u64,
    pub misses: u64,
    /// The capacity that the store is given when it is made afresh.
    pub capacity: Option<usize>,
}

/// The entry under `key` exists and is younger than the lifespan at `now`.
pub open spec fn is_live<K, V>(c: CacheView<K, V>, key: K, now: u64) -> bool {
    &&& c.entries.contains_key(key)
    &&& age_secs(c.entries[key].0, now) < c.lifespan
}

/// What a read of `key` at `now` returns.
pub open spec fn lookup<K, V>(c: CacheView<K, V>, key: K, now: u64) -> Option<V> {
    if is_live(c, key, now) {
        Some(c.entries[key].1)
    } else {
        None
    }
}

/// The state after a read of `key` at `now`: a hit leaves the entries alone,
/// a miss drops the entry under `key` if there is one.
pub open spec fn after_get<K, V>(c: CacheView<K, V>, key: K, now: u64) -> CacheView<K, V> {
    if is_live(c, key, now) {
        CacheView { hits: bump(c.hits), ..c }
    } else {
        CacheView { entries: c.entries.remove(key), misses: bump(c.misses), ..c }
    }
}

/// The state after writing `value` under `key` at `now`.
pub open spec fn after_set<K, V>(c: CacheView<K, V>, key: K, value: V, now: u64) -> CacheView<
    K,
    V,
> {
    CacheView { entries: c.entries.insert(key, (now, value)), ..c }
}

/// The state after dropping the entry under `key`.
pub open spec fn after_remove<K, V>(c: CacheView<K, V>, key: K) -> CacheView<K, V> {
    CacheView { entries: c.entries.remove(key), ..c }
}

/// The state after dropping every entry.
pub open spec fn after_clear<K, V>(c: CacheView<K, V>) -> CacheView<K, V> {
    CacheView { entries: Map::empty(), ..c }
}

/// The state after changing the lifespan; stamps are left as they are.
pub open spec fn after_set_lifespan<K, V>(c: CacheView<K, V>, seconds: u64) -> CacheView<K, V> {
    CacheView { lifespan: seconds, ..c }
}

/// One operation on a cache, with the clock reading it is made at where it
/// reads one.  `Clear` stands for a reset too: the two act alike on the
/// abstract state.
pub ghost enum CacheOp<K, V> {
    Read(K, u64),
    Write(K, V, u64),
    Remove(K),
    Clear,
    ChangeLifespan(u64),
}

/// The state after one operation.
pub open spec fn apply_op<K, V>(c: CacheView<K, V>, op: CacheOp<K, V>) -> CacheView<K, V> {
    match op {
        CacheOp::Read(key, now) => after_get(c, key, now),
        CacheOp::Write(key, value, now) => after_set(c, key, value, now),
        CacheOp::Remove(key) => after_remove(c, key),
        CacheOp::Clear => after_clear(c),
        CacheOp::ChangeLifespan(seconds) => after_set_lifespan(c, seconds),
    }
}

/// The state after a sequence of operations, applied first to last.
pub open spec fn run_ops<K, V>(c: CacheView<K, V>, ops: Seq<CacheOp<K, V>>) -> CacheView<K, V>
    decreases ops.len(),
{
    if ops.len() == 0 {
        c
    } else {
        apply_op(run_ops(c, ops.drop_last()), ops.last())
    }
}

/// How many reads a sequence of operations holds.
pub open spec fn count_reads<K, V>(ops: Seq<CacheOp<K, V>>) -> nat
    decreases ops.len(),
{
    if ops.len() == 0 {
        0
    } else {
        count_reads(ops.drop_last()) + if ops.last() is Read {
            1nat
        } else {
            0nat
        }
    }
}

/// A value just written is read back at once, as a hit, whenever entries
/// live for at least a second.  Once `lifespan` whole seconds have passed,
/// the read is a miss that evicts the entry, so every later read misses too.
pub proof fn lemma_write_then_expire<K, V>(c: CacheView<K, V>, key: K, value: V, written: u64, later: u64)
    requires
        c.lifespan > 0,
        later >= written + c.lifespan * NANOS_PER_SEC,
    ensures
        lookup(after_set(c, key, value, written), key, written) == Some(value),
        after_get(after_set(c, key, value, written), key, written) == (CacheView {
            hits: bump(c.hits),
            ..after_set(c, key, value, written)
        }),
        lookup(after_set(c, key, value, written), key, later) is None,
        after_get(after_set(c, key, value, written), key, later).misses == bump(c.misses),
        after_get(after_set(c, key, value, written), key, later).hits == c.hits,
        forall|t: u64|
            lookup(#[trigger] after_get(after_set(c, key, value, written), key, later), key, t)
                is None,
{
    let c1 = after_set(c, key, value, written);
    assert(age_secs(written, written) == 0);
    let d = (later - written) as int;
    assert(d / (NANOS_PER_SEC as int) >= c.lifespan) by (nonlinear_arith)
        requires
            d >= c.lifespan * NANOS_PER_SEC,
            NANOS_PER_SEC > 0,
    ;
    assert(!is_live(c1, key, later));
}

/// Reads, and only reads, move the counters: neither ever goes down, and as
/// long as they stay below the largest `u64`, their sum grows by exactly the
/// number of reads.
pub proof fn lemma_counters<K, V>(c: CacheView<K, V>, ops: Seq<CacheOp<K, V>>)
    ensures
        run_ops(c, ops).hits >= c.hits,
        run_ops(c, ops).misses >= c.misses,
        c.hits + c.misses + count_reads(ops) <= u64::MAX ==> run_ops(c, ops).hits + run_ops(
            c,
            ops,
        ).misses == c.hits + c.misses + count_reads(ops),
    decreases ops.len(),
{
    if ops.len() > 0 {
        lemma_counters(c, ops.drop_last());
    }
}

/// Shortening the lifespan below an entry's age makes the very next read of
/// that entry a miss, which evicts it.
pub proof fn lemma_shortened_lifespan<K, V>(c: CacheView<K, V>, key: K, seconds: u64, now: u64)
    requires
        c.entries.contains_key(key),
        age_secs(c.entries[key].0, now) >= seconds,
    ensures
        lookup(after_set_lifespan(c, seconds), key, now) is None,
        after_get(after_set_lifespan(c, seconds), key, now).hits == c.hits,
        after_get(after_set_lifespan(c, seconds), key, now).misses == bump(c.misses),
        !after_get(after_set_lifespan(c, seconds), key, now).entries.contains_key(key),
{
}

/// Outcome of checking the entry under a key.
enum Status {
    NotFound,
    Found,
    Expired,
}

/// Cache store bound by time.
///
/// Values are timestamped when inserted and are evicted if expired at the
/// time of retrieval.  The store lives in memory only.  Operations that look
/// a key up ask that the hashing and equality of `K` agree with equality of
/// values (`obeys_key_model`), as those of the primitive types do.
#[verifier::reject_recursive_types(K)]
pub struct TimedCache<K, V> {
    store: HashMap<K, (u64, V)>,
    seconds: u64,
    hits: u64,
    misses: u64,
    initial_capacity: Option<usize>,
    origin: Instant,
}

impl<K, V> View for TimedCache<K, V> {
    type V = CacheView<K, V>;

    closed spec fn view(&self) -> CacheView<K, V> {
        CacheView {
            entries: self.store@,
            lifespan: self.seconds,
            hits: self.hits,
            misses: self.misses,
            capacity: self.initial_capacity,
        }
    }
}

/// Whole seconds from `stamp` to `now`, as `age_secs` defines them.
pub fn elapsed_secs(stamp: u64, now: u64) -> (r: u64)
    ensures
        r == age_secs(stamp, now),
{
    if now >= stamp {
        (now - stamp) / NANOS_PER_SEC
    } else {
        0
    }
}

/// Relies on `HashMap::get_mut`: a mutable borrow of the value stored under
/// `key`, through which the caller may change that value and nothing else.
#[verifier::external_body]
fn stored_value_mut<'a, K: Hash + Eq, V>(store: &'a mut HashMap<K, (u64, V)>, key: &K) -> (r:
    Option<&'a mut V>)
    requires
        obeys_key_model::<K>(),
    ensures
        match old(store)@.get(*key) {
            Some(entry) => {
                &&& r.is_some()
                &&& *r.unwrap() == entry.1
                &&& final(store)@ == old(store)@.insert(*key, (entry.0, *final(r.unwrap())))
            },
            None => r.is_none() && final(store)@ == old(store)@,
        },
{
    store.get_mut(key).map(|stamped| &mut stamped.1)
}

impl<K: Hash + Eq, V> TimedCache<K, V> {
    /// Creates a new `TimedCache` with a specified lifespan.
    pub fn with_lifespan(seconds: u64) -> (r: TimedCache<K, V>)
        ensures
            r@ == (CacheView::<K, V> {
                entries: Map::empty(),
                lifespan: seconds,
                hits: 0,
                misses: 0,
                capacity: None,
            }),
    {
        TimedCache {
            store: Self::new_store(None),
            seconds,
            hits: 0,
            misses: 0,
            initial_capacity: None,
            origin: clock_origin(),
        }
    }

    /// Creates a new `TimedCache` with a specified lifespan and a store with
    /// the specified pre-allocated capacity.
    pub fn with_lifespan_and_capacity(seconds: u64, size: usize) -> (r: TimedCache<K, V>)
        ensures
            r@ == (CacheView::<K, V> {
                entries: Map::empty(),
                lifespan: seconds,
                hits: 0,
                misses: 0,
                capacity: Some(size),
            }),
    {
        TimedCache {
            store: Self::new_store(Some(size)),
            seconds,
            hits: 0,
            misses: 0,
            initial_capacity: Some(size),
            origin: clock_origin(),
        }
    }

    fn new_store(capacity: Option<usize>) -> (r: HashMap<K, (u64, V)>)
        ensures
            r@ == Map::<K, (u64, V)>::empty(),
    {
        match capacity {
            Some(n) => HashMap::with_capacity(n),
            None => HashMap::new(),
        }
    }

    /// The current reading of this cache's clock, in nanoseconds since the
    /// cache was created.  Readings past the range of `u64`, some five centuries on, stay at its
    /// largest value.
    pub fn now(&self) -> u64 {
        let nanos = total_nanos(&elapsed_since(&self.origin));
        if nanos > u64::MAX as u128 {
            u64::MAX
        } else {
            nanos as u64
        }
    }

    fn status(&self, key: &K, now: u64) -> (r: Status)
        requires
            obeys_key_model::<K>(),
        ensures
            r is Found <==> is_live(self@, *key, now),
            r is NotFound <==> !self@.entries.contains_key(*key),
    {
        match self.store.get(key) {
            Some(entry) => {
                if elapsed_secs(entry.0, now) < self.seconds {
                    Status::Found
                } else {
                    Status::Expired
                }
            },
            None => Status::NotFound,
        }
    }

    /// Reads the value under `key` at clock reading `now`.  A fresh entry is a
    /// hit; a missing or stale one is a miss, and a stale one is removed.
    pub fn cache_get_at(&mut self, key: &K, now: u64) -> (r: Option<&V>)
        requires
            obeys_key_model::<K>(),
        ensures
            final(self)@ == after_get(old(self)@, *key, now),
            match r {
                Some(v) => lookup(old(self)@, *key, now) == Some(*v),
                None => lookup(old(self)@, *key, now) is None,
            },
    {
        match self.status(key, now) {
            Status::NotFound => {
                self.misses = self.misses.saturating_add(1);
                proof {
                    assert(self.store@.remove(*key) =~= self.store@);
                }
                None
            },
            Status::Found => {
                self.hits = self.hits.saturating_add(1);
                match self.store.get(key) {
                    Some(stamped) => Some(&stamped.1),
                    None => None,
                }
            },
            Status::Expired => {
                self.misses = self.misses.saturating_add(1);
                self.store.remove(key);
                None
            },
        }
    }

    /// Reads the value under `key` now; see `cache_get_at`.
    pub fn cache_get(&mut self, key: &K) -> (r: Option<&V>)
        requires
            obeys_key_model::<K>(),
        ensures
            exists|now: u64|
                {
                    &&& #[trigger] after_get(old(self)@, *key, now) == final(self)@
                    &&& match r {
                        Some(v) => lookup(old(self)@, *key, now) == Some(*v),
                        None => lookup(old(self)@, *key, now) is None,
                    }
                },
    {
        let now = self.now();
        self.cache_get_at(key, now)
    }

    /// Like `cache_get_at`, but hands out a mutable borrow of a fresh value;
    /// whatever is written through it is stored under `key` with the
    /// entry's original stamp.
    pub fn cache_get_mut_at(&mut self, key: &K, now: u64) -> (r: Option<&mut V>)
        requires
            obeys_key_model::<K>(),
        ensures
            match r {
                Some(v) => {
                    &&& lookup(old(self)@, *key, now) == Some(*v)
                    &&& final(self)@ == after_set(
                        after_get(old(self)@, *key, now),
                        *key,
                        *final(v),
                        old(self)@.entries[*key].0,
                    )
                },
                None => {
                    &&& lookup(old(self)@, *key, now) is None
                    &&& final(self)@ == after_get(old(self)@, *key, now)
                },
            },
    {
        match self.status(key, now) {
            Status::NotFound => {
                self.misses = self.misses.saturating_add(1);
                proof {
                    assert(self.store@.remove(*key) =~= self.store@);
                }
                None
            },
            Status::Found => {
                self.hits = self.hits.saturating_add(1);
                stored_value_mut(&mut self.store, key)
            },
            Status::Expired => {
                self.misses = self.misses.saturating_add(1);
                self.store.remove(key);
                None
            },
        }
    }

    /// Like `cache_get`, with a mutable borrow; see `cache_get_mut_at`.
    pub fn cache_get_mut(&mut self, key: &K) -> (r: Option<&mut V>)
        requires
            obeys_key_model::<K>(),
        ensures
            exists|now: u64|
                #![trigger after_get(old(self)@, *key, now)]
                match r {
                    Some(v) => {
                        &&& lookup(old(self)@, *key, now) == Some(*v)
                        &&& final(self)@ == after_set(
                            after_get(old(self)@, *key, now),
                            *key,
                            *final(v),
                            old(self)@.entries[*key].0,
                        )
                    },
                    None => {
                        &&& lookup(old(self)@, *key, now) is None
                        &&& final(self)@ == after_get(old(self)@, *key, now)
                    },
                },
    {
        let now = self.now();
        self.cache_get_mut_at(key, now)
    }

    /// Stores `val` under `key`, stamped with the clock reading `now`.  The
    /// counters are left alone.
    pub fn cache_set_at(&mut self, key: K, val: V, now: u64)
        requires
            obeys_key_model::<K>(),
        ensures
            final(self)@ == after_set(old(self)@, key, val, now),
    {
        let stamped = (now, val);
        self.store.insert(key, stamped);
    }

    /// Stores `val` under `key`, stamped with the current clock reading.
    pub fn cache_set(&mut self, key: K, val: V)
        requires
            obeys_key_model::<K>(),
        ensures
            exists|now: u64| #[trigger] after_set(old(self)@, key, val, now) == final(self)@,
    {
        let now = self.now();
        self.cache_set_at(key, val, now);
    }

    /// Drops the entry under `k`, fresh or not, and returns its value.
    pub fn cache_remove(&mut self, k: &K) -> (r: Option<V>)
        requires
            obeys_key_model::<K>(),
        ensures
            final(self)@ == after_remove(old(self)@, *k),
            match r {
                Some(v) => old(self)@.entries.contains_key(*k) && v == old(self)@.entries[*k].1,
                None => !old(self)@.entries.contains_key(*k),
            },
    {
        match self.store.remove(k) {
            Some(stamped) => Some(stamped.1),
            None => None,
        }
    }

    /// Drops every entry; the counters and the lifespan stay.
    pub fn cache_clear(&mut self)
        ensures
            final(self)@ == after_clear(old(self)@),
    {
        self.store.clear();
    }

    /// Replaces the store with a new one, made with the initial capacity;
    /// the counters and the lifespan stay.
    pub fn cache_reset(&mut self)
        ensures
            final(self)@ == after_clear(old(self)@),
    {
        self.store = Self::new_store(self.initial_capacity);
    }

    /// The number of entries held, stale ones included.
    pub fn cache_size(&self) -> (r: usize)
        requires
            obeys_key_model::<K>(),
        ensures
            r == self@.entries.len(),
    {
        self.store.len()
    }

    pub fn cache_hits(&self) -> (r: Option<u64>)
        ensures
            r == Some(self@.hits),
    {
        Some(self.hits)
    }

    pub fn cache_misses(&self) -> (r: Option<u64>)
        ensures
            r == Some(self@.misses),
    {
        Some(self.misses)
    }

    pub fn cache_lifespan(&self) -> (r: Option<u64>)
        ensures
            r == Some(self@.lifespan),
    {
        Some(self.seconds)
    }

    /// Changes how long entries stay fresh, for the entries already held too.
    pub fn cache_set_lifespan(&mut self, seconds: u64)
        ensures
            final(self)@ == after_set_lifespan(old(self)@, seconds),
    {
        self.seconds = seconds;
    }
}

} // verus!
