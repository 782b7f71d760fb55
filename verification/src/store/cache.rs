//! Redis-like in-memory cache with TTL support.
//!
//! The entries live in a `DashMap`.  Time is a count of nanoseconds since
//! the store was made, on the monotonic clock (the functions ending in `_at`
//! take it as an argument; the others read the clock).  An entry whose expiry time lies before the current time is
//! expired: reading it removes it and counts an eviction.

use vstd::prelude::*;
use dashmap::DashMap;
use std::sync::Arc;
use std::time::Instant;
use crate::clock::{instant_now, nanos_since};
use super::counter::{lemma_wrap_add_step, lemma_wrap_add_zero, wrap_add, wrap_inc};
use crate::string::functions::views;

verus! {

broadcast use vstd::string::group_string_axioms;

/// A value held by the cache.  A number is held as the bit pattern of its
/// `f64` (`f64::to_bits`).
#[derive(Debug)]
pub enum CachedValue {
    String(String),
    Number(u64),
    Boolean(bool),
    Nil,
    Table(Vec<(CachedValue, CachedValue)>),
}

/// An entry of the cache: the value, shared with the readers that got it,
/// and, when it has a time to live, the time (in nanoseconds) after which
/// it is expired.
#[derive(Debug)]
pub struct CacheEntry {
    pub value: Arc<CachedValue>,
    pub expires_at: Option<u64>,
}

/// What an entry holds: its value and its expiry time.
pub open spec fn held(e: CacheEntry) -> (CachedValue, Option<u64>) {
    (*e.value, e.expires_at)
}

/// `Arc::clone`: another handle on the same value.
#[verifier::external_body]
fn share(a: &Arc<CachedValue>) -> (r: Arc<CachedValue>)
    ensures
        r == *a,
{
    a.clone()
}

/// A copy of the entry, sharing its value.
pub fn copy_entry(e: &CacheEntry) -> (r: CacheEntry)
    ensures
        r == *e,
{
    CacheEntry { value: share(&e.value), expires_at: e.expires_at }
}

/// Nanoseconds in a second.
pub const NANOS_PER_SEC: u64 = 1_000_000_000;

/// An entry is live at `now` unless its expiry time lies before `now`.
pub open spec fn is_live(e: (CachedValue, Option<u64>), now: u64) -> bool {
    match e.1 {
        None => true,
        Some(t) => now <= t,
    }
}

/// The expiry time of an entry set at `now` with a time to live of `ttl`
/// seconds, saturated at `u64::MAX`.
pub open spec fn expiry_of(now: u64, ttl: Option<u64>) -> Option<u64> {
    match ttl {
        None => None,
        Some(secs) => Some(
            if now + secs * NANOS_PER_SEC > u64::MAX {
                u64::MAX
            } else {
                (now + secs * NANOS_PER_SEC) as u64
            },
        ),
    }
}

/// The time `now + secs` seconds, in nanoseconds, saturated.
fn deadline(now: u64, secs: u64) -> (t: u64)
    ensures
        expiry_of(now, Some(secs)) == Some(t),
{
    let room: u64 = (u64::MAX - now) / NANOS_PER_SEC;
    if secs > room {
        proof {
            assert(secs * NANOS_PER_SEC > u64::MAX - now) by (nonlinear_arith)
                requires
                    secs > room,
                    room == (u64::MAX - now) / (NANOS_PER_SEC as int),
                    NANOS_PER_SEC == 1_000_000_000,
                    now <= u64::MAX,
            ;
        }
        u64::MAX
    } else {
        proof {
            assert(secs * NANOS_PER_SEC <= u64::MAX - now) by (nonlinear_arith)
                requires
                    secs <= room,
                    room == (u64::MAX - now) / (NANOS_PER_SEC as int),
                    NANOS_PER_SEC == 1_000_000_000,
                    now <= u64::MAX,
            ;
        }
        now + secs * NANOS_PER_SEC
    }
}

/// The expiry time for a time to live of `ttl` seconds set at `now`.
fn expiry(now: u64, ttl: Option<u64>) -> (r: Option<u64>)
    ensures
        r == expiry_of(now, ttl),
{
    match ttl {
        None => None,
        Some(secs) => Some(deadline(now, secs)),
    }
}

#[verifier::external_type_specification]
#[verifier::external_body]
#[verifier::reject_recursive_types(K)]
#[verifier::reject_recursive_types(V)]
#[verifier::reject_recursive_types(S)]
pub struct ExDashMap<K, V, S>(DashMap<K, V, S>);

/// Name for the entries of a `DashMap` of the cache, by key.
pub uninterp spec fn cache_map(m: DashMap<String, CacheEntry>) -> Map<Seq<char>, CacheEntry>;

/// The cache with no entries.
pub open spec fn no_entries() -> Map<Seq<char>, CacheEntry> {
    Map::empty()
}

/// `DashMap::new`: an empty map.
#[verifier::external_body]
fn map_new() -> (m: DashMap<String, CacheEntry>)
    ensures
        cache_map(m) == no_entries(),
{
    DashMap::new()
}

/// `DashMap::with_capacity`: an empty map with room reserved.
#[verifier::external_body]
fn map_with_capacity(capacity: usize) -> (m: DashMap<String, CacheEntry>)
    ensures
        cache_map(m) == no_entries(),
{
    DashMap::with_capacity(capacity)
}

/// `DashMap::insert`: the key now maps to the entry, replacing any former
/// entry.
#[verifier::external_body]
fn map_insert(m: &mut DashMap<String, CacheEntry>, key: String, entry: CacheEntry)
    ensures
        cache_map(*final(m)) == cache_map(*old(m)).insert(key@, entry),
{
    m.insert(key, entry);
}

/// `DashMap::get`, with the entry found copied out.
#[verifier::external_body]
fn map_get(m: &DashMap<String, CacheEntry>, key: &str) -> (r: Option<CacheEntry>)
    ensures
        r == (if cache_map(*m).dom().contains(key@) {
            Some(cache_map(*m)[key@])
        } else {
            None
        }),
{
    m.get(key).map(|e| copy_entry(e.value()))
}

/// `DashMap::remove`: whether the key was present; it is absent after.
#[verifier::external_body]
fn map_remove(m: &mut DashMap<String, CacheEntry>, key: &str) -> (removed: bool)
    ensures
        removed == cache_map(*old(m)).dom().contains(key@),
        cache_map(*final(m)) == cache_map(*old(m)).remove(key@),
{
    m.remove(key).is_some()
}

/// `DashMap::clear`: no entries remain.
#[verifier::external_body]
fn map_clear(m: &mut DashMap<String, CacheEntry>)
    ensures
        cache_map(*final(m)) == no_entries(),
{
    m.clear();
}

/// `DashMap::len`: the number of entries.
#[verifier::external_body]
fn map_len(m: &DashMap<String, CacheEntry>) -> (n: usize)
    ensures
        n == cache_map(*m).dom().len(),
{
    m.len()
}

/// `DashMap::is_empty`: whether there are no entries.
#[verifier::external_body]
fn map_is_empty(m: &DashMap<String, CacheEntry>) -> (b: bool)
    ensures
        b == (cache_map(*m).dom().len() == 0),
{
    m.is_empty()
}

/// The keys that `DashMap::iter` yields, in its order: each key of the map
/// once.
#[verifier::external_body]
fn map_keys(m: &DashMap<String, CacheEntry>) -> (keys: Vec<String>)
    ensures
        views(keys@).no_duplicates(),
        views(keys@).to_set() == cache_map(*m).dom(),
{
    m.iter().map(|e| e.key().clone()).collect()
}

/// Cache statistics.  Each counter wraps around at `u64::MAX`.
#[derive(Clone, Copy, Debug)]
pub struct CacheStats {
    pub hits: u64,
    pub misses: u64,
    pub sets: u64,
    pub deletes: u64,
    pub evictions: u64,
}

impl CacheStats {
    pub open spec fn zero() -> CacheStats {
        CacheStats { hits: 0, misses: 0, sets: 0, deletes: 0, evictions: 0 }
    }

    /// These counters advanced by the given numbers of hits, misses, sets,
    /// deletes and evictions.
    pub open spec fn advanced(self, h: nat, m: nat, s: nat, d: nat, e: nat) -> CacheStats {
        CacheStats {
            hits: wrap_add(self.hits, h),
            misses: wrap_add(self.misses, m),
            sets: wrap_add(self.sets, s),
            deletes: wrap_add(self.deletes, d),
            evictions: wrap_add(self.evictions, e),
        }
    }

    pub fn record_hit(&mut self)
        ensures
            *final(self) == old(self).advanced(1, 0, 0, 0, 0),
    {
        proof {
            lemma_wrap_add_zero(self.misses);
            lemma_wrap_add_zero(self.sets);
            lemma_wrap_add_zero(self.deletes);
            lemma_wrap_add_zero(self.evictions);
        }
        self.hits = wrap_inc(self.hits);
    }

    pub fn record_miss(&mut self)
        ensures
            *final(self) == old(self).advanced(0, 1, 0, 0, 0),
    {
        proof {
            lemma_wrap_add_zero(self.hits);
            lemma_wrap_add_zero(self.sets);
            lemma_wrap_add_zero(self.deletes);
            lemma_wrap_add_zero(self.evictions);
        }
        self.misses = wrap_inc(self.misses);
    }

    pub fn record_set(&mut self)
        ensures
            *final(self) == old(self).advanced(0, 0, 1, 0, 0),
    {
        proof {
            lemma_wrap_add_zero(self.hits);
            lemma_wrap_add_zero(self.misses);
            lemma_wrap_add_zero(self.deletes);
            lemma_wrap_add_zero(self.evictions);
        }
        self.sets = wrap_inc(self.sets);
    }

    pub fn record_delete(&mut self)
        ensures
            *final(self) == old(self).advanced(0, 0, 0, 1, 0),
    {
        proof {
            lemma_wrap_add_zero(self.hits);
            lemma_wrap_add_zero(self.misses);
            lemma_wrap_add_zero(self.sets);
            lemma_wrap_add_zero(self.evictions);
        }
        self.deletes = wrap_inc(self.deletes);
    }

    pub fn record_eviction(&mut self)
        ensures
            *final(self) == old(self).advanced(0, 0, 0, 0, 1),
    {
        proof {
            lemma_wrap_add_zero(self.hits);
            lemma_wrap_add_zero(self.misses);
            lemma_wrap_add_zero(self.sets);
            lemma_wrap_add_zero(self.deletes);
        }
        self.evictions = wrap_inc(self.evictions);
    }
}

impl Default for CacheStats {
    fn default() -> (s: Self)
        ensures
            s == CacheStats::zero(),
    {
        CacheStats { hits: 0, misses: 0, sets: 0, deletes: 0, evictions: 0 }
    }
}

/// Advancing by `n` and then by one more is advancing by `n + 1`.
proof fn lemma_advance_step(s: CacheStats, h: nat, m: nat, st: nat, d: nat, e: nat)
    ensures
        s.advanced(h, m, st, d, e).advanced(1, 0, 0, 0, 0) == s.advanced(h + 1, m, st, d, e),
        s.advanced(h, m, st, d, e).advanced(0, 1, 0, 0, 0) == s.advanced(h, m + 1, st, d, e),
        s.advanced(h, m, st, d, e).advanced(0, 0, 1, 0, 0) == s.advanced(h, m, st + 1, d, e),
        s.advanced(h, m, st, d, e).advanced(0, 0, 0, 1, 0) == s.advanced(h, m, st, d + 1, e),
        s.advanced(h, m, st, d, e).advanced(0, 0, 0, 0, 1) == s.advanced(h, m, st, d, e + 1),
{
    lemma_wrap_add_step(s.hits, h);
    lemma_wrap_add_step(s.misses, m);
    lemma_wrap_add_step(s.sets, st);
    lemma_wrap_add_step(s.deletes, d);
    lemma_wrap_add_step(s.evictions, e);
    lemma_wrap_add_zero(wrap_add(s.hits, h));
    lemma_wrap_add_zero(wrap_add(s.misses, m));
    lemma_wrap_add_zero(wrap_add(s.sets, st));
    lemma_wrap_add_zero(wrap_add(s.deletes, d));
    lemma_wrap_add_zero(wrap_add(s.evictions, e));
}

/// Advancing by nothing changes nothing.
proof fn lemma_advance_zero(s: CacheStats)
    ensures
        s.advanced(0, 0, 0, 0, 0) == s,
{
    lemma_wrap_add_zero(s.hits);
    lemma_wrap_add_zero(s.misses);
    lemma_wrap_add_zero(s.sets);
    lemma_wrap_add_zero(s.deletes);
    lemma_wrap_add_zero(s.evictions);
}

/// What a read of `key` at `now` does to the entries `c` and the
/// counters `s`, and what it returns: a live entry is a hit and gives its
/// value; an expired entry is removed and counts as an eviction and a
/// miss; a missing key is a miss.
pub open spec fn get_outcome(c: Map<Seq<char>, (CachedValue, Option<u64>)>, s: CacheStats, key: Seq<char>, now: u64) -> (
    Map<Seq<char>, (CachedValue, Option<u64>)>,
    CacheStats,
    Option<CachedValue>,
) {
    if c.dom().contains(key) {
        if is_live(c[key], now) {
            (c, s.advanced(1, 0, 0, 0, 0), Some(c[key].0))
        } else {
            (c.remove(key), s.advanced(0, 0, 0, 0, 1).advanced(0, 1, 0, 0, 0), None)
        }
    } else {
        (c, s.advanced(0, 1, 0, 0, 0), None)
    }
}

/// What a check of `key` at `now` does to the entries `c` and counters
/// `s` (giving `c1` and `s1`) and answers (`b`): an expired entry is
/// removed and counted as an eviction, and the answer is whether a live
/// entry was there.
pub open spec fn exists_outcome(
    c: Map<Seq<char>, (CachedValue, Option<u64>)>,
    s: CacheStats,
    key: Seq<char>,
    now: u64,
    c1: Map<Seq<char>, (CachedValue, Option<u64>)>,
    s1: CacheStats,
    b: bool,
) -> bool {
    if c.dom().contains(key) && !is_live(c[key], now) {
        &&& !b
        &&& c1 == c.remove(key)
        &&& s1 == s.advanced(0, 0, 0, 0, 1)
    } else {
        &&& b == c.dom().contains(key)
        &&& c1 == c
        &&& s1 == s
    }
}

/// The reads of `keys`, one after the other: the entries and counters
/// after them and the values they gave.
pub open spec fn get_all(c: Map<Seq<char>, (CachedValue, Option<u64>)>, s: CacheStats, keys: Seq<Seq<char>>, now: u64) -> (
    Map<Seq<char>, (CachedValue, Option<u64>)>,
    CacheStats,
    Seq<Option<CachedValue>>,
)
    decreases keys.len(),
{
    if keys.len() == 0 {
        (c, s, Seq::empty())
    } else {
        let (c1, s1, vs) = get_all(c, s, keys.drop_last(), now);
        let (c2, s2, v) = get_outcome(c1, s1, keys.last(), now);
        (c2, s2, vs.push(v))
    }
}

/// The entries after setting each of `entries` at `now`, in order.
pub open spec fn set_all(
    c: Map<Seq<char>, (CachedValue, Option<u64>)>,
    entries: Seq<(String, CachedValue, Option<u64>)>,
    now: u64,
) -> Map<Seq<char>, (CachedValue, Option<u64>)>
    decreases entries.len(),
{
    if entries.len() == 0 {
        c
    } else {
        let (k, v, ttl) = entries.last();
        set_all(c, entries.drop_last(), now).insert(
            k@,
            (v, expiry_of(now, ttl)),
        )
    }
}

/// The entries after removing each of `keys`, and how many removals
/// found their key.
pub open spec fn delete_all(c: Map<Seq<char>, (CachedValue, Option<u64>)>, keys: Seq<Seq<char>>) -> (
    Map<Seq<char>, (CachedValue, Option<u64>)>,
    nat,
)
    decreases keys.len(),
{
    if keys.len() == 0 {
        (c, 0)
    } else {
        let (c1, n) = delete_all(c, keys.drop_last());
        if c1.dom().contains(keys.last()) {
            (c1.remove(keys.last()), n + 1)
        } else {
            (c1, n)
        }
    }
}

/// The live entries of `c` at `now`.
pub open spec fn live_entries(c: Map<Seq<char>, (CachedValue, Option<u64>)>, now: u64) -> Map<Seq<char>, (CachedValue, Option<u64>)> {
    Map::new(|k: Seq<char>| c.dom().contains(k) && is_live(c[k], now), |k: Seq<char>| c[k])
}

/// The values read, in order, one per key.
pub open spec fn read_values(r: Seq<Option<Arc<CachedValue>>>) -> Seq<Option<CachedValue>> {
    r.map_values(|o: Option<Arc<CachedValue>>|
        match o {
            Some(a) => Some(*a),
            None => None,
        })
}

/// The value read, if any.
pub open spec fn read_value(r: Option<Arc<CachedValue>>) -> Option<CachedValue> {
    match r {
        Some(a) => Some(*a),
        None => None,
    }
}

/// What the entries of a map hold, by key.
pub open spec fn held_map(m: Map<Seq<char>, CacheEntry>) -> Map<Seq<char>, (CachedValue, Option<u64>)> {
    m.map_values(|e: CacheEntry| held(e))
}

proof fn lemma_held_insert(m: Map<Seq<char>, CacheEntry>, k: Seq<char>, e: CacheEntry)
    ensures
        held_map(m.insert(k, e)) == held_map(m).insert(k, held(e)),
{
    assert(held_map(m.insert(k, e)) =~= held_map(m).insert(k, held(e)));
}

proof fn lemma_held_remove(m: Map<Seq<char>, CacheEntry>, k: Seq<char>)
    ensures
        held_map(m.remove(k)) == held_map(m).remove(k),
{
    assert(held_map(m.remove(k)) =~= held_map(m).remove(k));
}

proof fn lemma_held_empty()
    ensures
        held_map(no_entries()) == Map::<Seq<char>, (CachedValue, Option<u64>)>::empty(),
{
    assert(held_map(no_entries()) =~= Map::<Seq<char>, (CachedValue, Option<u64>)>::empty());
}

/// Cache store
pub struct CacheStore {
    inner: DashMap<String, CacheEntry>,
    stats: CacheStats,
    origin: Instant,
}

impl CacheStore {
    /// The value and expiry time of each entry, by key.
    pub closed spec fn contents(&self) -> Map<Seq<char>, (CachedValue, Option<u64>)> {
        held_map(cache_map(self.inner))
    }

    pub closed spec fn spec_stats(&self) -> CacheStats {
        self.stats
    }

    /// The store holds finitely many entries.
    pub open spec fn wf(&self) -> bool {
        self.contents().dom().finite()
    }

    pub fn new() -> (c: Self)
        ensures
            c.wf(),
            c.contents() == Map::<Seq<char>, (CachedValue, Option<u64>)>::empty(),
            c.spec_stats() == CacheStats::zero(),
    {
        proof {
            lemma_held_empty();
        }
        CacheStore { inner: map_new(), stats: CacheStats::default(), origin: instant_now() }
    }

    /// A cache with room reserved for `capacity` entries.
    pub fn with_capacity(capacity: usize) -> (c: Self)
        ensures
            c.wf(),
            c.contents() == Map::<Seq<char>, (CachedValue, Option<u64>)>::empty(),
            c.spec_stats() == CacheStats::zero(),
    {
        proof {
            lemma_held_empty();
        }
        CacheStore {
            inner: map_with_capacity(capacity),
            stats: CacheStats::default(),
            origin: instant_now(),
        }
    }

    /// Puts an entry in the map.
    fn put(&mut self, key: String, entry: CacheEntry)
        requires
            old(self).wf(),
        ensures
            final(self).wf(),
            final(self).contents() == old(self).contents().insert(key@, held(entry)),
            final(self).stats == old(self).stats,
    {
        proof {
            lemma_held_insert(cache_map(self.inner), key@, entry);
        }
        map_insert(&mut self.inner, key, entry);
    }

    /// Takes `key` out of the map; whether it was there.
    fn take_out(&mut self, key: &str) -> (removed: bool)
        requires
            old(self).wf(),
        ensures
            final(self).wf(),
            removed == old(self).contents().dom().contains(key@),
            final(self).contents() == old(self).contents().remove(key@),
            final(self).stats == old(self).stats,
    {
        proof {
            lemma_held_remove(cache_map(self.inner), key@);
        }
        map_remove(&mut self.inner, key)
    }

    /// The entry of `key`, if any.
    fn lookup(&self, key: &str) -> (r: Option<CacheEntry>)
        ensures
            match r {
                Some(e) => self.contents().dom().contains(key@) && held(e) == self.contents()[key@],
                None => !self.contents().dom().contains(key@),
            },
    {
        map_get(&self.inner, key)
    }

    /// Sets the value of `key` at time `now`, expiring `ttl_seconds` later
    /// when given, and counts a set.
    pub fn set_at(&mut self, key: String, value: CachedValue, ttl_seconds: Option<u64>, now: u64)
        requires
            old(self).wf(),
        ensures
            final(self).wf(),
            final(self).contents() == old(self).contents().insert(
                key@,
                (value, expiry_of(now, ttl_seconds)),
            ),
            final(self).spec_stats() == old(self).spec_stats().advanced(0, 0, 1, 0, 0),
    {
        let expires_at = expiry(now, ttl_seconds);
        self.put(key, CacheEntry { value: Arc::new(value), expires_at });
        self.stats.record_set();
    }

    /// Sets the value of `key` now, expiring `ttl_seconds` later when given.
    pub fn set(&mut self, key: String, value: CachedValue, ttl_seconds: Option<u64>)
        requires
            old(self).wf(),
        ensures
            final(self).wf(),
            exists|now: u64|
                final(self).contents() == #[trigger] old(self).contents().insert(
                    key@,
                    (value, expiry_of(now, ttl_seconds)),
                ),
            final(self).spec_stats() == old(self).spec_stats().advanced(0, 0, 1, 0, 0),
    {
        let now = nanos_since(&self.origin);
        self.set_at(key, value, ttl_seconds, now);
    }

    /// Reads `key` at time `now` (see `get_outcome`).
    pub fn get_at(&mut self, key: &str, now: u64) -> (r: Option<Arc<CachedValue>>)
        requires
            old(self).wf(),
        ensures
            final(self).wf(),
            (final(self).contents(), final(self).spec_stats(), read_value(r)) == get_outcome(
                old(self).contents(),
                old(self).spec_stats(),
                key@,
                now,
            ),
    {
        match self.lookup(key) {
            Some(entry) => {
                let expired = match entry.expires_at {
                    Some(t) => now > t,
                    None => false,
                };
                if expired {
                    self.take_out(key);
                    self.stats.record_eviction();
                    self.stats.record_miss();
                    None
                } else {
                    self.stats.record_hit();
                    Some(entry.value)
                }
            },
            None => {
                self.stats.record_miss();
                None
            },
        }
    }

    /// Reads `key` now: the value unless it is missing or expired.
    pub fn get(&mut self, key: &str) -> (r: Option<Arc<CachedValue>>)
        requires
            old(self).wf(),
        ensures
            final(self).wf(),
            exists|now: u64|
                (final(self).contents(), final(self).spec_stats(), read_value(r)) == #[trigger] get_outcome(
                    old(self).contents(),
                    old(self).spec_stats(),
                    key@,
                    now,
                ),
    {
        let now = nanos_since(&self.origin);
        self.get_at(key, now)
    }

    /// Removes `key`; whether it was present (then a delete is counted).
    pub fn delete(&mut self, key: &str) -> (removed: bool)
        requires
            old(self).wf(),
        ensures
            final(self).wf(),
            removed == old(self).contents().dom().contains(key@),
            final(self).contents() == old(self).contents().remove(key@),
            final(self).spec_stats() == (if removed {
                old(self).spec_stats().advanced(0, 0, 0, 1, 0)
            } else {
                old(self).spec_stats()
            }),
    {
        let removed = self.take_out(key);
        if removed {
            self.stats.record_delete();
        }
        removed
    }

    /// Whether `key` holds a live entry at `now`; an expired entry is
    /// removed and counted as an eviction.
    pub fn key_exists_at(&mut self, key: &str, now: u64) -> (b: bool)
        requires
            old(self).wf(),
        ensures
            final(self).wf(),
            exists_outcome(
                old(self).contents(),
                old(self).spec_stats(),
                key@,
                now,
                final(self).contents(),
                final(self).spec_stats(),
                b,
            ),
    {
        match self.lookup(key) {
            Some(entry) => {
                let expired = match entry.expires_at {
                    Some(t) => now > t,
                    None => false,
                };
                if expired {
                    self.take_out(key);
                    self.stats.record_eviction();
                    false
                } else {
                    true
                }
            },
            None => false,
        }
    }

    /// Whether `key` holds a live entry now.
    pub fn key_exists(&mut self, key: &str) -> (b: bool)
        requires
            old(self).wf(),
        ensures
            final(self).wf(),
            exists|now: u64|
                #[trigger] exists_outcome(
                    old(self).contents(),
                    old(self).spec_stats(),
                    key@,
                    now,
                    final(self).contents(),
                    final(self).spec_stats(),
                    b,
                ),
    {
        let now = nanos_since(&self.origin);
        self.key_exists_at(key, now)
    }

    /// Removes every entry.
    pub fn clear(&mut self)
        ensures
            final(self).wf(),
            final(self).contents() == Map::<Seq<char>, (CachedValue, Option<u64>)>::empty(),
            final(self).spec_stats() == old(self).spec_stats(),
    {
        proof {
            lemma_held_empty();
        }
        map_clear(&mut self.inner);
    }

    /// The number of entries, expired ones included.
    pub fn len(&self) -> (n: usize)
        ensures
            n == self.contents().dom().len(),
    {
        proof {
            assert(self.contents().dom() =~= cache_map(self.inner).dom());
        }
        map_len(&self.inner)
    }

    pub fn is_empty(&self) -> (b: bool)
        ensures
            b == (self.contents().dom().len() == 0),
    {
        proof {
            assert(self.contents().dom() =~= cache_map(self.inner).dom());
        }
        map_is_empty(&self.inner)
    }

    /// Every key once, in no particular order.
    pub fn keys(&self) -> (keys: Vec<String>)
        ensures
            views(keys@).no_duplicates(),
            views(keys@).to_set() == self.contents().dom(),
    {
        proof {
            assert(self.contents().dom() =~= cache_map(self.inner).dom());
        }
        map_keys(&self.inner)
    }

    /// Removes the entries expired at `now`, counting an eviction for
    /// each, and returns how many were removed.
    pub fn cleanup_expired_at(&mut self, now: u64) -> (n: usize)
        requires
            old(self).wf(),
        ensures
            final(self).wf(),
            final(self).contents() == live_entries(old(self).contents(), now),
            n == old(self).contents().dom().len() - final(self).contents().dom().len(),
            final(self).spec_stats() == old(self).spec_stats().advanced(0, 0, 0, 0, n as nat),
    {
        let ghost c0 = self.contents();
        let ghost s0 = self.stats;
        let keys = self.keys();
        let ghost ks = views(keys@);
        let mut count: usize = 0;
        let mut i: usize = 0;
        proof {
            lemma_advance_zero(s0);
            ks.unique_seq_to_set();
        }
        while i < keys.len()
            invariant
                ks == views(keys@),
                ks.no_duplicates(),
                ks.to_set() == c0.dom(),
                c0.dom().finite(),
                c0.dom().len() == ks.len(),
                ks.len() == keys.len(),
                0 <= i <= keys.len(),
                self.contents().dom().finite(),
                count + self.contents().dom().len() == c0.dom().len(),
                self.stats == s0.advanced(0, 0, 0, 0, count as nat),
                forall|k: Seq<char>| #[trigger]
                    self.contents().dom().contains(k) ==> c0.dom().contains(k) && self.contents()[k]
                        == c0[k],
                forall|j: int|
                    0 <= j < i ==> (self.contents().dom().contains(#[trigger] ks[j]) <==> is_live(
                        c0[ks[j]],
                        now,
                    )),
                forall|j: int| i <= j < ks.len() ==> self.contents().dom().contains(#[trigger] ks[j]),
            decreases keys.len() - i,
        {
            let ghost k = ks[i as int];
            assert(keys@[i as int]@ == k);
            assert(c0.dom().contains(k)) by {
                assert(ks.contains(k));
            }
            let entry = self.lookup(keys[i].as_str());
            match entry {
                Some(e) => {
                    let expired = match e.expires_at {
                        Some(t) => now > t,
                        None => false,
                    };
                    if expired {
                        let ghost before = self.contents();
                        self.take_out(keys[i].as_str());
                        proof {
                            lemma_advance_step(s0, 0, 0, 0, 0, count as nat);
                        }
                        self.stats.record_eviction();
                        assert(count < c0.dom().len()) by {
                            assert(before.dom().contains(k));
                            assert(before.dom().len() > 0);
                        }
                        count = count + 1;
                        proof {
                            assert forall|j: int| 0 <= j < i + 1 implies (self.contents().dom().contains(
                                #[trigger] ks[j],
                            ) <==> is_live(c0[ks[j]], now)) by {
                                if j < i {
                                    assert(ks[j] != k);
                                }
                            }
                            assert forall|j: int| i + 1 <= j < ks.len() implies self.contents().dom().contains(
                                #[trigger] ks[j],
                            ) by {
                                assert(ks[j] != k);
                            }
                        }
                    }
                },
                None => {
                    assert(false);
                },
            }
            i = i + 1;
        }
        proof {
            assert(self.contents() =~= live_entries(c0, now)) by {
                assert forall|k: Seq<char>|
                    #![trigger live_entries(c0, now).dom().contains(k)]
                    live_entries(c0, now).dom().contains(k) implies self.contents().dom().contains(
                    k,
                ) by {
                    assert(ks.to_set().contains(k));
                    let j = choose|j: int| 0 <= j < ks.len() && ks[j] == k;
                }
                assert forall|k: Seq<char>| #[trigger]
                    self.contents().dom().contains(k) implies live_entries(
                    c0,
                    now,
                ).dom().contains(k) by {
                    assert(ks.to_set().contains(k));
                    let j = choose|j: int| 0 <= j < ks.len() && ks[j] == k;
                }
            }
        }
        count
    }

    /// Removes the entries that are expired now; how many were removed.
    pub fn cleanup_expired(&mut self) -> (n: usize)
        requires
            old(self).wf(),
        ensures
            final(self).wf(),
            exists|now: u64| final(self).contents() == #[trigger] live_entries(old(self).contents(), now),
            n == old(self).contents().dom().len() - final(self).contents().dom().len(),
            final(self).spec_stats() == old(self).spec_stats().advanced(0, 0, 0, 0, n as nat),
    {
        let now = nanos_since(&self.origin);
        self.cleanup_expired_at(now)
    }

    /// The number held at `key` for an increment: the bits of the number,
    /// `None` when the key is missing or holds nil, or an error when it
    /// holds anything else.  Expiry is not checked.
    pub fn number_for_incr(&self, key: &str) -> (r: Result<Option<u64>, String>)
        ensures
            ({
                let c = self.contents();
                if !c.dom().contains(key@) {
                    r == Ok::<Option<u64>, String>(None)
                } else {
                    match c[key@].0 {
                        CachedValue::Number(bits) => r == Ok::<Option<u64>, String>(Some(bits)),
                        CachedValue::Nil => r == Ok::<Option<u64>, String>(None),
                        _ => r matches Err(e) && e@ == "Value is not a number"@,
                    }
                }
            }),
    {
        match self.lookup(key) {
            None => Ok(None),
            Some(entry) => match &*entry.value {
                CachedValue::Number(bits) => Ok(Some(*bits)),
                CachedValue::Nil => Ok(None),
                _ => Err(crate::strlist::owned("Value is not a number")),
            },
        }
    }

    /// Stores the result of an increment: the number with these bits
    /// replaces the value of `key`, which keeps its expiry time; a missing
    /// key gets an entry without one.
    pub fn store_number(&mut self, key: &str, bits: u64)
        requires
            old(self).wf(),
        ensures
            final(self).wf(),
            final(self).contents() == old(self).contents().insert(
                key@,
                (
                    CachedValue::Number(bits),
                    if old(self).contents().dom().contains(key@) {
                        old(self).contents()[key@].1
                    } else {
                        None
                    },
                ),
            ),
            final(self).spec_stats() == old(self).spec_stats(),
    {
        let expires_at = match self.lookup(key) {
            Some(entry) => entry.expires_at,
            None => None,
        };
        self.put(
            crate::strlist::owned(key),
            CacheEntry { value: Arc::new(CachedValue::Number(bits)), expires_at },
        );
    }

    /// Sets each entry at time `now`, in order, counting a set for each.
    pub fn batch_set_at(&mut self, entries: Vec<(String, CachedValue, Option<u64>)>, now: u64)
        requires
            old(self).wf(),
        ensures
            final(self).wf(),
            final(self).contents() == set_all(old(self).contents(), entries@, now),
            final(self).spec_stats() == old(self).spec_stats().advanced(
                0,
                0,
                entries@.len(),
                0,
                0,
            ),
    {
        let ghost all = entries@;
        let n = entries.len();
        let ghost c0 = self.contents();
        let ghost s0 = self.stats;
        let mut rest = entries;
        let mut i: usize = 0;
        proof {
            lemma_advance_zero(s0);
            assert(all.take(0) =~= Seq::<(String, CachedValue, Option<u64>)>::empty());
            assert(all.subrange(0, all.len() as int) =~= all);
        }
        while rest.len() > 0
            invariant
                0 <= i <= all.len(),
                all.len() == n,
                rest@ == all.subrange(i as int, all.len() as int),
                self.contents().dom().finite(),
                self.contents() == set_all(c0, all.take(i as int), now),
                self.stats == s0.advanced(0, 0, i as nat, 0, 0),
            decreases rest.len(),
        {
            let (key, value, ttl) = rest.remove(0);
            self.set_at(key, value, ttl, now);
            proof {
                lemma_advance_step(s0, 0, 0, i as nat, 0, 0);
                assert(all.take(i + 1).drop_last() =~= all.take(i as int));
                assert(rest@ =~= all.subrange(i + 1, all.len() as int));
            }
            i = i + 1;
        }
        proof {
            assert(all.take(all.len() as int) =~= all);
        }
    }

    /// Sets each entry now, in order.
    pub fn batch_set(&mut self, entries: Vec<(String, CachedValue, Option<u64>)>)
        requires
            old(self).wf(),
        ensures
            final(self).wf(),
            exists|now: u64| final(self).contents() == #[trigger] set_all(old(self).contents(), entries@, now),
            final(self).spec_stats() == old(self).spec_stats().advanced(
                0,
                0,
                entries@.len(),
                0,
                0,
            ),
    {
        let now = nanos_since(&self.origin);
        self.batch_set_at(entries, now)
    }

    /// Reads each key at time `now`, in order (see `get_all`).
    pub fn batch_get_at(&mut self, keys: &[String], now: u64) -> (r: Vec<Option<Arc<CachedValue>>>)
        requires
            old(self).wf(),
        ensures
            final(self).wf(),
            (final(self).contents(), final(self).spec_stats(), read_values(r@)) == get_all(
                old(self).contents(),
                old(self).spec_stats(),
                views(keys@),
                now,
            ),
    {
        let ghost ks = views(keys@);
        let ghost c0 = self.contents();
        let ghost s0 = self.stats;
        let mut out: Vec<Option<Arc<CachedValue>>> = Vec::new();
        let mut i: usize = 0;
        proof {
            assert(ks.take(0) =~= Seq::<Seq<char>>::empty());
            assert(read_values(out@) =~= Seq::<Option<CachedValue>>::empty());
        }
        while i < keys.len()
            invariant
                ks == views(keys@),
                0 <= i <= keys.len(),
                self.contents().dom().finite(),
                (self.contents(), self.stats, read_values(out@)) == get_all(c0, s0, ks.take(i as int), now),
            decreases keys.len() - i,
        {
            let ghost before = read_values(out@);
            let v = self.get_at(keys[i].as_str(), now);
            out.push(v);
            proof {
                assert(read_values(out@) =~= before.push(read_value(v)));
                assert(ks.take(i + 1).drop_last() =~= ks.take(i as int));
                assert(ks.take(i + 1).last() == keys@[i as int]@);
            }
            i = i + 1;
        }
        proof {
            assert(ks.take(keys.len() as int) =~= ks);
        }
        out
    }

    /// Reads each key now, in order.
    pub fn batch_get(&mut self, keys: &[String]) -> (r: Vec<Option<Arc<CachedValue>>>)
        requires
            old(self).wf(),
        ensures
            final(self).wf(),
            exists|now: u64|
                (final(self).contents(), final(self).spec_stats(), read_values(r@)) == #[trigger] get_all(
                    old(self).contents(),
                    old(self).spec_stats(),
                    views(keys@),
                    now,
                ),
    {
        let now = nanos_since(&self.origin);
        self.batch_get_at(keys, now)
    }

    /// Removes each key, counting a delete for each one found; how many
    /// were found.
    pub fn batch_delete(&mut self, keys: &[String]) -> (n: usize)
        requires
            old(self).wf(),
        ensures
            final(self).wf(),
            (final(self).contents(), n as nat) == delete_all(old(self).contents(), views(keys@)),
            final(self).spec_stats() == old(self).spec_stats().advanced(0, 0, 0, n as nat, 0),
    {
        let ghost ks = views(keys@);
        let ghost c0 = self.contents();
        let ghost s0 = self.stats;
        let mut count: usize = 0;
        let mut i: usize = 0;
        proof {
            lemma_advance_zero(s0);
            assert(ks.take(0) =~= Seq::<Seq<char>>::empty());
        }
        while i < keys.len()
            invariant
                ks == views(keys@),
                0 <= i <= keys.len(),
                c0.dom().finite(),
                self.contents().dom().finite(),
                count <= i,
                (self.contents(), count as nat) == delete_all(c0, ks.take(i as int)),
                self.stats == s0.advanced(0, 0, 0, count as nat, 0),
            decreases keys.len() - i,
        {
            let removed = self.take_out(keys[i].as_str());
            proof {
                assert(ks.take(i + 1).drop_last() =~= ks.take(i as int));
                assert(ks.take(i + 1).last() == keys@[i as int]@);
            }
            if removed {
                proof {
                    lemma_advance_step(s0, 0, 0, 0, count as nat, 0);
                }
                self.stats.record_delete();
                count = count + 1;
            }
            i = i + 1;
        }
        proof {
            assert(ks.take(keys.len() as int) =~= ks);
        }
        count
    }

    /// The counters: hits, misses, sets, deletes and evictions.
    pub fn get_stats(&self) -> (r: (u64, u64, u64, u64, u64))
        ensures
            r == (
                self.spec_stats().hits,
                self.spec_stats().misses,
                self.spec_stats().sets,
                self.spec_stats().deletes,
                self.spec_stats().evictions,
            ),
    {
        (self.stats.hits, self.stats.misses, self.stats.sets, self.stats.deletes, self.stats.evictions)
    }
}

impl Default for CacheStore {
    fn default() -> (c: Self)
        ensures
            c.wf(),
            c.contents() == Map::<Seq<char>, (CachedValue, Option<u64>)>::empty(),
            c.spec_stats() == CacheStats::zero(),
    {
        CacheStore::new()
    }
}

// ---------------------------------------------------------------------
// Laws
// ---------------------------------------------------------------------

/// A value set without a time to live never expires.
pub proof fn law_no_ttl_never_expires(value: CachedValue, set_at: u64, now: u64)
    ensures
        is_live((value, expiry_of(set_at, None)), now),
{
}

/// Reading a key that was just set gives the value set, as long as its
/// time to live has not run out, and counts a hit.
pub proof fn law_get_after_set(
    c: Map<Seq<char>, (CachedValue, Option<u64>)>,
    s: CacheStats,
    key: Seq<char>,
    value: CachedValue,
    ttl: Option<u64>,
    set_at: u64,
    now: u64,
)
    requires
        is_live((value, expiry_of(set_at, ttl)), now),
    ensures
        get_outcome(c.insert(key, (value, expiry_of(set_at, ttl))), s, key, now) == (
            c.insert(key, (value, expiry_of(set_at, ttl))),
            s.advanced(1, 0, 0, 0, 0),
            Some(value),
        ),
{
}

/// Once the time to live of a value has run out, reading the key gives
/// nothing, removes the entry and counts an eviction and a miss.
pub proof fn law_get_after_expiry(
    c: Map<Seq<char>, (CachedValue, Option<u64>)>,
    s: CacheStats,
    key: Seq<char>,
    value: CachedValue,
    ttl_seconds: u64,
    set_at: u64,
    now: u64,
)
    requires
        set_at + ttl_seconds * NANOS_PER_SEC < now,
    ensures
        get_outcome(c.insert(key, (value, expiry_of(set_at, Some(ttl_seconds)))), s, key, now) == (
            c.remove(key),
            s.advanced(0, 0, 0, 0, 1).advanced(0, 1, 0, 0, 0),
            None::<CachedValue>,
        ),
{
    assert(c.insert(key, (value, expiry_of(set_at, Some(ttl_seconds)))).remove(key) =~= c.remove(
        key,
    ));
}

/// Reading a key that was just deleted gives nothing and counts a miss.
pub proof fn law_get_after_delete(
    c: Map<Seq<char>, (CachedValue, Option<u64>)>,
    s: CacheStats,
    key: Seq<char>,
    now: u64,
)
    ensures
        get_outcome(c.remove(key), s, key, now) == (
            c.remove(key),
            s.advanced(0, 1, 0, 0, 0),
            None::<CachedValue>,
        ),
{
}

/// Setting a key leaves every other key as it was.
pub proof fn law_set_leaves_other_keys(
    c: Map<Seq<char>, (CachedValue, Option<u64>)>,
    key: Seq<char>,
    other: Seq<char>,
    entry: (CachedValue, Option<u64>),
)
    requires
        key != other,
    ensures
        c.insert(key, entry).dom().contains(other) == c.dom().contains(other),
        c.dom().contains(other) ==> c.insert(key, entry)[other] == c[other],
{
}

/// After a cleanup, exactly the entries that were live remain, unchanged.
pub proof fn law_cleanup_keeps_live(c: Map<Seq<char>, (CachedValue, Option<u64>)>, now: u64, key: Seq<char>)
    ensures
        live_entries(c, now).dom().contains(key) <==> (c.dom().contains(key) && is_live(
            c[key],
            now,
        )),
        live_entries(c, now).dom().contains(key) ==> live_entries(c, now)[key] == c[key],
{
}

/// Every read counts exactly one hit or one miss: a hit when it gives a
/// value, a miss when it gives nothing.
pub proof fn law_read_is_hit_or_miss(
    c: Map<Seq<char>, (CachedValue, Option<u64>)>,
    s: CacheStats,
    key: Seq<char>,
    now: u64,
)
    ensures
        ({
            let (_, s1, r) = get_outcome(c, s, key, now);
            &&& r is Some ==> s1.hits == wrap_add(s.hits, 1) && s1.misses == s.misses
            &&& r is None ==> s1.misses == wrap_add(s.misses, 1) && s1.hits == s.hits
        }),
{
    lemma_wrap_add_zero(s.hits);
    lemma_wrap_add_zero(s.misses);
    lemma_wrap_add_zero(wrap_add(s.misses, 0));
}

/// An increment stores a number that the next read gives back, as long as
/// the entry is live.
pub proof fn law_get_after_store_number(
    c: Map<Seq<char>, (CachedValue, Option<u64>)>,
    s: CacheStats,
    key: Seq<char>,
    bits: u64,
    now: u64,
)
    requires
        !c.dom().contains(key) || is_live(c[key], now),
    ensures
        get_outcome(
            c.insert(
                key,
                (
                    CachedValue::Number(bits),
                    if c.dom().contains(key) {
                        c[key].1
                    } else {
                        None
                    },
                ),
            ),
            s,
            key,
            now,
        ).2 == Some(CachedValue::Number(bits)),
{
}

} // verus!
