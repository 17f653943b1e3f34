//! Memoised responses of the record store, keyed by canonical request URL.

use vstd::prelude::*;
use crate::json::{Json, JsonValue};

verus! {

/// Hit and miss counters of a [`RequestCache`].
#[derive(Debug, Clone, Copy, PartialEq, Eq, Structural)]
pub struct Stats {
    pub hits: u64,
    pub misses: u64,
}

/// The model of a [`RequestCache`]: its counters and what it stores.
pub struct CacheView {
    pub stats: Stats,
    pub store: Map<Seq<char>, Json>,
}

/// A counter after one more event; it stays at its maximum once there.
pub open spec fn bump(n: u64) -> u64 {
    if n < u64::MAX {
        (n + 1) as u64
    } else {
        n
    }
}

/// The cache after a lookup of a key it holds.
pub open spec fn hit_step(c: CacheView) -> CacheView {
    CacheView { stats: Stats { hits: bump(c.stats.hits), misses: c.stats.misses }, store: c.store }
}

/// The cache after a lookup of a key it lacks, whose producer gave `produced`:
/// a success is stored, a failure is not.
pub open spec fn miss_step<E>(c: CacheView, key: Seq<char>, produced: Result<JsonValue, E>) -> CacheView {
    CacheView {
        stats: Stats { hits: c.stats.hits, misses: bump(c.stats.misses) },
        store: match produced {
            Ok(v) => c.store.insert(key, v@),
            Err(_) => c.store,
        },
    }
}

/// The cache right after `clear`.
pub open spec fn cleared() -> CacheView {
    CacheView { stats: Stats { hits: 0, misses: 0 }, store: Map::empty() }
}

/// The map that a list of entries with distinct keys stands for.
pub open spec fn store_of(entries: Seq<(String, JsonValue)>) -> Map<Seq<char>, Json> {
    Map::new(
        |k: Seq<char>| exists|i: int| 0 <= i < entries.len() && entries[i].0@ == k,
        |k: Seq<char>| entries[choose|i: int| 0 <= i < entries.len() && entries[i].0@ == k].1@,
    )
}

/// Memoises raw responses by request URL and counts hits and misses.
///
/// Entries are never removed one by one; only [`RequestCache::clear`] empties
/// the store, and it also resets both counters.
#[derive(Debug)]
pub struct RequestCache {
    stats: Stats,
    entries: Vec<(String, JsonValue)>,
}

impl RequestCache {
    pub closed spec fn wf(&self) -> bool {
        forall|i: int, j: int|
            0 <= i < self.entries@.len() && 0 <= j < self.entries@.len() && i != j
                ==> self.entries@[i].0@ != self.entries@[j].0@
    }

    pub closed spec fn view(&self) -> CacheView {
        CacheView { stats: self.stats, store: store_of(self.entries@) }
    }

    pub fn new() -> (r: RequestCache)
        ensures
            r.wf(),
            r@ == cleared(),
    {
        let r = RequestCache { stats: Stats { hits: 0, misses: 0 }, entries: Vec::new() };
        assert(store_of(r.entries@) =~= Map::empty());
        r
    }

    /// A snapshot of the counters.
    pub fn stats(&self) -> (r: Stats)
        ensures
            r == self@.stats,
    {
        self.stats
    }

    /// Drops every entry and resets both counters.
    pub fn clear(&mut self)
        ensures
            final(self).wf(),
            final(self)@ == cleared(),
    {
        self.stats = Stats { hits: 0, misses: 0 };
        self.entries = Vec::new();
        assert(store_of(self.entries@) =~= Map::empty());
    }

    /// A copy of what is stored under `key`; counts nothing.
    pub fn get(&self, key: &String) -> (r: Option<JsonValue>)
        requires
            self.wf(),
        ensures
            match r {
                Some(v) => self@.store.contains_key(key@) && v@ == self@.store[key@],
                None => !self@.store.contains_key(key@),
            },
    {
        let mut i: usize = 0;
        while i < self.entries.len()
            invariant
                i <= self.entries.len(),
                self.wf(),
                forall|j: int| 0 <= j < i ==> self.entries@[j].0@ != key@,
            decreases self.entries.len() - i,
        {
            if self.entries[i].0 == *key {
                let ghost e = self.entries@;
                assert(store_of(e).dom().contains(key@));
                let ghost c = choose|j: int| 0 <= j < e.len() && e[j].0@ == key@;
                assert(c == i as int);
                return Some(self.entries[i].1.deep_copy());
            }
            i = i + 1;
        }
        None
    }

    /// Counts one lookup, as a hit or as a miss.
    pub fn count(&mut self, hit: bool)
        requires
            old(self).wf(),
        ensures
            final(self).wf(),
            final(self)@ == (if hit { hit_step(old(self)@) } else {
                CacheView {
                    stats: Stats { hits: old(self)@.stats.hits, misses: bump(old(self)@.stats.misses) },
                    store: old(self)@.store,
                }
            }),
    {
        if hit {
            self.stats.hits = self.stats.hits.saturating_add(1);
        } else {
            self.stats.misses = self.stats.misses.saturating_add(1);
        }
    }

    /// Stores `value` under `key` unless the key is already there: an entry,
    /// once in, stays as it is until `clear`.
    pub fn insert(&mut self, key: String, value: JsonValue)
        requires
            old(self).wf(),
        ensures
            final(self).wf(),
            final(self)@.stats == old(self)@.stats,
            final(self)@.store == (if old(self)@.store.contains_key(key@) {
                old(self)@.store
            } else {
                old(self)@.store.insert(key@, value@)
            }),
    {
        match self.get(&key) {
            Some(_) => {},
            None => {
                let ghost old_entries = self.entries@;
                let ghost k = key@;
                let ghost v = value@;
                self.entries.push((key, value));
                let ghost e = self.entries@;
                assert(e.len() == old_entries.len() + 1);
                assert forall|i: int| 0 <= i < old_entries.len() implies e[i] == old_entries[i] by {}
                assert(store_of(e) =~= store_of(old_entries).insert(k, v)) by {
                    assert forall|q: Seq<char>| #[trigger] store_of(e).dom().contains(q)
                        <==> store_of(old_entries).insert(k, v).dom().contains(q) by {
                        if q != k && store_of(e).dom().contains(q) {
                            let j = choose|j: int| 0 <= j < e.len() && e[j].0@ == q;
                            assert(j < old_entries.len());
                            assert(old_entries[j].0@ == q);
                        }
                        if store_of(old_entries).dom().contains(q) {
                            let j = choose|j: int| 0 <= j < old_entries.len() && old_entries[j].0@ == q;
                            assert(e[j].0@ == q);
                        }
                        if q == k {
                            assert(e[e.len() - 1].0@ == q);
                        }
                    }
                    assert forall|q: Seq<char>| #[trigger] store_of(e).dom().contains(q)
                        implies store_of(e)[q] == store_of(old_entries).insert(k, v)[q] by {
                        let j = choose|j: int| 0 <= j < e.len() && e[j].0@ == q;
                        if q == k {
                            assert(j == e.len() - 1);
                        } else {
                            let j0 = choose|j: int| 0 <= j < old_entries.len() && old_entries[j].0@ == q;
                            assert(e[j0].0@ == q);
                            assert(j == j0);
                        }
                    }
                }
            },
        }
    }

    /// Serves `key` from the store when it is there (a hit, without calling
    /// `producer`); otherwise counts a miss, calls `producer` once with the key,
    /// stores a success and hands the producer's result back either way.
    pub fn get_or_insert_with<E, F: FnOnce(String) -> Result<JsonValue, E>>(
        &mut self,
        key: String,
        producer: F,
    ) -> (r: Result<JsonValue, E>)
        requires
            old(self).wf(),
            producer.requires((key,)),
        ensures
            final(self).wf(),
            old(self)@.store.contains_key(key@) ==> {
                &&& final(self)@ == hit_step(old(self)@)
                &&& r matches Ok(v) && v@ == old(self)@.store[key@]
            },
            !old(self)@.store.contains_key(key@) ==> {
                &&& final(self)@ == miss_step(old(self)@, key@, r)
                &&& producer.ensures((key,), r)
            },
    {
        match self.get(&key) {
            Some(v) => {
                self.count(true);
                Ok(v)
            },
            None => {
                self.count(false);
                let k = key.clone();
                let produced = producer(key);
                if let Ok(v) = &produced {
                    let stored = v.deep_copy();
                    self.insert(k, stored);
                }
                produced
            },
        }
    }
}

} // verus!

verus! {

/// Asking twice for the same key: the first call misses and stores what its
/// producer gave, the second is served from the store with that same value
/// without a producer, and together they count one miss and one hit.
pub proof fn lemma_second_lookup_hits<E>(c: CacheView, key: Seq<char>, produced: JsonValue)
    requires
        !c.store.contains_key(key),
        c.stats.hits < u64::MAX,
        c.stats.misses < u64::MAX,
    ensures
        ({
            let c1 = miss_step(c, key, Ok::<JsonValue, E>(produced));
            &&& c1.store.contains_key(key)
            &&& c1.store[key] == produced@
            &&& hit_step(c1).store == c1.store
            &&& hit_step(c1).stats.hits == c.stats.hits + 1
            &&& hit_step(c1).stats.misses == c.stats.misses + 1
        }),
{
}

/// After `clear` both counters read zero and no key is stored, so the next
/// lookup of a key that was cached before is a miss.
pub proof fn lemma_clear_forgets(key: Seq<char>)
    ensures
        cleared().stats == (Stats { hits: 0, misses: 0 }),
        !cleared().store.contains_key(key),
{
}

} // verus!
