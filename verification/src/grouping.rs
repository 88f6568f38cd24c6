//! Query grouping support: the bounded LRU cache that maps a query-text hash
//! to its normalised fingerprint, the text hash itself, and the intake
//! rules of the streaming grouper (time window and plan cap).
use vstd::prelude::*;
use std::collections::BTreeMap;
use crate::models::DateFilter;
use vstd::std_specs::btree::{increasing_seq, spec_btree_map_iter};
use vstd::std_specs::cmp::OrdSpec;
use vstd::std_specs::iter::IteratorSpec;

verus! {

/// Upper bound on the persistent fingerprint cache.
pub const MAX_FINGERPRINT_CACHE_ENTRIES: usize = 100_000;

/// Distinct-fingerprint count at which the high-cardinality warning fires.
pub const GROUP_RETENTION_WARN_THRESHOLD: usize = 50_000;

// ---------------------------------------------------------------------------
// The entry table: a hashbrown map from text hash to (fingerprint, tick)
// ---------------------------------------------------------------------------

/// A `hashbrown::HashMap<u64, (String, u64)>` from text hash to the cached
/// fingerprint and the tick of its last access.
#[verifier::external_body]
pub struct EntryTable {
    map: hashbrown::HashMap<u64, (String, u64)>,
}

/// What an [`EntryTable`] holds: each hash with its fingerprint and tick.
pub uninterp spec fn table_entries(table: EntryTable) -> Map<u64, (Seq<char>, u64)>;

/// Largest number of entries for which inserting a new key into the table
/// cannot exceed hashbrown's capacity limit (`capacity_overflow` panics when
/// the bucket array would outgrow `isize::MAX` bytes).
pub open spec fn table_room(len: nat) -> bool {
    len < (isize::MAX as int) / 128
}

/// The contents of an empty table.
pub open spec fn no_entries() -> Map<u64, (Seq<char>, u64)> {
    Map::empty()
}

impl EntryTable {
    /// `hashbrown::HashMap::with_capacity`: an empty map. A capacity whose
    /// bucket array would outgrow `isize::MAX` bytes panics, so it is left out.
    #[verifier::external_body]
    fn with_capacity(capacity: usize) -> (t: EntryTable)
        requires
            table_room(capacity as nat),
        ensures
            table_entries(t) == no_entries(),
    {
        EntryTable { map: hashbrown::HashMap::with_capacity(capacity) }
    }

    /// `hashbrown::HashMap::get`, the value cloned out: the entry stored
    /// under `key`, or `None` when the key is absent.
    #[verifier::external_body]
    fn get(&self, key: u64) -> (r: Option<(String, u64)>)
        ensures
            match r {
                Some(v) => table_entries(*self).contains_key(key) && table_entries(*self)[key] == (
                v.0@,
                v.1,
            ),
                None => !table_entries(*self).contains_key(key),
            },
    {
        self.map.get(&key).cloned()
    }

    /// `hashbrown::HashMap::insert`: afterwards `key` maps to `value` and
    /// every other entry is unchanged.
    #[verifier::external_body]
    fn insert(&mut self, key: u64, value: (String, u64))
        requires
            table_entries(*old(self)).contains_key(key) || table_room(
                table_entries(*old(self)).dom().len(),
            ),
        ensures
            table_entries(*final(self)) == table_entries(*old(self)).insert(key, (value.0@, value.1)),
    {
        self.map.insert(key, value);
    }

    /// `hashbrown::HashMap::remove`: afterwards `key` is absent and every
    /// other entry is unchanged.
    #[verifier::external_body]
    fn remove(&mut self, key: u64)
        ensures
            table_entries(*final(self)) == table_entries(*old(self)).remove(key),
    {
        self.map.remove(&key);
    }

    /// `hashbrown::HashMap::len`: the number of entries.
    #[verifier::external_body]
    fn len(&self) -> (n: usize)
        ensures
            n == table_entries(*self).dom().len(),
    {
        self.map.len()
    }

    /// `hashbrown::HashMap::clear`: afterwards the map is empty.
    #[verifier::external_body]
    fn clear(&mut self)
        ensures
            table_entries(*final(self)) == no_entries(),
    {
        self.map.clear();
    }
}

// ---------------------------------------------------------------------------
// FingerprintCache
// ---------------------------------------------------------------------------

/// Bounded LRU cache mapping a query-text hash to its normalised fingerprint.
/// When full, inserting a new hash evicts the least-recently-used entry;
/// a capacity of zero disables the bound.
pub struct FingerprintCache {
    cap: usize,
    tick: u64,
    /// hash -> (fingerprint, last-access tick).
    entries: EntryTable,
    /// last-access tick -> hash; the first key is the least-recently-used entry.
    order: BTreeMap<u64, u64>,
}

impl FingerprintCache {
    /// Every entry as held: hash -> (fingerprint, last-access tick).
    pub closed spec fn held(self) -> Map<u64, (Seq<char>, u64)> {
        table_entries(self.entries)
    }

    /// The cached fingerprints, by text hash.
    pub open spec fn fingerprints(self) -> Map<u64, Seq<char>> {
        Map::new(|h: u64| self.held().contains_key(h), |h: u64| self.held()[h].0)
    }

    /// The tick of each cached hash's last access.
    pub open spec fn recency(self) -> Map<u64, u64> {
        Map::new(|h: u64| self.held().contains_key(h), |h: u64| self.held()[h].1)
    }

    /// Number of cached entries.
    pub open spec fn size(self) -> nat {
        self.held().dom().len()
    }

    /// The bound on the number of entries (0: unbounded).
    pub closed spec fn capacity(self) -> nat {
        self.cap as nat
    }

    /// The access clock: the tick given to the most recent access.
    pub closed spec fn clock(self) -> u64 {
        self.tick
    }

    /// `h` is cached and no cached entry was accessed less recently.
    pub open spec fn is_least_recent(self, h: u64) -> bool {
        &&& self.recency().contains_key(h)
        &&& forall|k: u64| #[trigger]
            self.recency().contains_key(k) ==> self.recency()[h] <= self.recency()[k]
    }

    /// The least-recently-used hash.
    pub open spec fn least_recent(self) -> u64 {
        choose|h: u64| self.is_least_recent(h)
    }

    /// Internal consistency of the two maps and the capacity bound.
    pub closed spec fn wf(self) -> bool {
        let e = table_entries(self.entries);
        let o = self.order@;
        &&& e.dom().finite()
        &&& forall|h: u64| #[trigger]
            e.contains_key(h) ==> {
                &&& o.contains_key(e[h].1)
                &&& o[e[h].1] == h
                &&& 1 <= e[h].1 <= self.tick
            }
        &&& forall|t: u64| #[trigger]
            o.contains_key(t) ==> e.contains_key(o[t]) && e[o[t]].1 == t
        &&& (self.cap > 0 ==> e.dom().len() <= self.cap)
    }

    /// Distinct cached hashes carry distinct ticks, and every tick is at most
    /// the clock.
    pub proof fn lemma_ticks_distinct(self)
        requires
            self.wf(),
        ensures
            forall|a: u64, b: u64|
                self.recency().contains_key(a) && self.recency().contains_key(b) && a != b
                    ==> #[trigger] self.recency()[a] != #[trigger] self.recency()[b],
            forall|h: u64| #[trigger]
                self.recency().contains_key(h) ==> 1 <= self.recency()[h] <= self.clock(),
    {
        assert forall|a: u64, b: u64|
            self.recency().contains_key(a) && self.recency().contains_key(b) && a != b
                implies #[trigger] self.recency()[a] != #[trigger] self.recency()[b] by {
            let e = table_entries(self.entries);
            assert(e.contains_key(a));
            assert(e.contains_key(b));
        }
        assert forall|h: u64| #[trigger]
            self.recency().contains_key(h) implies 1 <= self.recency()[h] <= self.clock() by {
            assert(table_entries(self.entries).contains_key(h));
        }
    }

    /// An empty cache bounded to `cap` entries (0: unbounded).
    pub fn with_capacity(cap: usize) -> (r: Self)
        ensures
            r.wf(),
            r.fingerprints() == Map::<u64, Seq<char>>::empty(),
            r.size() == 0,
            r.capacity() == cap,
            r.clock() == 0,
    {
        let initial = if cap < 1024 {
            cap
        } else {
            1024
        };
        let r = FingerprintCache {
            cap,
            tick: 0,
            entries: EntryTable::with_capacity(initial),
            order: BTreeMap::new(),
        };
        assert(r.fingerprints() =~= Map::<u64, Seq<char>>::empty());
        r
    }

    /// The fingerprint cached for `hash`, refreshing its recency on a hit.
    pub fn get(&mut self, hash: u64) -> (r: Option<String>)
        requires
            old(self).wf(),
            old(self).clock() < u64::MAX,
        ensures
            final(self).wf(),
            final(self).capacity() == old(self).capacity(),
            final(self).fingerprints() == old(self).fingerprints(),
            final(self).size() == old(self).size(),
            match r {
                Some(f) => {
                    &&& old(self).fingerprints().contains_key(hash)
                    &&& f@ == old(self).fingerprints()[hash]
                    &&& final(self).clock() == old(self).clock() + 1
                    &&& final(self).recency() == old(self).recency().insert(hash, final(self).clock())
                },
                None => {
                    &&& !old(self).fingerprints().contains_key(hash)
                    &&& *final(self) == *old(self)
                },
            },
    {
        let ghost e0 = table_entries(self.entries);
        match self.entries.get(hash) {
            None => {
                assert(!old(self).fingerprints().contains_key(hash));
                None
            },
            Some((fingerprint, old_tick)) => {
                self.tick = self.tick + 1;
                let now = self.tick;
                self.order.remove(&old_tick);
                self.order.insert(now, hash);
                let kept = fingerprint.clone();
                self.entries.insert(hash, (fingerprint, now));
                proof {
                    let e1 = table_entries(self.entries);
                    assert(e1 == e0.insert(hash, (kept@, now)));
                    assert forall|h: u64| #[trigger] e1.contains_key(h) implies {
                        &&& self.order@.contains_key(e1[h].1)
                        &&& self.order@[e1[h].1] == h
                        &&& 1 <= e1[h].1 <= self.tick
                    } by {
                        if h != hash {
                            assert(e0.contains_key(h));
                            assert(e0[h].1 != old_tick);
                        }
                    }
                    assert forall|t: u64| #[trigger] self.order@.contains_key(t) implies e1.contains_key(
                        self.order@[t],
                    ) && e1[self.order@[t]].1 == t by {
                        if t != now {
                            assert(old(self).order@.contains_key(t));
                        }
                    }
                    assert(e1.dom() =~= e0.dom());
                    assert(self.fingerprints() =~= old(self).fingerprints());
                    assert(self.recency() =~= old(self).recency().insert(hash, now));
                }
                Some(kept)
            },
        }
    }

    /// Insert or refresh `hash`, evicting the least-recently-used entry when
    /// the capacity would be exceeded (a capacity of zero disables the bound).
    pub fn insert(&mut self, hash: u64, fingerprint: String)
        requires
            old(self).wf(),
            old(self).clock() < u64::MAX,
            old(self).fingerprints().contains_key(hash) || table_room(old(self).size()),
        ensures
            final(self).wf(),
            final(self).capacity() == old(self).capacity(),
            old(self).insert_effect(*final(self), hash, fingerprint@),
    {
        let ghost e0 = table_entries(self.entries);
        let ghost fp = fingerprint@;
        self.tick = self.tick + 1;
        let now = self.tick;
        proof {
            assert(!self.order@.contains_key(now));
        }
        match self.entries.get(hash) {
            Some((_, old_tick)) => {
                self.order.remove(&old_tick);
                self.entries.insert(hash, (fingerprint, now));
                self.order.insert(now, hash);
                proof {
                    let e1 = table_entries(self.entries);
                    assert forall|h: u64| #[trigger] e1.contains_key(h) implies {
                        &&& self.order@.contains_key(e1[h].1)
                        &&& self.order@[e1[h].1] == h
                        &&& 1 <= e1[h].1 <= self.tick
                    } by {
                        if h != hash {
                            assert(e0.contains_key(h));
                            assert(e0[h].1 != old_tick);
                        }
                    }
                    assert forall|t: u64| #[trigger] self.order@.contains_key(t) implies e1.contains_key(
                        self.order@[t],
                    ) && e1[self.order@[t]].1 == t by {
                        if t != now {
                            assert(old(self).order@.contains_key(t));
                        }
                    }
                    assert(e1.dom() =~= e0.dom());
                    assert(self.fingerprints() =~= old(self).fingerprints().insert(hash, fp));
                    assert(self.recency() =~= old(self).recency().insert(hash, now));
                }
                return ;
            },
            None => {},
        }
        let ghost mut evicted: u64 = 0;
        if self.cap > 0 && self.entries.len() >= self.cap {
            match self.oldest_access() {
                Some((lru_tick, lru_hash)) => {
                    proof {
                        evicted = lru_hash;
                        old(self).lemma_ticks_distinct();
                        assert(old(self).is_least_recent(lru_hash)) by {
                            assert forall|k: u64| #[trigger]
                                old(self).recency().contains_key(k) implies old(self).recency()[lru_hash]
                                <= old(self).recency()[k] by {
                                assert(e0.contains_key(k));
                                assert(self.order@.contains_key(e0[k].1));
                            }
                        }
                        assert(old(self).least_recent() == lru_hash) by {
                            let c = old(self).least_recent();
                            assert(old(self).is_least_recent(c));
                            if c != lru_hash {
                                assert(old(self).recency()[c] <= old(self).recency()[lru_hash]);
                                assert(old(self).recency()[lru_hash] <= old(self).recency()[c]);
                            }
                        }
                    }
                    self.order.remove(&lru_tick);
                    self.entries.remove(lru_hash);
                },
                None => {
                    proof {
                        assert(e0.dom().len() > 0);
                        let h = e0.dom().choose();
                        assert(e0.contains_key(h));
                        assert(self.order@.contains_key(e0[h].1));
                    }
                },
            }
        }
        let ghost e_mid = table_entries(self.entries);
        let ghost o_mid = self.order@;
        proof {
            assert(e_mid.dom().finite());
            assert(e_mid.dom().len() <= e0.dom().len());
        }
        self.entries.insert(hash, (fingerprint, now));
        self.order.insert(now, hash);
        proof {
            let e1 = table_entries(self.entries);
            assert(!e_mid.contains_key(hash));
            assert forall|h: u64| #[trigger] e1.contains_key(h) implies {
                &&& self.order@.contains_key(e1[h].1)
                &&& self.order@[e1[h].1] == h
                &&& 1 <= e1[h].1 <= self.tick
            } by {
                if h != hash {
                    assert(e_mid.contains_key(h));
                    assert(e0.contains_key(h));
                }
            }
            assert forall|t: u64| #[trigger] self.order@.contains_key(t) implies e1.contains_key(
                self.order@[t],
            ) && e1[self.order@[t]].1 == t by {
                if t != now {
                    assert(o_mid.contains_key(t));
                }
            }
            if old(self).evicts_on_insert() {
                assert(self.fingerprints() =~= old(self).fingerprints().remove(evicted).insert(hash, fp));
                assert(self.recency() =~= old(self).recency().remove(evicted).insert(hash, now));
            } else {
                assert(self.fingerprints() =~= old(self).fingerprints().insert(hash, fp));
                assert(self.recency() =~= old(self).recency().insert(hash, now));
            }
        }
    }

    /// What `insert(hash, f)` does, taking `self` to `after`: the clock
    /// advances by one and `hash` maps to `f` with the new tick; when `hash`
    /// was not cached and the cache is full, the least-recently-used entry
    /// leaves first.
    pub open spec fn insert_effect(self, after: Self, hash: u64, f: Seq<char>) -> bool {
        let evicted = !self.fingerprints().contains_key(hash) && self.evicts_on_insert();
        let lru = self.least_recent();
        &&& after.clock() == self.clock() + 1
        &&& after.capacity() == self.capacity()
        &&& evicted ==> {
            &&& after.fingerprints() == self.fingerprints().remove(lru).insert(hash, f)
            &&& after.recency() == self.recency().remove(lru).insert(hash, after.clock())
        }
        &&& !evicted ==> {
            &&& after.fingerprints() == self.fingerprints().insert(hash, f)
            &&& after.recency() == self.recency().insert(hash, after.clock())
        }
    }

    /// Drop every entry and restart the access clock.
    pub fn clear(&mut self)
        ensures
            final(self).wf(),
            final(self).fingerprints() == Map::<u64, Seq<char>>::empty(),
            final(self).size() == 0,
            final(self).clock() == 0,
            final(self).capacity() == old(self).capacity(),
    {
        self.entries.clear();
        self.order.clear();
        self.tick = 0;
        assert(self.fingerprints() =~= Map::<u64, Seq<char>>::empty());
    }

    /// Number of cached entries.
    pub fn len(&self) -> (n: usize)
        ensures
            n == self.size(),
    {
        self.entries.len()
    }

    /// Whether the cache holds no entry.
    pub fn is_empty(&self) -> (r: bool)
        ensures
            r == (self.size() == 0),
    {
        self.entries.len() == 0
    }

    /// Whether inserting a hash that is not cached must first evict one.
    pub open spec fn evicts_on_insert(self) -> bool {
        self.capacity() > 0 && self.size() >= self.capacity()
    }

    /// The first (smallest-tick) entry of the recency order.
    fn oldest_access(&self) -> (r: Option<(u64, u64)>)
        ensures
            match r {
                Some((t, h)) => {
                    &&& self.order@.contains_key(t)
                    &&& self.order@[t] == h
                    &&& forall|u: u64| #[trigger] self.order@.contains_key(u) ==> t <= u
                },
                None => self.order@.dom().is_empty(),
            },
    {
        let ghost m = self.order@;
        let mut first: Option<(u64, u64)> = None;
        for kv in it: self.order.iter()
            invariant_except_break
                first is None,
                it.index() == 0,
                m == self.order@,
                it.seq() == spec_btree_map_iter(&self.order).remaining(),
                increasing_seq(it.seq().map_values(|kv: (&u64, &u64)| *kv.0)),
            ensures
                m == self.order@,
                first is None ==> it.seq().len() == 0,
                first matches Some((t, h)) ==> {
                    &&& m.contains_key(t)
                    &&& m[t] == h
                    &&& forall|u: u64| #[trigger] m.contains_key(u) ==> t <= u
                },
        {
            let ghost v = it.seq();
            proof {
                assert(kv == v[0]);
                assert forall|u: u64| #[trigger] m.contains_key(u) implies *kv.0 <= u by {
                    assert(v.contains((&u, &m[u])));
                    let j = choose|j: int| 0 <= j < v.len() && v[j] == (&u, &m[u]);
                    let keys = v.map_values(|kv: (&u64, &u64)| *kv.0);
                    assert(keys[0] == *kv.0);
                    assert(keys[j] == u);
                    if j > 0 {
                        assert(keys[0].cmp_spec(&keys[j]) is Less);
                    }
                }
            }
            first = Some((*kv.0, *kv.1));
            break;
        }
        proof {
            if first is None {
                assert forall|u: u64| !m.contains_key(u) by {
                    if m.contains_key(u) {
                        assert(spec_btree_map_iter(&self.order).remaining().contains((&u, &m[u])));
                    }
                }
                assert(m.dom() =~= Set::empty());
            }
        }
        first
    }
}


impl Default for FingerprintCache {
    fn default() -> (r: Self)
        ensures
            r.wf(),
            r.size() == 0,
            r.capacity() == MAX_FINGERPRINT_CACHE_ENTRIES,
            r.clock() == 0,
    {
        FingerprintCache::with_capacity(MAX_FINGERPRINT_CACHE_ENTRIES)
    }
}

// ---------------------------------------------------------------------------
// Laws of the cache
// ---------------------------------------------------------------------------

/// A bounded cache never holds more entries than its capacity.
pub proof fn lemma_cache_bounded(c: FingerprintCache)
    requires
        c.wf(),
        c.capacity() > 0,
    ensures
        c.size() <= c.capacity(),
{
}

/// Reading a hash right after inserting it gives back the inserted
/// fingerprint, and that hash is then the most recently used entry.
pub proof fn lemma_insert_then_get(
    before: FingerprintCache,
    after: FingerprintCache,
    hash: u64,
    f: Seq<char>,
)
    requires
        before.wf(),
        after.wf(),
        before.insert_effect(after, hash, f),
    ensures
        after.fingerprints().contains_key(hash),
        after.fingerprints()[hash] == f,
        forall|k: u64| #[trigger] after.recency().contains_key(k) ==> after.recency()[k] <= after.recency()[hash],
{
    after.lemma_ticks_distinct();
}

/// Re-inserting a cached hash replaces its fingerprint in place: no entry
/// is evicted and the size does not change.
pub proof fn lemma_reinsert_keeps_size(
    before: FingerprintCache,
    after: FingerprintCache,
    hash: u64,
    f: Seq<char>,
)
    requires
        before.wf(),
        after.wf(),
        before.fingerprints().contains_key(hash),
        before.insert_effect(after, hash, f),
    ensures
        after.size() == before.size(),
        after.fingerprints() == before.fingerprints().insert(hash, f),
{
    assert(after.fingerprints().dom() =~= before.fingerprints().dom());
    assert(after.held().dom() =~= after.fingerprints().dom());
    assert(before.held().dom() =~= before.fingerprints().dom());
}

/// With capacity zero the cache is unbounded: inserting a new hash keeps
/// every entry and grows the cache by one.
pub proof fn lemma_unbounded_insert_grows(
    before: FingerprintCache,
    after: FingerprintCache,
    hash: u64,
    f: Seq<char>,
)
    requires
        before.wf(),
        after.wf(),
        before.capacity() == 0,
        !before.fingerprints().contains_key(hash),
        before.insert_effect(after, hash, f),
    ensures
        after.size() == before.size() + 1,
        after.fingerprints() == before.fingerprints().insert(hash, f),
{
    assert(after.held().dom() =~= after.fingerprints().dom());
    assert(before.held().dom() =~= before.fingerprints().dom());
    assert(after.fingerprints().dom() =~= before.fingerprints().dom().insert(hash));
}

/// Eviction on a full cache removes exactly the least-recently-used entry:
/// the size stays at capacity, the new hash is present and every other
/// entry survives.
pub proof fn lemma_full_insert_evicts_lru(
    before: FingerprintCache,
    after: FingerprintCache,
    hash: u64,
    f: Seq<char>,
)
    requires
        before.wf(),
        after.wf(),
        !before.fingerprints().contains_key(hash),
        before.evicts_on_insert(),
        before.insert_effect(after, hash, f),
    ensures
        after.size() == before.size(),
        !after.fingerprints().contains_key(before.least_recent()),
        forall|k: u64|
            #[trigger] before.fingerprints().contains_key(k) && k != before.least_recent()
                ==> after.fingerprints().contains_key(k) && after.fingerprints()[k]
                == before.fingerprints()[k],
{
    let lru = before.least_recent();
    assert(before.fingerprints().contains_key(lru)) by {
        lemma_least_recent_exists(before);
    }
    assert(after.held().dom() =~= after.fingerprints().dom());
    assert(before.held().dom() =~= before.fingerprints().dom());
    assert(after.fingerprints().dom() =~= before.fingerprints().dom().remove(lru).insert(hash));
}

/// A non-empty cache has a least-recently-used entry.
pub proof fn lemma_least_recent_exists(c: FingerprintCache)
    requires
        c.wf(),
        c.size() > 0,
    ensures
        exists|h: u64| c.is_least_recent(h),
{
    let rec = c.recency();
    assert(rec.dom() =~= c.held().dom());
    let w = lemma_smallest_in(rec.dom(), rec);
    assert(c.is_least_recent(w));
}

/// Some member of a finite, non-empty set of keys has the smallest value.
proof fn lemma_smallest_in(s: Set<u64>, m: Map<u64, u64>) -> (w: u64)
    requires
        s.finite(),
        s.len() > 0,
        s.subset_of(m.dom()),
    ensures
        s.contains(w),
        forall|k: u64| #[trigger] s.contains(k) ==> m[w] <= m[k],
    decreases s.len(),
{
    let x = s.choose();
    assert(s.contains(x));
    if s.len() == 1 {
        assert forall|k: u64| #[trigger] s.contains(k) implies m[x] <= m[k] by {
            if k != x {
                assert(s.remove(x).contains(k));
                assert(s.remove(x).len() == 0);
            }
        }
        x
    } else {
        let rest = s.remove(x);
        let y = lemma_smallest_in(rest, m);
        if m[x] <= m[y] {
            assert forall|k: u64| #[trigger] s.contains(k) implies m[x] <= m[k] by {
                if k != x {
                    assert(rest.contains(k));
                }
            }
            x
        } else {
            assert forall|k: u64| #[trigger] s.contains(k) implies m[y] <= m[k] by {
                if k != x {
                    assert(rest.contains(k));
                }
            }
            y
        }
    }
}

/// The entry just read or written is never the one evicted next, as long as
/// some other entry is cached.
pub proof fn lemma_most_recent_survives_eviction(c: FingerprintCache, h: u64)
    requires
        c.wf(),
        c.recency().contains_key(h),
        c.recency()[h] == c.clock(),
        c.size() >= 2,
    ensures
        c.least_recent() != h,
{
    c.lemma_ticks_distinct();
    lemma_least_recent_exists(c);
    let lru = c.least_recent();
    assert(c.is_least_recent(lru));
    if lru == h {
        assert(c.held().dom() =~= c.recency().dom());
        let other = c.held().dom().remove(h).choose();
        assert(c.held().dom().remove(h).len() > 0);
        assert(c.recency().contains_key(other));
        assert(c.recency()[h] <= c.recency()[other]);
    }
}


// ---------------------------------------------------------------------------
// Text hash and fingerprint resolution
// ---------------------------------------------------------------------------

/// The XXH3 64-bit hash of the UTF-8 bytes of a text.
pub uninterp spec fn xxh3_of_text(text: Seq<char>) -> u64;

/// `xxhash_rust::xxh3::xxh3_64` over the UTF-8 bytes of `query`.
#[verifier::external_body]
pub(crate) fn query_hash(query: &str) -> (h: u64)
    ensures
        h == xxh3_of_text(query@),
{
    xxhash_rust::xxh3::xxh3_64(query.as_bytes())
}

/// Lowercase hexadecimal digit for a value below 16.
pub open spec fn hex_digit(d: nat) -> char {
    if d < 10 {
        (48 + d) as char
    } else {
        (87 + d) as char
    }
}

/// The `n` lowest hexadecimal digits of `v`, least significant first.
pub open spec fn low_hex_digits(v: nat, n: nat) -> Seq<char>
    decreases n,
{
    if n == 0 {
        Seq::empty()
    } else {
        seq![hex_digit(v % 16)] + low_hex_digits(v / 16, (n - 1) as nat)
    }
}

/// `h` as sixteen zero-padded lowercase hexadecimal digits, most
/// significant first (the text of `format!("{:016x}", h)`).
pub open spec fn hex16(h: u64) -> Seq<char> {
    low_hex_digits(h as nat, 16).reverse()
}

fn hex_char(d: u64) -> (c: char)
    requires
        d < 16,
    ensures
        c == hex_digit(d as nat),
{
    if d < 10 {
        ((48 + d) as u8) as char
    } else {
        ((87 + d) as u8) as char
    }
}

/// The fallback fingerprint of a text whose normalisation failed: its hash
/// as sixteen zero-padded lowercase hexadecimal digits.
pub fn hex_fingerprint(h: u64) -> (s: String)
    ensures
        s@ == hex16(h),
{
    let mut low: Vec<char> = Vec::new();
    let mut v: u64 = h;
    let mut i: usize = 0;
    while i < 16
        invariant
            i <= 16,
            low@.len() == i,
            low@ + low_hex_digits(v as nat, (16 - i) as nat) == low_hex_digits(h as nat, 16),
        decreases 16 - i,
    {
        let d = v % 16;
        let c = hex_char(d);
        proof {
            let k = (16 - i) as nat;
            assert(low_hex_digits(v as nat, k) == seq![c] + low_hex_digits((v / 16) as nat, (k - 1) as nat));
            assert(low@.push(c) + low_hex_digits((v / 16) as nat, (k - 1) as nat) =~= low@ + (seq![c]
                + low_hex_digits((v / 16) as nat, (k - 1) as nat)));
        }
        low.push(c);
        v = v / 16;
        i = i + 1;
    }
    assert(low@ =~= low_hex_digits(h as nat, 16));
    let mut out: Vec<char> = Vec::new();
    let mut j: usize = 0;
    while j < 16
        invariant
            j <= 16,
            low@.len() == 16,
            low@ == low_hex_digits(h as nat, 16),
            out@ =~= low@.reverse().take(j as int),
        decreases 16 - j,
    {
        out.push(low[15 - j]);
        j = j + 1;
    }
    assert(out@ =~= low@.reverse());
    crate::text::string_from_chars(out.as_slice())
}

/// Resolve a query text to its fingerprint, consulting `cache` first.
///
/// On a miss the text goes to `normalize`; its fingerprint is cached, or,
/// when normalisation fails (`None`), the text's hash in hexadecimal, so that
/// such statements group by exact text.
pub fn fingerprint_for<F: Fn(&str) -> Option<String>>(
    cache: &mut FingerprintCache,
    query_text: &str,
    normalize: F,
) -> (r: String)
    requires
        old(cache).wf(),
        old(cache).clock() < u64::MAX,
        table_room(old(cache).size()),
        normalize.requires((query_text,)),
    ensures
        final(cache).wf(),
        ({
            let h = xxh3_of_text(query_text@);
            if old(cache).fingerprints().contains_key(h) {
                &&& r@ == old(cache).fingerprints()[h]
                &&& final(cache).fingerprints() == old(cache).fingerprints()
                &&& final(cache).recency() == old(cache).recency().insert(h, final(cache).clock())
            } else {
                &&& exists|n: Option<String>|
                    #[trigger] normalize.ensures((query_text,), n) && r@ == match n {
                        Some(f) => f@,
                        None => hex16(h),
                    }
                &&& old(cache).insert_effect(*final(cache), h, r@)
            }
        }),
{
    let hash = query_hash(query_text);
    match cache.get(hash) {
        Some(cached) => {
            return cached;
        },
        None => {},
    }
    let normalized = normalize(query_text);
    let ghost n = normalized;
    let fingerprint = match normalized {
        Some(f) => f,
        None => hex_fingerprint(hash),
    };
    let kept = fingerprint.clone();
    cache.insert(hash, fingerprint);
    assert(normalize.ensures((query_text,), n));
    kept
}


// ---------------------------------------------------------------------------
// Fingerprint resolution with a memo of the previous text
// ---------------------------------------------------------------------------

/// The fingerprint cache together with a memo of the immediately preceding
/// query text, which answers consecutive executions of one statement without
/// touching the cache's recency order.
pub struct FingerprintResolver {
    cache: FingerprintCache,
    last: Option<(u64, String)>,
}

impl FingerprintResolver {
    /// The underlying cache.
    pub closed spec fn cache_state(self) -> FingerprintCache {
        self.cache
    }

    /// The memoised (hash, fingerprint) of the previous text, if any.
    pub closed spec fn memo(self) -> Option<(u64, Seq<char>)> {
        match self.last {
            Some((h, f)) => Some((h, f@)),
            None => None,
        }
    }

    pub open spec fn wf(self) -> bool {
        self.cache_state().wf()
    }

    /// A resolver over an empty cache bounded to `cap` entries, with no memo.
    pub fn with_capacity(cap: usize) -> (r: Self)
        ensures
            r.wf(),
            r.cache_state().size() == 0,
            r.cache_state().capacity() == cap,
            r.cache_state().clock() == 0,
            r.memo() is None,
    {
        FingerprintResolver { cache: FingerprintCache::with_capacity(cap), last: None }
    }

    /// Number of cached fingerprints.
    pub fn cache_size(&self) -> (n: usize)
        ensures
            n == self.cache_state().size(),
    {
        self.cache.len()
    }

    /// Whether a further text can be resolved without exhausting the access
    /// clock or the table's capacity limit.
    pub fn has_room(&self) -> (r: bool)
        requires
            self.wf(),
        ensures
            r == (self.cache_state().clock() < u64::MAX && table_room(self.cache_state().size())),
    {
        self.cache.tick < u64::MAX && self.cache.entries.len() < isize::MAX as usize / 128
    }

    /// Forget the memo of the previous text; the cache is kept.
    pub fn forget_memo(&mut self)
        ensures
            final(self).memo() is None,
            final(self).cache_state() == old(self).cache_state(),
    {
        self.last = None;
    }

    /// Empty the cache and forget the memo.
    pub fn clear(&mut self)
        ensures
            final(self).wf(),
            final(self).cache_state().size() == 0,
            final(self).cache_state().clock() == 0,
            final(self).cache_state().capacity() == old(self).cache_state().capacity(),
            final(self).memo() is None,
    {
        self.cache.clear();
        self.last = None;
    }

    /// The fingerprint of `query_text`: the memo when the previous text had
    /// the same hash, otherwise resolved through the cache (see
    /// [`fingerprint_for`]) and memoised.
    pub fn fingerprint<F: Fn(&str) -> Option<String>>(&mut self, query_text: &str, normalize: F) -> (r:
        String)
        requires
            old(self).wf(),
            old(self).cache_state().clock() < u64::MAX,
            table_room(old(self).cache_state().size()),
            normalize.requires((query_text,)),
        ensures
            final(self).wf(),
            ({
                let h = xxh3_of_text(query_text@);
                match old(self).memo() {
                    Some((mh, mf)) if mh == h => r@ == mf && *final(self) == *old(self),
                    _ => {
                        &&& final(self).memo() == Some((h, r@))
                        &&& if old(self).cache_state().fingerprints().contains_key(h) {
                            &&& r@ == old(self).cache_state().fingerprints()[h]
                            &&& final(self).cache_state().fingerprints() == old(self).cache_state().fingerprints()
                        } else {
                            &&& exists|n: Option<String>|
                                #[trigger] normalize.ensures((query_text,), n) && r@ == match n {
                                    Some(f) => f@,
                                    None => hex16(h),
                                }
                            &&& old(self).cache_state().insert_effect(final(self).cache_state(), h, r@)
                        }
                    },
                }
            }),
    {
        let hash = query_hash(query_text);
        match &self.last {
            Some((last_hash, fingerprint)) => {
                if *last_hash == hash {
                    return fingerprint.clone();
                }
            },
            None => {},
        }
        let fingerprint = fingerprint_for(&mut self.cache, query_text, normalize);
        self.last = Some((hash, fingerprint.clone()));
        fingerprint
    }
}

// ---------------------------------------------------------------------------
// Intake rules of the streaming grouper
// ---------------------------------------------------------------------------

/// The counters and switches that decide whether the streaming grouper
/// accepts a plan: an optional time window, a cap on accepted plans
/// (0: unlimited), and the once-only high-cardinality warning.
pub struct GrouperIntake {
    filter: Option<DateFilter>,
    max_plans: usize,
    accepted: usize,
    truncated: bool,
    group_warn_threshold: usize,
    retention_warned: bool,
}

impl GrouperIntake {
    pub closed spec fn window(self) -> Option<DateFilter> {
        self.filter
    }

    pub closed spec fn plan_cap(self) -> nat {
        self.max_plans as nat
    }

    pub closed spec fn accepted_count(self) -> nat {
        self.accepted as nat
    }

    pub closed spec fn was_truncated(self) -> bool {
        self.truncated
    }

    pub closed spec fn warn_threshold(self) -> nat {
        self.group_warn_threshold as nat
    }

    pub closed spec fn has_warned(self) -> bool {
        self.retention_warned
    }

    /// The cap is set and reached.
    pub open spec fn full(self) -> bool {
        self.plan_cap() > 0 && self.accepted_count() >= self.plan_cap()
    }

    /// `self` and `other` agree on everything but the accepted count and the
    /// truncation flag.
    pub open spec fn same_settings(self, other: Self) -> bool {
        &&& self.window() == other.window()
        &&& self.plan_cap() == other.plan_cap()
        &&& self.warn_threshold() == other.warn_threshold()
        &&& self.has_warned() == other.has_warned()
    }

    /// What offering a plan stamped `timestamp` does, taking `self` to
    /// `after` with answer `r`: a plan outside the window is dropped and
    /// changes nothing; one offered when full is dropped and marks the run
    /// truncated; any other is accepted and counted.
    pub open spec fn offer_effect(self, after: Self, timestamp: i64, r: bool) -> bool {
        &&& after.same_settings(self)
        &&& if self.window() matches Some(f) && !f.covers(timestamp) {
            !r && after == self
        } else if self.full() {
            !r && after.was_truncated() && after.accepted_count() == self.accepted_count()
        } else {
            r && after.accepted_count() == self.accepted_count() + 1 && after.was_truncated()
                == self.was_truncated()
        }
    }

    /// No window, no cap, nothing accepted, and the default warning threshold.
    pub fn new() -> (r: Self)
        ensures
            r.window() is None,
            r.plan_cap() == 0,
            r.accepted_count() == 0,
            !r.was_truncated(),
            r.warn_threshold() == GROUP_RETENTION_WARN_THRESHOLD,
            !r.has_warned(),
    {
        GrouperIntake {
            filter: None,
            max_plans: 0,
            accepted: 0,
            truncated: false,
            group_warn_threshold: GROUP_RETENTION_WARN_THRESHOLD,
            retention_warned: false,
        }
    }

    /// Drop plans outside `filter`.
    pub fn with_filter(self, filter: DateFilter) -> (r: Self)
        ensures
            r.window() == Some(filter),
            r.plan_cap() == self.plan_cap(),
            r.accepted_count() == self.accepted_count(),
            r.was_truncated() == self.was_truncated(),
            r.warn_threshold() == self.warn_threshold(),
            r.has_warned() == self.has_warned(),
    {
        GrouperIntake { filter: Some(filter), ..self }
    }

    /// Stop accepting plans after `max_plans` (0 disables the cap).
    pub fn with_max_plans(self, max_plans: usize) -> (r: Self)
        ensures
            r.window() == self.window(),
            r.plan_cap() == max_plans,
            r.accepted_count() == self.accepted_count(),
            r.was_truncated() == self.was_truncated(),
            r.warn_threshold() == self.warn_threshold(),
            r.has_warned() == self.has_warned(),
    {
        GrouperIntake { max_plans, ..self }
    }

    /// Override the distinct-fingerprint count at which the warning fires.
    pub fn with_group_warn_threshold(self, threshold: usize) -> (r: Self)
        ensures
            r.window() == self.window(),
            r.plan_cap() == self.plan_cap(),
            r.accepted_count() == self.accepted_count(),
            r.was_truncated() == self.was_truncated(),
            r.warn_threshold() == threshold,
            r.has_warned() == self.has_warned(),
    {
        GrouperIntake { group_warn_threshold: threshold, ..self }
    }

    /// Whether the high-cardinality warning has fired.
    pub fn warned_high_cardinality(&self) -> (r: bool)
        ensures
            r == self.has_warned(),
    {
        self.retention_warned
    }

    /// Change the plan cap.
    pub fn set_max_plans(&mut self, max_plans: usize)
        ensures
            final(self).plan_cap() == max_plans,
            final(self).window() == old(self).window(),
            final(self).accepted_count() == old(self).accepted_count(),
            final(self).was_truncated() == old(self).was_truncated(),
            final(self).warn_threshold() == old(self).warn_threshold(),
            final(self).has_warned() == old(self).has_warned(),
    {
        self.max_plans = max_plans;
    }

    /// Whether the cap is set and has been reached.
    pub fn is_full(&self) -> (r: bool)
        ensures
            r == self.full(),
    {
        self.max_plans > 0 && self.accepted >= self.max_plans
    }

    /// Whether any plan was dropped because the cap was reached.
    pub fn truncated(&self) -> (r: bool)
        ensures
            r == self.was_truncated(),
    {
        self.truncated
    }

    /// Record that input was dropped because the cap was reached.
    pub fn mark_truncated(&mut self)
        ensures
            final(self).was_truncated(),
            final(self).same_settings(*old(self)),
            final(self).accepted_count() == old(self).accepted_count(),
    {
        self.truncated = true;
    }

    /// Number of plans accepted.
    pub fn accepted(&self) -> (n: usize)
        ensures
            n == self.accepted_count(),
    {
        self.accepted
    }

    /// Decide whether a plan stamped `timestamp` is folded in.
    pub fn offer(&mut self, timestamp: i64) -> (r: bool)
        requires
            old(self).plan_cap() > 0 || old(self).accepted_count() < usize::MAX,
        ensures
            old(self).offer_effect(*final(self), timestamp, r),
    {
        match self.filter {
            Some(f) => {
                if !f.matches(timestamp) {
                    return false;
                }
            },
            None => {},
        }
        if self.is_full() {
            self.truncated = true;
            return false;
        }
        self.accepted = self.accepted + 1;
        true
    }

    /// Report, at most once, that `group_count` distinct fingerprints have
    /// reached the warning threshold.
    pub fn note_group_count(&mut self, group_count: usize) -> (warn: bool)
        ensures
            warn == (!old(self).has_warned() && group_count >= old(self).warn_threshold()),
            final(self).has_warned() == (old(self).has_warned() || warn),
            final(self).window() == old(self).window(),
            final(self).plan_cap() == old(self).plan_cap(),
            final(self).accepted_count() == old(self).accepted_count(),
            final(self).was_truncated() == old(self).was_truncated(),
            final(self).warn_threshold() == old(self).warn_threshold(),
    {
        if self.retention_warned || group_count < self.group_warn_threshold {
            return false;
        }
        self.retention_warned = true;
        true
    }

    /// Fold in the counters of a grouper that covered the following range.
    pub fn merge(&mut self, other: &GrouperIntake)
        requires
            old(self).accepted_count() + other.accepted_count() <= usize::MAX,
        ensures
            final(self).accepted_count() == old(self).accepted_count() + other.accepted_count(),
            final(self).was_truncated() == (old(self).was_truncated() || other.was_truncated()),
            final(self).same_settings(*old(self)),
    {
        self.accepted = self.accepted + other.accepted;
        self.truncated = self.truncated || other.truncated;
    }

    /// Start a new batch: nothing accepted, nothing truncated. The warning
    /// flag is kept, so the warning fires at most once per grouper.
    pub fn reset_batch(&mut self)
        ensures
            final(self).accepted_count() == 0,
            !final(self).was_truncated(),
            final(self).same_settings(*old(self)),
    {
        self.accepted = 0;
        self.truncated = false;
    }
}

/// A capped grouper that starts within its cap stays within it: offering a
/// plan never takes the accepted count past the cap.
pub proof fn lemma_plan_cap_respected(before: GrouperIntake, after: GrouperIntake, t: i64, r: bool)
    requires
        before.offer_effect(after, t, r),
        before.plan_cap() > 0,
        before.accepted_count() <= before.plan_cap(),
    ensures
        after.accepted_count() <= after.plan_cap(),
{
}

/// Every accepted plan lies inside the grouper's time window.
pub proof fn lemma_accepted_plan_in_window(before: GrouperIntake, after: GrouperIntake, t: i64)
    requires
        before.offer_effect(after, t, true),
    ensures
        before.window() matches Some(f) ==> f.covers(t),
{
}

/// Once the cap is reached every further plan is refused and the run is
/// marked truncated.
pub proof fn lemma_full_grouper_refuses(before: GrouperIntake, after: GrouperIntake, t: i64, r: bool)
    requires
        before.offer_effect(after, t, r),
        before.full(),
    ensures
        !r,
        after.accepted_count() == before.accepted_count(),
        before.window() matches Some(f) && !f.covers(t) ==> after == before,
        !(before.window() matches Some(f) && !f.covers(t)) ==> after.was_truncated(),
{
}

} // verus!
