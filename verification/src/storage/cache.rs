//! A bounded cache of batches by key, in memory. When the cache is full,
//! the entry that was used least recently makes room.

use crate::storage::RecordBatch;
use crate::text::names_of;
use vstd::prelude::*;

verus! {

/// Declares the cache type `lru::LruCache` to the verifier. Nothing
/// inside a cache is visible to proofs; what a cache holds is named by
/// [`entries_of`] and [`limit_of`].
#[verifier::external_type_specification]
#[verifier::external_body]
#[verifier::reject_recursive_types(K)]
#[verifier::reject_recursive_types(V)]
#[verifier::reject_recursive_types(S)]
pub struct ExLruCache<K, V, S>(lru::LruCache<K, V, S>);

/// Declares `lru::DefaultHasher`, the hasher that a cache is made with
/// by default, to the verifier. Nothing is claimed of it.
#[verifier::external_type_specification]
#[verifier::external_body]
pub struct ExHashBuilder(lru::DefaultHasher);

/// The entries of a cache, from the one used most recently to the one
/// used least recently.
pub uninterp spec fn entries_of(cache: lru::LruCache<String, RecordBatch>) -> Seq<
    (Seq<char>, RecordBatch),
>;

/// The number of entries that a cache was made to hold.
pub uninterp spec fn limit_of(cache: lru::LruCache<String, RecordBatch>) -> nat;

/// The keys of a list of entries, in order.
pub open spec fn keys_of(entries: Seq<(Seq<char>, RecordBatch)>) -> Seq<Seq<char>> {
    entries.map_values(|e: (Seq<char>, RecordBatch)| e.0)
}

/// The place of a key among the entries, or -1 where no entry has it.
pub open spec fn place_of(entries: Seq<(Seq<char>, RecordBatch)>, key: Seq<char>) -> int
    decreases entries.len(),
{
    if entries.len() == 0 {
        -1
    } else if entries[0].0 == key {
        0
    } else if place_of(entries.drop_first(), key) < 0 {
        -1
    } else {
        place_of(entries.drop_first(), key) + 1
    }
}

/// What every cache keeps: no two entries share a key, and there are no
/// more entries than the limit, which is at least one.
pub open spec fn kept(cache: lru::LruCache<String, RecordBatch>) -> bool {
    &&& keys_of(entries_of(cache)).no_duplicates()
    &&& 1 <= limit_of(cache)
    &&& entries_of(cache).len() <= limit_of(cache)
}

/// The entries after a put: the new entry is the most recently used. It
/// takes the place of the entry of the same key where there is one;
/// otherwise, where the cache is full, the least recently used entry
/// leaves.
pub open spec fn after_put(
    entries: Seq<(Seq<char>, RecordBatch)>,
    limit: nat,
    key: Seq<char>,
    value: RecordBatch,
) -> Seq<(Seq<char>, RecordBatch)> {
    let i = place_of(entries, key);
    seq![(key, value)] + if i >= 0 {
        entries.remove(i)
    } else if entries.len() >= limit {
        entries.drop_last()
    } else {
        entries
    }
}

/// The entries after a use of the entry at place `i`: it becomes the
/// most recently used.
pub open spec fn after_use(entries: Seq<(Seq<char>, RecordBatch)>, i: int) -> Seq<
    (Seq<char>, RecordBatch),
> {
    if 0 <= i < entries.len() {
        seq![entries[i]] + entries.remove(i)
    } else {
        entries
    }
}

/// The entries without the entry at place `i`.
pub open spec fn without(entries: Seq<(Seq<char>, RecordBatch)>, i: int) -> Seq<
    (Seq<char>, RecordBatch),
> {
    if 0 <= i < entries.len() {
        entries.remove(i)
    } else {
        entries
    }
}

/// The largest number of batches that a cache is made for.
pub const MAX_CAPACITY: usize = 1_048_576;

/// Makes a cache with `LruCache::new` of `lru`: an empty cache that holds
/// at most `capacity` entries. The cache's table is allocated at once,
/// which is why the capacity is bounded.
#[verifier::external_body]
fn new_cache(capacity: usize) -> (cache: lru::LruCache<String, RecordBatch>)
    requires
        0 < capacity <= MAX_CAPACITY,
    ensures
        entries_of(cache).len() == 0,
        limit_of(cache) == capacity,
        kept(cache),
{
    lru::LruCache::new(std::num::NonZeroUsize::new(capacity).unwrap())
}

/// Calls `LruCache::put`, which updates the value of a key that is in the
/// cache, and otherwise inserts the entry, evicting the least recently
/// used entry where the cache is full. Either way the entry becomes the
/// most recently used.
#[verifier::external_body]
fn cache_put(cache: &mut lru::LruCache<String, RecordBatch>, key: String, value: RecordBatch)
    requires
        kept(*old(cache)),
    ensures
        limit_of(*final(cache)) == limit_of(*old(cache)),
        entries_of(*final(cache)) == after_put(
            entries_of(*old(cache)),
            limit_of(*old(cache)),
            key@,
            value,
        ),
        kept(*final(cache)),
{
    cache.put(key, value);
}

/// Calls `LruCache::get`, which finds the value of a key and makes its
/// entry the most recently used, and hands back a copy of the value.
#[verifier::external_body]
fn cache_get(cache: &mut lru::LruCache<String, RecordBatch>, key: &str) -> (value: Option<
    RecordBatch,
>)
    requires
        kept(*old(cache)),
    ensures
        limit_of(*final(cache)) == limit_of(*old(cache)),
        entries_of(*final(cache)) == after_use(
            entries_of(*old(cache)),
            place_of(entries_of(*old(cache)), key@),
        ),
        value == if place_of(entries_of(*old(cache)), key@) >= 0 {
            Some(entries_of(*old(cache))[place_of(entries_of(*old(cache)), key@)].1)
        } else {
            None
        },
        kept(*final(cache)),
{
    cache.get(key).cloned()
}

/// Calls `LruCache::pop`, which removes the entry of a key, if there is
/// one, and returns its value.
#[verifier::external_body]
fn cache_pop(cache: &mut lru::LruCache<String, RecordBatch>, key: &str) -> (value: Option<
    RecordBatch,
>)
    requires
        kept(*old(cache)),
    ensures
        limit_of(*final(cache)) == limit_of(*old(cache)),
        entries_of(*final(cache)) == without(
            entries_of(*old(cache)),
            place_of(entries_of(*old(cache)), key@),
        ),
        value == if place_of(entries_of(*old(cache)), key@) >= 0 {
            Some(entries_of(*old(cache))[place_of(entries_of(*old(cache)), key@)].1)
        } else {
            None
        },
        kept(*final(cache)),
{
    cache.pop(key)
}

/// The key and the size of one entry of the cache.
#[derive(Debug, Clone)]
pub struct CachedBatch {
    pub key: String,
    pub memory_bytes: usize,
}

/// Walks the cache with `LruCache::iter`, which visits the entries from
/// the most to the least recently used, and hands out each entry's key and
/// size.
#[verifier::external_body]
fn cache_snapshot(cache: &lru::LruCache<String, RecordBatch>) -> (snapshot: Vec<CachedBatch>)
    ensures
        snapshot@.len() == entries_of(*cache).len(),
        forall|i: int|
            0 <= i < snapshot@.len() ==> (#[trigger] snapshot@[i]).key@ == entries_of(*cache)[i].0
                && snapshot@[i].memory_bytes == entries_of(*cache)[i].1.memory_bytes,
{
    cache.iter().map(|(k, v)| CachedBatch { key: k.clone(), memory_bytes: v.memory_bytes }).collect()
}

/// The memory that the batches of some entries take together.
pub open spec fn total_bytes(entries: Seq<(Seq<char>, RecordBatch)>) -> nat
    decreases entries.len(),
{
    if entries.len() == 0 {
        0
    } else {
        total_bytes(entries.drop_last()) + entries.last().1.memory_bytes as nat
    }
}

/// What the cache reports of itself.
#[derive(Debug, Clone, Copy, PartialEq, Eq, Structural)]
pub struct CacheStats {
    pub total_size_bytes: u64,
    pub total_keys: usize,
    pub cache_hits: u64,
    pub cache_misses: u64,
}

/// The number of batches that a cache of `max_size_gb` gigabytes holds:
/// a hundred per gigabyte, a hundred where no size is given, and never
/// more than the largest capacity.
pub open spec fn capacity_for(max_size_gb: nat) -> nat {
    if max_size_gb == 0 {
        100
    } else if max_size_gb * 100 > MAX_CAPACITY {
        MAX_CAPACITY as nat
    } else {
        max_size_gb * 100
    }
}

/// One more, as far as it can be counted.
pub open spec fn counted(n: u64) -> u64 {
    if n == u64::MAX {
        n
    } else {
        (n + 1) as u64
    }
}

/// The in-memory cache backend.
pub struct CacheBackend {
    cache: lru::LruCache<String, RecordBatch>,
    max_size_gb: usize,
    hits: u64,
    misses: u64,
}

impl CacheBackend {
    /// The entries, from the most to the least recently used.
    pub closed spec fn entries(&self) -> Seq<(Seq<char>, RecordBatch)> {
        entries_of(self.cache)
    }

    /// The number of entries that the cache holds at most.
    pub closed spec fn limit(&self) -> nat {
        limit_of(self.cache)
    }

    /// The number of loads that found their key.
    pub closed spec fn hits(&self) -> u64 {
        self.hits
    }

    /// The number of loads that did not find their key.
    pub closed spec fn misses(&self) -> u64 {
        self.misses
    }

    /// The invariant of the cache: no two entries share a key, and there
    /// are no more entries than the limit.
    pub closed spec fn wf(&self) -> bool {
        kept(self.cache)
    }

    /// What the invariant says of the entries.
    pub proof fn lemma_wf(&self)
        requires
            self.wf(),
        ensures
            keys_of(self.entries()).no_duplicates(),
            self.entries().len() <= self.limit(),
            self.limit() >= 1,
    {
    }

    /// An empty cache for `max_size_gb` gigabytes.
    pub fn new(max_size_gb: usize) -> (backend: CacheBackend)
        ensures
            backend.wf(),
            backend.entries().len() == 0,
            backend.limit() == capacity_for(max_size_gb as nat),
            backend.hits() == 0,
            backend.misses() == 0,
    {
        let capacity = if max_size_gb == 0 {
            100
        } else if max_size_gb > MAX_CAPACITY / 100 {
            MAX_CAPACITY
        } else {
            max_size_gb * 100
        };
        CacheBackend { cache: new_cache(capacity), max_size_gb, hits: 0, misses: 0 }
    }

    /// Stores a batch under a key, as the most recently used entry. A
    /// batch that the key had is replaced; otherwise, where the cache is
    /// full, the least recently used entry is evicted.
    pub fn store(&mut self, key: &str, batch: RecordBatch)
        requires
            old(self).wf(),
        ensures
            final(self).wf(),
            final(self).limit() == old(self).limit(),
            final(self).entries() == after_put(old(self).entries(), old(self).limit(), key@, batch),
            final(self).hits() == old(self).hits(),
            final(self).misses() == old(self).misses(),
    {
        cache_put(&mut self.cache, String::from_str(key), batch);
    }

    /// Loads the batch of a key and counts the hit or the miss. A hit
    /// makes the entry the most recently used.
    pub fn load(&mut self, key: &str) -> (batch: Option<RecordBatch>)
        requires
            old(self).wf(),
        ensures
            final(self).wf(),
            final(self).limit() == old(self).limit(),
            ({
                let i = place_of(old(self).entries(), key@);
                if i >= 0 {
                    &&& batch == Some(old(self).entries()[i].1)
                    &&& final(self).entries() == after_use(old(self).entries(), i)
                    &&& final(self).hits() == counted(old(self).hits())
                    &&& final(self).misses() == old(self).misses()
                } else {
                    &&& batch is None
                    &&& final(self).entries() == old(self).entries()
                    &&& final(self).hits() == old(self).hits()
                    &&& final(self).misses() == counted(old(self).misses())
                }
            }),
    {
        let batch = cache_get(&mut self.cache, key);
        match &batch {
            Some(_) => {
                if self.hits < u64::MAX {
                    self.hits = self.hits + 1;
                }
            },
            None => {
                if self.misses < u64::MAX {
                    self.misses = self.misses + 1;
                }
            },
        }
        batch
    }

    /// The cache answers no SQL.
    pub fn query(&self, sql: &str) -> (result: Result<RecordBatch, String>)
        ensures
            result matches Err(message) && message@
                == "Cache backend doesn't support SQL queries."@,
    {
        Err(String::from_str("Cache backend doesn't support SQL queries."))
    }

    /// The keys in the cache, from the most to the least recently used.
    pub fn list_keys(&self) -> (keys: Vec<String>)
        ensures
            names_of(keys@) == keys_of(self.entries()),
    {
        let snapshot = cache_snapshot(&self.cache);
        let mut keys: Vec<String> = Vec::new();
        let mut i: usize = 0;
        while i < snapshot.len()
            invariant
                i <= snapshot.len(),
                snapshot@.len() == entries_of(self.cache).len(),
                forall|j: int|
                    0 <= j < snapshot@.len() ==> (#[trigger] snapshot@[j]).key@ == entries_of(
                        self.cache,
                    )[j].0,
                keys@.len() == i,
                forall|j: int| 0 <= j < i ==> keys@[j]@ == entries_of(self.cache)[j].0,
            decreases snapshot.len() - i,
        {
            keys.push(snapshot[i].key.clone());
            i += 1;
        }
        assert(names_of(keys@) =~= keys_of(self.entries()));
        keys
    }

    /// Removes the batch of a key, if the cache holds one.
    pub fn delete(&mut self, key: &str)
        requires
            old(self).wf(),
        ensures
            final(self).wf(),
            final(self).limit() == old(self).limit(),
            final(self).entries() == without(
                old(self).entries(),
                place_of(old(self).entries(), key@),
            ),
            final(self).hits() == old(self).hits(),
            final(self).misses() == old(self).misses(),
    {
        let _ = cache_pop(&mut self.cache, key);
    }

    /// The memory that the cached batches take, as far as it can be
    /// counted, the number of keys, and the hits and misses so far.
    pub fn stats(&self) -> (stats: CacheStats)
        ensures
            stats.total_size_bytes == if total_bytes(self.entries()) > u64::MAX {
                u64::MAX as nat
            } else {
                total_bytes(self.entries())
            },
            stats.total_keys == self.entries().len(),
            stats.cache_hits == self.hits(),
            stats.cache_misses == self.misses(),
    {
        let snapshot = cache_snapshot(&self.cache);
        let ghost entries = entries_of(self.cache);
        let mut total: u64 = 0;
        let mut i: usize = 0;
        assert(entries.subrange(0, 0) =~= Seq::empty());
        while i < snapshot.len()
            invariant
                i <= snapshot.len(),
                entries == entries_of(self.cache),
                snapshot@.len() == entries.len(),
                forall|j: int|
                    0 <= j < snapshot@.len() ==> (#[trigger] snapshot@[j]).memory_bytes
                        == entries[j].1.memory_bytes,
                total == if total_bytes(entries.subrange(0, i as int)) > u64::MAX {
                    u64::MAX as nat
                } else {
                    total_bytes(entries.subrange(0, i as int))
                },
            decreases snapshot.len() - i,
        {
            let ghost prefix = entries.subrange(0, i as int + 1);
            assert(prefix.drop_last() =~= entries.subrange(0, i as int));
            assert(prefix.last() == entries[i as int]);
            let size = snapshot[i].memory_bytes as u64;
            total = if size > u64::MAX - total {
                u64::MAX
            } else {
                total + size
            };
            i += 1;
        }
        assert(entries.subrange(0, entries.len() as int) =~= entries);
        CacheStats {
            total_size_bytes: total,
            total_keys: snapshot.len(),
            cache_hits: self.hits,
            cache_misses: self.misses,
        }
    }
}

} // verus!
