//! The cache of rendered pages: a bounded map from a page of a book at a
//! resolution to the handle of its bitmap, which drops the entry that was
//! used least recently when it is full.
//!
//! The resolution in a key folds the zoom and the device's pixel ratio in,
//! so that a change of either is a change of key. A handle is a number by
//! which the owner of the bitmaps finds one again; what leaves the cache
//! is handed back, so that the owner can let go of it.

use lru::LruCache;
use std::collections::hash_map::RandomState;
use std::num::NonZeroUsize;
use vstd::prelude::*;

verus! {

#[verifier::external_type_specification]
#[verifier::external_body]
#[verifier::reject_recursive_types(K)]
#[verifier::reject_recursive_types(V)]
#[verifier::reject_recursive_types(S)]
pub struct ExLruCache<K, V, S>(LruCache<K, V, S>);

/// The cache of the `lru` crate that holds the entries.
pub type Lru = LruCache<(String, u32, u32), u64, RandomState>;

/// A key of the cache: the identity of a book, a page number and a
/// resolution.
pub type CacheKeyView = (Seq<char>, u32, u32);

/// The view of a key.
pub open spec fn key_view(key: (String, u32, u32)) -> CacheKeyView {
    (key.0@, key.1, key.2)
}

/// The entries of a cache, from the one used last to the one used least
/// recently.
pub uninterp spec fn cache_entries(cache: Lru) -> Seq<
    (CacheKeyView, u64),
>;

/// The number of entries that a cache was made to hold.
pub uninterp spec fn cache_capacity(cache: Lru) -> nat;

/// The index of the first entry with a key, or -1 when there is none.
pub open spec fn find(entries: Seq<(CacheKeyView, u64)>, key: CacheKeyView) -> int
    decreases entries.len(),
{
    if entries.len() == 0 {
        -1
    } else if entries[0].0 == key {
        0
    } else {
        let rest = find(entries.skip(1), key);
        if rest < 0 {
            -1
        } else {
            rest + 1
        }
    }
}

/// The keys of the entries, in order.
pub open spec fn keys_of(entries: Seq<(CacheKeyView, u64)>) -> Seq<CacheKeyView> {
    entries.map_values(|e: (CacheKeyView, u64)| e.0)
}

/// Whether no key occurs twice.
pub open spec fn distinct_keys(entries: Seq<(CacheKeyView, u64)>) -> bool {
    forall|i: int, j: int|
        0 <= i < j < entries.len() ==> (#[trigger] entries[i]).0 != (#[trigger] entries[j]).0
}

/// The value found for a key.
pub open spec fn looked_up(entries: Seq<(CacheKeyView, u64)>, key: CacheKeyView) -> Option<u64> {
    let i = find(entries, key);
    if i >= 0 {
        Some(entries[i].1)
    } else {
        None
    }
}

/// The entries after a key was looked up: an entry that is found becomes
/// the one used last.
pub open spec fn touched(entries: Seq<(CacheKeyView, u64)>, key: CacheKeyView) -> Seq<
    (CacheKeyView, u64),
> {
    let i = find(entries, key);
    if i >= 0 {
        seq![entries[i]] + entries.remove(i)
    } else {
        entries
    }
}

/// The entries after a key was given a value: the entry becomes the one
/// used last; it takes the place of the entry with the same key, else, in
/// a full cache, of the entry used least recently.
pub open spec fn inserted(
    entries: Seq<(CacheKeyView, u64)>,
    capacity: nat,
    key: CacheKeyView,
    value: u64,
) -> Seq<(CacheKeyView, u64)> {
    let i = find(entries, key);
    if i >= 0 {
        seq![(key, value)] + entries.remove(i)
    } else if entries.len() == capacity {
        seq![(key, value)] + entries.drop_last()
    } else {
        seq![(key, value)] + entries
    }
}

/// The entry that leaves when a key is given a value.
pub open spec fn displaced(
    entries: Seq<(CacheKeyView, u64)>,
    capacity: nat,
    key: CacheKeyView,
) -> Option<(CacheKeyView, u64)> {
    let i = find(entries, key);
    if i >= 0 {
        Some(entries[i])
    } else if entries.len() == capacity {
        Some(entries.last())
    } else {
        None
    }
}

/// The entries without the one of a key.
pub open spec fn removed(entries: Seq<(CacheKeyView, u64)>, key: CacheKeyView) -> Seq<
    (CacheKeyView, u64),
> {
    let i = find(entries, key);
    if i >= 0 {
        entries.remove(i)
    } else {
        entries
    }
}

/// The largest capacity for which the table of a cache is allocated at
/// once; a cache that holds more is made small and grows as it fills.
pub const MAX_CACHE_CAPACITY: usize = 65536;

/// Calls `LruCache::with_hasher` with a hasher of std. Trusted: the cache
/// is empty and holds as many entries as asked for.
#[verifier::external_body]
fn lru_new(capacity: usize) -> (r: Lru)
    requires
        0 < capacity <= MAX_CACHE_CAPACITY,
    ensures
        cache_entries(r) == Seq::<(CacheKeyView, u64)>::empty(),
        cache_capacity(r) == capacity,
{
    LruCache::with_hasher(NonZeroUsize::new(capacity).unwrap(), RandomState::new())
}

/// Calls `LruCache::resize`, which allocates nothing. Trusted: from then on
/// the cache holds as many entries as asked for, and it keeps its entries
/// but those used least recently for which it has no room.
#[verifier::external_body]
fn lru_resize(cache: &mut Lru, capacity: usize)
    requires
        capacity > 0,
    ensures
        cache_capacity(*final(cache)) == capacity,
        cache_entries(*final(cache)) == if cache_entries(*old(cache)).len() > capacity {
            cache_entries(*old(cache)).take(capacity as int)
        } else {
            cache_entries(*old(cache))
        },
{
    cache.resize(NonZeroUsize::new(capacity).unwrap())
}

/// Calls `LruCache::get`. Trusted: it finds the entry whose key is equal,
/// and makes it the one used last.
#[verifier::external_body]
fn lru_get(cache: &mut Lru, key: &(String, u32, u32)) -> (r:
    Option<u64>)
    ensures
        r == looked_up(cache_entries(*old(cache)), key_view(*key)),
        cache_entries(*final(cache)) == touched(cache_entries(*old(cache)), key_view(*key)),
        cache_capacity(*final(cache)) == cache_capacity(*old(cache)),
{
    cache.get(key).copied()
}

/// Calls `LruCache::push`. Trusted: the entry becomes the one used last,
/// in place of the one with an equal key, else, at capacity, of the one
/// used least recently; the value that leaves is handed back.
#[verifier::external_body]
fn lru_push(cache: &mut Lru, key: (String, u32, u32), value: u64) -> (r:
    Option<u64>)
    ensures
        r == match displaced(
            cache_entries(*old(cache)),
            cache_capacity(*old(cache)),
            key_view(key),
        ) {
            Some(entry) => Some(entry.1),
            None => None,
        },
        cache_entries(*final(cache)) == inserted(
            cache_entries(*old(cache)),
            cache_capacity(*old(cache)),
            key_view(key),
            value,
        ),
        cache_capacity(*final(cache)) == cache_capacity(*old(cache)),
{
    cache.push(key, value).map(|entry| entry.1)
}

/// Calls `LruCache::pop`. Trusted: it removes the entry whose key is
/// equal and hands its value back.
#[verifier::external_body]
fn lru_pop(cache: &mut Lru, key: &(String, u32, u32)) -> (r:
    Option<u64>)
    ensures
        r == looked_up(cache_entries(*old(cache)), key_view(*key)),
        cache_entries(*final(cache)) == removed(cache_entries(*old(cache)), key_view(*key)),
        cache_capacity(*final(cache)) == cache_capacity(*old(cache)),
{
    cache.pop(key)
}

/// Calls `LruCache::clear`. Trusted: no entry is left.
#[verifier::external_body]
fn lru_clear(cache: &mut Lru)
    ensures
        cache_entries(*final(cache)) == Seq::<(CacheKeyView, u64)>::empty(),
        cache_capacity(*final(cache)) == cache_capacity(*old(cache)),
{
    cache.clear()
}

/// Calls `LruCache::iter` and copies the keys out. Trusted: they come in
/// the order of the entries.
#[verifier::external_body]
fn lru_keys(cache: &Lru) -> (r: Vec<(String, u32, u32)>)
    ensures
        r@.map_values(|k: (String, u32, u32)| key_view(k)) == keys_of(cache_entries(*cache)),
{
    cache.iter().map(|entry| entry.0.clone()).collect()
}

/// The entries without those of one book.
pub open spec fn without_book(entries: Seq<(CacheKeyView, u64)>, book: Seq<char>) -> Seq<
    (CacheKeyView, u64),
> {
    entries.filter(|e: (CacheKeyView, u64)| e.0.0 != book)
}

/// The first entry with a key is an entry with that key, and none stands
/// before it; -1 says that no entry has the key.
pub proof fn lemma_find(entries: Seq<(CacheKeyView, u64)>, key: CacheKeyView)
    ensures
        -1 <= find(entries, key) < entries.len(),
        find(entries, key) >= 0 ==> entries[find(entries, key)].0 == key,
        forall|j: int|
            0 <= j < entries.len() && (find(entries, key) < 0 || j < find(entries, key))
                ==> (#[trigger] entries[j]).0 != key,
    decreases entries.len(),
{
    if entries.len() > 0 && entries[0].0 != key {
        let rest = entries.skip(1);
        lemma_find(rest, key);
        assert forall|j: int|
            0 <= j < entries.len() && (find(entries, key) < 0 || j < find(entries, key))
                implies (#[trigger] entries[j]).0 != key by {
            if j > 0 {
                assert(entries[j] == rest[j - 1]);
            }
        }
    }
}

/// Among distinct keys, the entry with a key is the first with it.
pub proof fn lemma_find_distinct(entries: Seq<(CacheKeyView, u64)>, i: int)
    requires
        distinct_keys(entries),
        0 <= i < entries.len(),
    ensures
        find(entries, entries[i].0) == i,
{
    lemma_find(entries, entries[i].0);
    let f = find(entries, entries[i].0);
    if f != i {
        if f < 0 || i < f {
            assert(entries[i].0 != entries[i].0);
        } else {
            assert(entries[f].0 != entries[i].0);
        }
    }
}

/// Looking a key up keeps the keys distinct and the number of entries.
pub proof fn lemma_touched(entries: Seq<(CacheKeyView, u64)>, key: CacheKeyView)
    requires
        distinct_keys(entries),
    ensures
        distinct_keys(touched(entries, key)),
        touched(entries, key).len() == entries.len(),
{
    lemma_find(entries, key);
    let i = find(entries, key);
    if i >= 0 {
        let after = touched(entries, key);
        assert forall|a: int, b: int| 0 <= a < b < after.len() implies (#[trigger] after[a]).0 != (
        #[trigger] after[b]).0 by {
            let rest = entries.remove(i);
            let ob = if b - 1 < i {
                b - 1
            } else {
                b
            };
            assert(after[b] == entries[ob]);
            if a == 0 {
                assert(after[a] == entries[i]);
                if ob < i {
                    assert(entries[ob].0 != entries[i].0);
                } else {
                    assert(entries[i].0 != entries[ob].0);
                }
            } else {
                let oa = if a - 1 < i {
                    a - 1
                } else {
                    a
                };
                assert(after[a] == entries[oa]);
                assert(entries[oa].0 != entries[ob].0);
            }
        }
    }
}

/// Giving a key a value keeps the keys distinct and the cache within its
/// capacity.
pub proof fn lemma_inserted(
    entries: Seq<(CacheKeyView, u64)>,
    capacity: nat,
    key: CacheKeyView,
    value: u64,
)
    requires
        distinct_keys(entries),
        entries.len() <= capacity,
        capacity >= 1,
    ensures
        distinct_keys(inserted(entries, capacity, key, value)),
        inserted(entries, capacity, key, value).len() <= capacity,
        inserted(entries, capacity, key, value).len() >= 1,
        inserted(entries, capacity, key, value)[0] == (key, value),
{
    lemma_find(entries, key);
    let i = find(entries, key);
    let after = inserted(entries, capacity, key, value);
    assert forall|a: int, b: int| 0 <= a < b < after.len() implies (#[trigger] after[a]).0 != (
    #[trigger] after[b]).0 by {
        if i >= 0 {
            let ob = if b - 1 < i {
                b - 1
            } else {
                b
            };
            assert(after[b] == entries[ob]);
            if a == 0 {
                if ob < i {
                    assert(entries[ob].0 != entries[i].0);
                } else {
                    assert(entries[i].0 != entries[ob].0);
                }
            } else {
                let oa = if a - 1 < i {
                    a - 1
                } else {
                    a
                };
                assert(after[a] == entries[oa]);
                assert(entries[oa].0 != entries[ob].0);
            }
        } else {
            assert(after[b] == entries[b - 1]);
            if a > 0 {
                assert(after[a] == entries[a - 1]);
                assert(entries[a - 1].0 != entries[b - 1].0);
            }
        }
    }
}

/// Removing a key keeps the keys distinct and takes the key away.
pub proof fn lemma_removed(entries: Seq<(CacheKeyView, u64)>, key: CacheKeyView)
    requires
        distinct_keys(entries),
    ensures
        distinct_keys(removed(entries, key)),
        removed(entries, key).len() <= entries.len(),
        find(removed(entries, key), key) < 0,
{
    lemma_find(entries, key);
    let i = find(entries, key);
    let after = removed(entries, key);
    if i >= 0 {
        assert forall|a: int, b: int| 0 <= a < b < after.len() implies (#[trigger] after[a]).0 != (
        #[trigger] after[b]).0 by {
            let oa = if a < i {
                a
            } else {
                a + 1
            };
            let ob = if b < i {
                b
            } else {
                b + 1
            };
            assert(after[a] == entries[oa]);
            assert(after[b] == entries[ob]);
            assert(entries[oa].0 != entries[ob].0);
        }
        lemma_find(after, key);
        let f = find(after, key);
        if f >= 0 {
            let of = if f < i {
                f
            } else {
                f + 1
            };
            assert(after[f] == entries[of]);
            if of < i {
                assert(entries[of].0 != entries[i].0);
            } else {
                assert(entries[i].0 != entries[of].0);
            }
        }
    }
}

/// The cache of rendered pages.
pub struct PageCache {
    cache: Lru,
}

impl PageCache {
    /// The entries, from the one used last to the one used least recently.
    pub closed spec fn entries(&self) -> Seq<(CacheKeyView, u64)> {
        cache_entries(self.cache)
    }

    /// The number of entries that the cache holds at most.
    pub closed spec fn capacity(&self) -> nat {
        cache_capacity(self.cache)
    }

    /// What holds of every cache that `new` has made: a key maps to at
    /// most one bitmap, and the cache stays within its capacity, which is
    /// at least one.
    pub closed spec fn well_formed(&self) -> bool {
        &&& distinct_keys(cache_entries(self.cache))
        &&& cache_entries(self.cache).len() <= cache_capacity(self.cache)
        &&& cache_capacity(self.cache) >= 1
    }

    /// In every cache a key maps to at most one bitmap, and the cache is
    /// within its capacity, which is at least one.
    pub proof fn lemma_bounded(&self)
        requires
            self.well_formed(),
        ensures
            distinct_keys(self.entries()),
            self.entries().len() <= self.capacity(),
            self.capacity() >= 1,
    {
    }

    /// An empty cache that holds `capacity` entries, and one entry where
    /// none is asked for.
    pub fn new(capacity: usize) -> (r: PageCache)
        ensures
            r.well_formed(),
            r.entries() == Seq::<(CacheKeyView, u64)>::empty(),
            r.capacity() == if capacity == 0 {
                1
            } else {
                capacity as nat
            },
    {
        let capacity = if capacity == 0 {
            1
        } else {
            capacity
        };
        if capacity <= MAX_CACHE_CAPACITY {
            PageCache { cache: lru_new(capacity) }
        } else {
            let mut cache = lru_new(1);
            lru_resize(&mut cache, capacity);
            PageCache { cache }
        }
    }

    /// Looks a page up; one that is found becomes the one used last.
    pub fn get(&mut self, book_hash: &str, page: u32, dpi: u32) -> (r: Option<u64>)
        requires
            old(self).well_formed(),
        ensures
            final(self).well_formed(),
            r == looked_up(old(self).entries(), (book_hash@, page, dpi)),
            final(self).entries() == touched(old(self).entries(), (book_hash@, page, dpi)),
            final(self).capacity() == old(self).capacity(),
    {
        proof {
            lemma_touched(self.entries(), (book_hash@, page, dpi));
        }
        let key = (book_hash.to_owned(), page, dpi);
        lru_get(&mut self.cache, &key)
    }

    /// Puts the handle of a rendered page in; it becomes the one used last.
    /// It takes the place of the handle that the page had, else, in a full
    /// cache, of the one used least recently; the handle that left is
    /// handed back.
    pub fn insert(&mut self, book_hash: &str, page: u32, dpi: u32, texture: u64) -> (r: Option<
        u64,
    >)
        requires
            old(self).well_formed(),
        ensures
            final(self).well_formed(),
            r == match displaced(
                old(self).entries(),
                old(self).capacity(),
                (book_hash@, page, dpi),
            ) {
                Some(entry) => Some(entry.1),
                None => None,
            },
            final(self).entries() == inserted(
                old(self).entries(),
                old(self).capacity(),
                (book_hash@, page, dpi),
                texture,
            ),
            final(self).capacity() == old(self).capacity(),
    {
        proof {
            lemma_inserted(self.entries(), self.capacity(), (book_hash@, page, dpi), texture);
        }
        let key = (book_hash.to_owned(), page, dpi);
        lru_push(&mut self.cache, key, texture)
    }

    /// Drops the entries of one book.
    pub fn clear_book(&mut self, book_hash: &str)
        requires
            old(self).well_formed(),
        ensures
            final(self).well_formed(),
            final(self).entries() == without_book(old(self).entries(), book_hash@),
            final(self).capacity() == old(self).capacity(),
    {
        let ghost all = self.entries();
        let keys = lru_keys(&self.cache);
        let mut i: usize = 0;
        proof {
            reveal(Seq::filter);
            assert(all.take(0) =~= Seq::empty());
            assert(without_book(all.take(0), book_hash@) + all.skip(0) =~= all);
            assert(keys@.len() == keys@.map_values(|k: (String, u32, u32)| key_view(k)).len());
        }
        while i < keys.len()
            invariant
                i <= keys.len(),
                keys@.len() == all.len(),
                keys@.map_values(|k: (String, u32, u32)| key_view(k)) == keys_of(all),
                distinct_keys(all),
                distinct_keys(self.entries()),
                self.entries().len() <= all.len(),
                all.len() <= self.capacity(),
                self.capacity() == old(self).capacity(),
                self.capacity() >= 1,
                self.entries() == without_book(all.take(i as int), book_hash@) + all.skip(
                    i as int,
                ),
            decreases keys.len() - i,
        {
            let ghost kept = without_book(all.take(i as int), book_hash@);
            let ghost now = self.entries();
            proof {
                reveal(Seq::filter);
                assert(all.take(i + 1).drop_last() =~= all.take(i as int));
                assert(all.take(i + 1).last() == all[i as int]);
                assert(keys@.map_values(|k: (String, u32, u32)| key_view(k))[i as int]
                    == keys_of(all)[i as int]);
                assert(key_view(keys@[i as int]) == all[i as int].0);
                assert(now[kept.len() as int] == all[i as int]);
            }
            if str::eq(keys[i].0.as_str(), book_hash) {
                proof {
                    lemma_find_distinct(now, kept.len() as int);
                    lemma_removed(now, all[i as int].0);
                    assert(now.remove(kept.len() as int) =~= kept + all.skip(i + 1));
                }
                let _ = lru_pop(&mut self.cache, &keys[i]);
            } else {
                proof {
                    assert(kept.push(all[i as int]) + all.skip(i + 1) =~= now);
                }
            }
            i += 1;
        }
        proof {
            assert(all.take(all.len() as int) =~= all);
            assert(all.skip(all.len() as int) =~= Seq::empty());
            assert(without_book(all, book_hash@) + Seq::<(CacheKeyView, u64)>::empty()
                =~= without_book(all, book_hash@));
        }
    }

    /// Drops every entry: after a change of zoom or of the device's pixel
    /// ratio no bitmap is of use any more.
    pub fn clear(&mut self)
        requires
            old(self).well_formed(),
        ensures
            final(self).well_formed(),
            final(self).entries() == Seq::<(CacheKeyView, u64)>::empty(),
            final(self).capacity() == old(self).capacity(),
    {
        lru_clear(&mut self.cache)
    }
}

} // verus!
