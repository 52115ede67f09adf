//! What holds of the page cache over any run of uses: it holds exactly the
//! keys touched last, as many as it has room for.

use crate::cache::{
    distinct_keys, find, inserted, keys_of, lemma_find, lemma_inserted, lemma_touched,
    looked_up, touched, CacheKeyView,
};
use vstd::prelude::*;

verus! {

/// One use of the cache: looking a key up, or giving a key a value.
pub enum CacheUse {
    Get(CacheKeyView),
    Insert(CacheKeyView, u64),
}

/// The entries after one use.
pub open spec fn used(entries: Seq<(CacheKeyView, u64)>, capacity: nat, u: CacheUse) -> Seq<
    (CacheKeyView, u64),
> {
    match u {
        CacheUse::Get(key) => touched(entries, key),
        CacheUse::Insert(key, value) => inserted(entries, capacity, key, value),
    }
}

/// The entries of a cache that was empty, after a run of uses.
pub open spec fn after_uses(capacity: nat, uses: Seq<CacheUse>) -> Seq<(CacheKeyView, u64)>
    decreases uses.len(),
{
    if uses.len() == 0 {
        Seq::empty()
    } else {
        used(after_uses(capacity, uses.drop_last()), capacity, uses.last())
    }
}

/// The keys that a run of uses touched, in the order of the uses: every
/// key that was given a value, and every key that was looked up and found.
pub open spec fn touches(capacity: nat, uses: Seq<CacheUse>) -> Seq<CacheKeyView>
    decreases uses.len(),
{
    if uses.len() == 0 {
        Seq::empty()
    } else {
        let before = touches(capacity, uses.drop_last());
        match uses.last() {
            CacheUse::Insert(key, _) => before.push(key),
            CacheUse::Get(key) => if find(after_uses(capacity, uses.drop_last()), key) >= 0 {
                before.push(key)
            } else {
                before
            },
        }
    }
}

/// A list of keys without one key.
pub open spec fn without_key(keys: Seq<CacheKeyView>, key: CacheKeyView) -> Seq<CacheKeyView>
    decreases keys.len(),
{
    if keys.len() == 0 {
        keys
    } else if keys[0] == key {
        without_key(keys.skip(1), key)
    } else {
        seq![keys[0]] + without_key(keys.skip(1), key)
    }
}

/// The keys of a history, each once, from the one touched last to the one
/// touched longest ago.
pub open spec fn by_recency(history: Seq<CacheKeyView>) -> Seq<CacheKeyView>
    decreases history.len(),
{
    if history.len() == 0 {
        Seq::empty()
    } else {
        seq![history.last()] + without_key(by_recency(history.drop_last()), history.last())
    }
}

/// The keys touched last: as many of `by_recency` as there is room for.
pub open spec fn most_recent(history: Seq<CacheKeyView>, capacity: nat) -> Seq<CacheKeyView> {
    let all = by_recency(history);
    if all.len() <= capacity {
        all
    } else {
        all.take(capacity as int)
    }
}

/// Whether no key occurs twice in a list.
pub open spec fn distinct(keys: Seq<CacheKeyView>) -> bool {
    forall|i: int, j: int| 0 <= i < j < keys.len() ==> keys[i] != keys[j]
}

/// A list without a key that it does not hold is the list.
pub proof fn lemma_without_absent(keys: Seq<CacheKeyView>, key: CacheKeyView)
    requires
        forall|j: int| 0 <= j < keys.len() ==> keys[j] != key,
    ensures
        without_key(keys, key) == keys,
    decreases keys.len(),
{
    if keys.len() > 0 {
        let rest = keys.skip(1);
        assert forall|j: int| 0 <= j < rest.len() implies rest[j] != key by {
            assert(rest[j] == keys[j + 1]);
        }
        lemma_without_absent(rest, key);
        assert(seq![keys[0]] + rest =~= keys);
    }
}

/// A list of distinct keys without the key at `i` is the list with that
/// place removed.
pub proof fn lemma_without_present(keys: Seq<CacheKeyView>, i: int)
    requires
        distinct(keys),
        0 <= i < keys.len(),
    ensures
        without_key(keys, keys[i]) == keys.remove(i),
    decreases i,
{
    let rest = keys.skip(1);
    assert forall|a: int, b: int| 0 <= a < b < rest.len() implies rest[a] != rest[b] by {
        assert(rest[a] == keys[a + 1] && rest[b] == keys[b + 1]);
    }
    if i == 0 {
        assert forall|j: int| 0 <= j < rest.len() implies rest[j] != keys[0] by {
            assert(rest[j] == keys[j + 1]);
        }
        lemma_without_absent(rest, keys[0]);
        assert(rest =~= keys.remove(0));
    } else {
        assert(rest[i - 1] == keys[i]);
        lemma_without_present(rest, i - 1);
        assert(seq![keys[0]] + rest.remove(i - 1) =~= keys.remove(i));
    }
}

/// `by_recency` holds no key twice.
pub proof fn lemma_by_recency_distinct(history: Seq<CacheKeyView>)
    ensures
        distinct(by_recency(history)),
    decreases history.len(),
{
    if history.len() > 0 {
        let before = by_recency(history.drop_last());
        let key = history.last();
        lemma_by_recency_distinct(history.drop_last());
        if exists|i: int| 0 <= i < before.len() && before[i] == key {
            let i = choose|i: int| 0 <= i < before.len() && before[i] == key;
            lemma_without_present(before, i);
            let rest = before.remove(i);
            let all = seq![key] + rest;
            assert forall|a: int, b: int| 0 <= a < b < all.len() implies all[a] != all[b] by {
                let ob = if b - 1 < i {
                    b - 1
                } else {
                    b
                };
                assert(all[b] == before[ob]);
                if a > 0 {
                    let oa = if a - 1 < i {
                        a - 1
                    } else {
                        a
                    };
                    assert(all[a] == before[oa]);
                }
            }
        } else {
            lemma_without_absent(before, key);
            let all = seq![key] + before;
            assert forall|a: int, b: int| 0 <= a < b < all.len() implies all[a] != all[b] by {
                assert(all[b] == before[b - 1]);
                if a > 0 {
                    assert(all[a] == before[a - 1]);
                }
            }
        }
    }
}

/// The keys after a key was touched that was held at place `i`.
proof fn lemma_recent_after_hit(all: Seq<CacheKeyView>, capacity: nat, i: int)
    requires
        distinct(all),
        capacity >= 1,
        0 <= i < all.len(),
        i < capacity,
    ensures
        ({
            let held = if all.len() <= capacity {
                all
            } else {
                all.take(capacity as int)
            };
            let next = seq![all[i]] + without_key(all, all[i]);
            seq![all[i]] + held.remove(i) == if next.len() <= capacity {
                next
            } else {
                next.take(capacity as int)
            }
        }),
{
    lemma_without_present(all, i);
    let held = if all.len() <= capacity {
        all
    } else {
        all.take(capacity as int)
    };
    let next = seq![all[i]] + all.remove(i);
    if all.len() > capacity {
        assert(seq![all[i]] + held.remove(i) =~= next.take(capacity as int));
    }
}

/// The keys after a key was given a value that was not held.
proof fn lemma_recent_after_miss(all: Seq<CacheKeyView>, capacity: nat, key: CacheKeyView)
    requires
        distinct(all),
        capacity >= 1,
        forall|j: int| 0 <= j < all.len() && j < capacity ==> all[j] != key,
    ensures
        ({
            let held = if all.len() <= capacity {
                all
            } else {
                all.take(capacity as int)
            };
            let next = seq![key] + without_key(all, key);
            (if held.len() == capacity {
                seq![key] + held.drop_last()
            } else {
                seq![key] + held
            }) == if next.len() <= capacity {
                next
            } else {
                next.take(capacity as int)
            }
        }),
{
    let held = if all.len() <= capacity {
        all
    } else {
        all.take(capacity as int)
    };
    if exists|j: int| 0 <= j < all.len() && all[j] == key {
        let j = choose|j: int| 0 <= j < all.len() && all[j] == key;
        lemma_without_present(all, j);
        let next = seq![key] + all.remove(j);
        assert(j >= capacity);
        assert(seq![key] + held.drop_last() =~= next.take(capacity as int));
    } else {
        lemma_without_absent(all, key);
        let next = seq![key] + all;
        if held.len() == capacity {
            assert(seq![key] + held.drop_last() =~= next.take(capacity as int));
        }
    }
}

/// After any run of uses, a cache that was empty holds exactly the keys
/// touched last, as many as it has room for, from the one touched last to
/// the one touched longest ago; no key twice, and never more than its
/// capacity.
pub proof fn lemma_cache_holds_most_recent(capacity: nat, uses: Seq<CacheUse>)
    requires
        capacity >= 1,
    ensures
        keys_of(after_uses(capacity, uses)) == most_recent(touches(capacity, uses), capacity),
        distinct_keys(after_uses(capacity, uses)),
        after_uses(capacity, uses).len() <= capacity,
    decreases uses.len(),
{
    if uses.len() == 0 {
        assert(keys_of(after_uses(capacity, uses)) =~= Seq::empty());
    } else {
        let earlier = uses.drop_last();
        lemma_cache_holds_most_recent(capacity, earlier);
        let entries = after_uses(capacity, earlier);
        let all = by_recency(touches(capacity, earlier));
        let held = keys_of(entries);
        lemma_by_recency_distinct(touches(capacity, earlier));
        let key = match uses.last() {
            CacheUse::Get(key) => key,
            CacheUse::Insert(key, _) => key,
        };
        lemma_find(entries, key);
        let i = find(entries, key);
        let after = after_uses(capacity, uses);
        let history = touches(capacity, earlier);
        assert(history.push(key).drop_last() =~= history);
        assert(history.push(key).last() == key);
        if i >= 0 {
            assert(held[i] == entries[i].0);
            assert(all[i] == key);
            lemma_recent_after_hit(all, capacity, i);
            assert(keys_of(after) =~= seq![key] + held.remove(i));
            assert(touches(capacity, uses) == history.push(key));
            assert(by_recency(history.push(key)) == seq![key] + without_key(all, key));
        } else {
            assert forall|j: int| 0 <= j < all.len() && j < capacity implies all[j] != key by {
                assert(held[j] == entries[j].0);
            }
            match uses.last() {
                CacheUse::Get(_) => {},
                CacheUse::Insert(_, value) => {
                    lemma_recent_after_miss(all, capacity, key);
                    assert(touches(capacity, uses) == history.push(key));
                    assert(by_recency(history.push(key)) == seq![key] + without_key(all, key));
                    if entries.len() == capacity {
                        assert(keys_of(after) =~= seq![key] + held.drop_last());
                    } else {
                        assert(keys_of(after) =~= seq![key] + held);
                    }
                },
            }
        }
        match uses.last() {
            CacheUse::Get(k) => {
                lemma_touched(entries, k);
            },
            CacheUse::Insert(k, value) => {
                lemma_inserted(entries, capacity, k, value);
            },
        }
    }
}

/// A key that is not among the keys touched last is not found: what was
/// evicted is absent.
pub proof fn lemma_evicted_is_absent(capacity: nat, uses: Seq<CacheUse>, key: CacheKeyView)
    requires
        capacity >= 1,
        !most_recent(touches(capacity, uses), capacity).contains(key),
    ensures
        looked_up(after_uses(capacity, uses), key) is None,
{
    lemma_cache_holds_most_recent(capacity, uses);
    let entries = after_uses(capacity, uses);
    lemma_find(entries, key);
    let i = find(entries, key);
    if i >= 0 {
        assert(keys_of(entries)[i] == key);
    }
}

} // verus!
