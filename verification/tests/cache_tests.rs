use docreader::cache::PageCache;
use docreader::constants::PAGE_CACHE_CAPACITY;

#[test]
fn a_new_cache_is_empty() {
    let mut cache = PageCache::new(3);
    assert_eq!(cache.get("book", 1, 96), None);
}

#[test]
fn what_is_put_in_is_found() {
    let mut cache = PageCache::new(3);
    assert_eq!(cache.insert("book", 1, 96, 10), None);
    assert_eq!(cache.insert("book", 2, 96, 20), None);
    assert_eq!(cache.get("book", 1, 96), Some(10));
    assert_eq!(cache.get("book", 2, 96), Some(20));
    assert_eq!(cache.get("book", 3, 96), None);
    assert_eq!(cache.get("book", 1, 97), None);
    assert_eq!(cache.get("other", 1, 96), None);
    assert_eq!(cache.get("boo", 1, 96), None);
}

#[test]
fn a_key_has_one_value() {
    let mut cache = PageCache::new(3);
    assert_eq!(cache.insert("book", 1, 96, 10), None);
    assert_eq!(cache.insert("book", 1, 96, 11), Some(10));
    assert_eq!(cache.get("book", 1, 96), Some(11));
    assert_eq!(cache.insert("a", 1, 96, 1), None);
    assert_eq!(cache.insert("b", 1, 96, 2), None);
    // The cache was not full of three keys before: nothing had to leave.
    assert_eq!(cache.get("book", 1, 96), Some(11));
}

#[test]
fn the_least_recently_used_leaves_a_full_cache() {
    let mut cache = PageCache::new(2);
    assert_eq!(cache.insert("b", 1, 96, 1), None);
    assert_eq!(cache.insert("b", 2, 96, 2), None);
    assert_eq!(cache.insert("b", 3, 96, 3), Some(1));
    assert_eq!(cache.get("b", 1, 96), None);
    assert_eq!(cache.get("b", 2, 96), Some(2));
    assert_eq!(cache.get("b", 3, 96), Some(3));
}

#[test]
fn looking_up_makes_recent() {
    let mut cache = PageCache::new(2);
    cache.insert("b", 1, 96, 1);
    cache.insert("b", 2, 96, 2);
    assert_eq!(cache.get("b", 1, 96), Some(1));
    assert_eq!(cache.insert("b", 3, 96, 3), Some(2));
    assert_eq!(cache.get("b", 2, 96), None);
    assert_eq!(cache.get("b", 1, 96), Some(1));
    assert_eq!(cache.get("b", 3, 96), Some(3));
    // A miss touches nothing.
    assert_eq!(cache.get("b", 9, 96), None);
    assert_eq!(cache.insert("b", 4, 96, 4), Some(1));
}

#[test]
fn putting_in_again_makes_recent() {
    let mut cache = PageCache::new(2);
    cache.insert("b", 1, 96, 1);
    cache.insert("b", 2, 96, 2);
    assert_eq!(cache.insert("b", 1, 96, 10), Some(1));
    assert_eq!(cache.insert("b", 3, 96, 3), Some(2));
    assert_eq!(cache.get("b", 1, 96), Some(10));
}

#[test]
fn exactly_the_most_recent_remain() {
    let capacity = PAGE_CACHE_CAPACITY;
    let mut cache = PageCache::new(capacity);
    for page in 0..50u32 {
        let left = cache.insert("book", page, 96, page as u64);
        if (page as usize) < capacity {
            assert_eq!(left, None);
        } else {
            assert_eq!(left, Some((page as usize - capacity) as u64));
        }
    }
    for page in 0..30u32 {
        assert_eq!(cache.get("book", page, 96), None);
    }
    for page in 30..50u32 {
        assert_eq!(cache.get("book", page, 96), Some(page as u64));
    }
}

#[test]
fn the_least_capacity_is_one() {
    let mut cache = PageCache::new(0);
    assert_eq!(cache.insert("b", 1, 96, 1), None);
    assert_eq!(cache.get("b", 1, 96), Some(1));
    assert_eq!(cache.insert("b", 2, 96, 2), Some(1));
    assert_eq!(cache.get("b", 1, 96), None);
    assert_eq!(cache.get("b", 2, 96), Some(2));
    let mut one = PageCache::new(1);
    assert_eq!(one.insert("b", 1, 96, 1), None);
    assert_eq!(one.insert("b", 2, 96, 2), Some(1));
}

#[test]
fn clear_drops_everything() {
    let mut cache = PageCache::new(3);
    cache.insert("a", 1, 96, 1);
    cache.insert("b", 1, 96, 2);
    cache.clear();
    assert_eq!(cache.get("a", 1, 96), None);
    assert_eq!(cache.get("b", 1, 96), None);
    assert_eq!(cache.insert("c", 1, 96, 3), None);
    assert_eq!(cache.insert("d", 1, 96, 4), None);
    assert_eq!(cache.insert("e", 1, 96, 5), None);
    assert_eq!(cache.insert("f", 1, 96, 6), Some(3));
}

#[test]
fn clear_book_drops_one_book() {
    let mut cache = PageCache::new(5);
    cache.insert("a", 1, 96, 1);
    cache.insert("b", 1, 96, 2);
    cache.insert("a", 2, 96, 3);
    cache.insert("ab", 1, 96, 4);
    cache.insert("a", 1, 192, 5);
    cache.clear_book("a");
    assert_eq!(cache.get("a", 1, 96), None);
    assert_eq!(cache.get("a", 2, 96), None);
    assert_eq!(cache.get("a", 1, 192), None);
    cache.clear_book("missing");
    // The others keep their order: "b" was used before "ab".
    cache.insert("c", 1, 96, 6);
    cache.insert("c", 2, 96, 7);
    cache.insert("c", 3, 96, 8);
    assert_eq!(cache.insert("c", 4, 96, 9), Some(2));
    assert_eq!(cache.insert("c", 5, 96, 10), Some(4));
}

#[test]
fn a_change_of_resolution_is_a_change_of_key() {
    let mut cache = PageCache::new(4);
    cache.insert("a", 5, 96, 1);
    assert_eq!(cache.get("a", 5, 144), None);
    cache.insert("a", 5, 144, 2);
    assert_eq!(cache.get("a", 5, 96), Some(1));
    assert_eq!(cache.get("a", 5, 144), Some(2));
}

#[test]
fn a_cache_may_hold_as_much_as_is_asked_for() {
    for capacity in [65536, 65537, usize::MAX] {
        let mut cache = PageCache::new(capacity);
        for page in 0..100u32 {
            assert_eq!(cache.insert("book", page, 96, page as u64), None);
        }
        for page in 0..100u32 {
            assert_eq!(cache.get("book", page, 96), Some(page as u64));
        }
    }
    let mut large = PageCache::new(65537);
    for page in 0..65537u32 {
        assert_eq!(large.insert("book", page, 96, page as u64), None);
    }
    assert_eq!(large.insert("book", 65537, 96, 0), Some(0));
    assert_eq!(large.get("book", 0, 96), None);
    assert_eq!(large.get("book", 1, 96), Some(1));
}
