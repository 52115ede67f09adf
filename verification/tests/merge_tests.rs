use docreader::merge::ProgressMerger;
use docreader::progress::{BookProgress, ReadingProgress};
use docreader::timestamp::Timestamp;

fn hours_before(now: Timestamp, hours: i64) -> Timestamp {
    Timestamp { seconds: now.seconds - hours * 3600, nanos: now.nanos }
}

fn book(name: &str, hash: &str, total_pages: u32, current_page: u32, last_read: Timestamp) -> BookProgress {
    BookProgress {
        file_name: name.to_string(),
        file_path: name.to_string(),
        file_hash: hash.to_string(),
        total_pages,
        current_page,
        last_read,
        scroll_offset: (0, 0),
        zoom: None,
    }
}

#[test]
fn test_merge_takes_newer() {
    let now = Timestamp::now();
    let earlier = hours_before(now, 1);

    let mut local = ReadingProgress::new("device1".to_string());
    local.insert("book1".to_string(), book("Book.pdf", "book1", 100, 50, earlier));

    let mut remote = ReadingProgress::new("device2".to_string());
    remote.insert("book1".to_string(), book("Book.pdf", "book1", 100, 75, now));

    let merged = ProgressMerger::merge(&local, &remote);
    assert_eq!(merged.get("book1").unwrap().current_page, 75);
}

#[test]
fn test_merge_adds_new_books() {
    let local = ReadingProgress::new("device1".to_string());
    let mut remote = ReadingProgress::new("device2".to_string());

    remote.insert(
        "book2".to_string(),
        book("NewBook.pdf", "book2", 200, 10, Timestamp::now()),
    );

    let merged = ProgressMerger::merge(&local, &remote);
    assert!(merged.contains_key("book2"));
}

#[test]
fn test_merge_keeps_local_when_newer() {
    let now = Timestamp::now();
    let earlier = hours_before(now, 1);

    let mut local = ReadingProgress::new("device1".to_string());
    local.insert("book1".to_string(), book("Book.pdf", "book1", 100, 80, now));

    let mut remote = ReadingProgress::new("device2".to_string());
    remote.insert("book1".to_string(), book("Book.pdf", "book1", 100, 30, earlier));

    let merged = ProgressMerger::merge(&local, &remote);
    assert_eq!(merged.get("book1").unwrap().current_page, 80);
}

#[test]
fn test_merge_preserves_local_only_books() {
    let mut local = ReadingProgress::new("device1".to_string());
    local.insert(
        "local_book".to_string(),
        book("Local.pdf", "local_book", 50, 25, Timestamp::now()),
    );

    let remote = ReadingProgress::new("device2".to_string());

    let merged = ProgressMerger::merge(&local, &remote);
    assert!(merged.contains_key("local_book"));
    assert_eq!(merged.get("local_book").unwrap().current_page, 25);
}

#[test]
fn test_merge_both_empty() {
    let local = ReadingProgress::new("device1".to_string());
    let remote = ReadingProgress::new("device2".to_string());

    let merged = ProgressMerger::merge(&local, &remote);
    assert!(merged.is_empty());
    assert_eq!(merged.device_id, "device1");
}

#[test]
fn test_merge_multiple_books() {
    let now = Timestamp::now();
    let earlier = hours_before(now, 1);

    let mut local = ReadingProgress::new("device1".to_string());
    local.insert("book1".to_string(), book("A.pdf", "book1", 100, 10, earlier));
    local.insert("book2".to_string(), book("B.pdf", "book2", 200, 100, now));

    let mut remote = ReadingProgress::new("device2".to_string());
    remote.insert("book1".to_string(), book("A.pdf", "book1", 100, 50, now));
    remote.insert("book3".to_string(), book("C.pdf", "book3", 300, 5, now));

    let merged = ProgressMerger::merge(&local, &remote);
    assert_eq!(merged.len(), 3);
    // book1: remote is newer
    assert_eq!(merged.get("book1").unwrap().current_page, 50);
    // book2: local only, preserved
    assert_eq!(merged.get("book2").unwrap().current_page, 100);
    // book3: remote only, added
    assert_eq!(merged.get("book3").unwrap().current_page, 5);
}

fn at(seconds: i64) -> Timestamp {
    Timestamp { seconds, nanos: 0 }
}

fn same_books(a: &ReadingProgress, b: &ReadingProgress) -> bool {
    if a.len() != b.len() {
        return false;
    }
    for i in 0..a.len() {
        let (key, x) = a.entry_at(i);
        match b.get(key) {
            Some(y) => {
                if x.file_name != y.file_name
                    || x.file_path != y.file_path
                    || x.file_hash != y.file_hash
                    || x.total_pages != y.total_pages
                    || x.current_page != y.current_page
                    || x.last_read != y.last_read
                    || x.scroll_offset != y.scroll_offset
                    || x.zoom != y.zoom
                {
                    return false;
                }
            }
            None => return false,
        }
    }
    true
}

#[test]
fn two_devices_merge_to_the_later_page_in_either_direction() {
    let mut a = ReadingProgress::new_at("A".to_string(), at(100));
    a.insert("b".to_string(), book("B.pdf", "b", 50, 10, at(100)));
    let mut b = ReadingProgress::new_at("B".to_string(), at(200));
    b.insert("b".to_string(), book("B.pdf", "b", 50, 20, at(200)));

    let ab = ProgressMerger::merge_at(&a, &b, at(300));
    let ba = ProgressMerger::merge_at(&b, &a, at(300));
    assert_eq!(ab.get("b").unwrap().current_page, 20);
    assert_eq!(ba.get("b").unwrap().current_page, 20);
    assert_eq!(ab.device_id, "A");
    assert_eq!(ba.device_id, "B");
    assert_eq!(ab.last_modified, at(300));
}

#[test]
fn merge_with_itself_changes_only_the_time() {
    let mut s = ReadingProgress::new_at("A".to_string(), at(1));
    s.insert("x".to_string(), book("X.pdf", "x", 5, 2, at(10)));
    s.insert("y".to_string(), book("Y.pdf", "y", 6, 3, at(20)));
    let merged = ProgressMerger::merge_at(&s, &s, at(99));
    assert!(same_books(&merged, &s));
    assert_eq!(merged.device_id, s.device_id);
    assert_eq!(merged.version, s.version);
    assert_eq!(merged.last_modified, at(99));
}

#[test]
fn a_tie_favours_the_local_side() {
    let mut local = ReadingProgress::new_at("A".to_string(), at(1));
    local.insert("x".to_string(), book("L.pdf", "x", 5, 2, at(10)));
    let mut remote = ReadingProgress::new_at("B".to_string(), at(1));
    remote.insert("x".to_string(), book("R.pdf", "x", 5, 4, at(10)));
    let merged = ProgressMerger::merge_at(&local, &remote, at(2));
    assert_eq!(merged.get("x").unwrap().current_page, 2);
    assert_eq!(merged.get("x").unwrap().file_name, "L.pdf");
}

#[test]
fn nanoseconds_decide_between_equal_seconds() {
    let mut local = ReadingProgress::new_at("A".to_string(), at(1));
    local.insert(
        "x".to_string(),
        book("L.pdf", "x", 5, 2, Timestamp { seconds: 10, nanos: 5 }),
    );
    let mut remote = ReadingProgress::new_at("B".to_string(), at(1));
    remote.insert(
        "x".to_string(),
        book("R.pdf", "x", 5, 4, Timestamp { seconds: 10, nanos: 6 }),
    );
    let merged = ProgressMerger::merge_at(&local, &remote, at(2));
    assert_eq!(merged.get("x").unwrap().current_page, 4);
}

#[test]
fn the_merge_takes_whole_records() {
    let mut local = ReadingProgress::new_at("A".to_string(), at(1));
    let mut mine = book("L.pdf", "x", 5, 2, at(10));
    mine.zoom = Some(1500);
    local.insert("x".to_string(), mine);
    let mut remote = ReadingProgress::new_at("B".to_string(), at(1));
    remote.insert("x".to_string(), book("R.pdf", "x", 5, 4, at(11)));
    let merged = ProgressMerger::merge_at(&local, &remote, at(2));
    assert_eq!(merged.get("x").unwrap().zoom, None);
    assert_eq!(merged.get("x").unwrap().last_read, at(11));
}

#[test]
fn merged_last_read_is_the_later_of_both() {
    for (l, r) in [(5, 9), (9, 5), (7, 7)] {
        let mut local = ReadingProgress::new_at("A".to_string(), at(1));
        local.insert("x".to_string(), book("L.pdf", "x", 5, 2, at(l)));
        let mut remote = ReadingProgress::new_at("B".to_string(), at(1));
        remote.insert("x".to_string(), book("R.pdf", "x", 5, 4, at(r)));
        let merged = ProgressMerger::merge_at(&local, &remote, at(2));
        assert_eq!(merged.get("x").unwrap().last_read, at(l.max(r)));
    }
}
