use docreader::progress::{clamp_page, BookProgress, ReadingProgress};
use docreader::timestamp::Timestamp;

fn make_book_progress(current_page: u32, total_pages: u32) -> BookProgress {
    BookProgress {
        file_name: "test.pdf".to_string(),
        file_path: "/books/test.pdf".to_string(),
        file_hash: "abc123".to_string(),
        total_pages,
        current_page,
        last_read: Timestamp::now(),
        scroll_offset: (0, 0),
        zoom: None,
    }
}

fn at(seconds: i64) -> Timestamp {
    Timestamp { seconds, nanos: 0 }
}

// Progress is reported in thousandths of a percent.

#[test]
fn test_progress_percent_normal() {
    let bp = make_book_progress(50, 100);
    assert_eq!(bp.progress_percent(), 50_000);
}

#[test]
fn test_progress_percent_zero_pages() {
    let bp = make_book_progress(0, 0);
    assert_eq!(bp.progress_percent(), 0);
}

#[test]
fn test_progress_percent_first_page() {
    let bp = make_book_progress(1, 200);
    assert_eq!(bp.progress_percent(), 500);
}

#[test]
fn test_progress_percent_last_page() {
    let bp = make_book_progress(100, 100);
    assert_eq!(bp.progress_percent(), 100_000);
}

#[test]
fn test_new_reading_progress() {
    let rp = ReadingProgress::new("device1".to_string());
    assert_eq!(rp.version, 1);
    assert_eq!(rp.device_id, "device1");
    assert!(rp.is_empty());
}

#[test]
fn test_add_book() {
    let mut rp = ReadingProgress::new("device1".to_string());
    rp.add_book(
        "hash1".to_string(),
        "Book.pdf".to_string(),
        "/books/Book.pdf".to_string(),
        100,
    );

    assert_eq!(rp.len(), 1);
    let bp = rp.get("hash1").unwrap();
    assert_eq!(bp.file_name, "Book.pdf");
    assert_eq!(bp.current_page, 1);
    assert_eq!(bp.total_pages, 100);
}

#[test]
fn test_update_book_progress() {
    let mut rp = ReadingProgress::new("device1".to_string());
    rp.add_book(
        "hash1".to_string(),
        "Book.pdf".to_string(),
        "/books/Book.pdf".to_string(),
        100,
    );

    let before = rp.get("hash1").unwrap().last_read;

    rp.update_book_progress("hash1", 42);

    let bp = rp.get("hash1").unwrap();
    assert_eq!(bp.current_page, 42);
    assert!(!before.is_later_than(&bp.last_read));
}

#[test]
fn test_update_nonexistent_book() {
    let mut rp = ReadingProgress::new("device1".to_string());
    // Should not panic
    rp.update_book_progress("nonexistent", 10);
    assert!(rp.is_empty());
}

#[test]
fn test_add_multiple_books() {
    let mut rp = ReadingProgress::new("device1".to_string());
    rp.add_book(
        "h1".to_string(),
        "A.pdf".to_string(),
        "/a.pdf".to_string(),
        50,
    );
    rp.add_book(
        "h2".to_string(),
        "B.epub".to_string(),
        "/b.epub".to_string(),
        200,
    );

    assert_eq!(rp.len(), 2);
    assert!(rp.contains_key("h1"));
    assert!(rp.contains_key("h2"));
}

#[test]
fn new_at_is_fresh() {
    let rp = ReadingProgress::new_at("d".to_string(), at(5));
    assert_eq!(rp.version, 1);
    assert_eq!(rp.last_modified, at(5));
    assert_eq!(rp.len(), 0);
    assert!(rp.get("x").is_none());
    assert!(!rp.contains_key("x"));
}

#[test]
fn add_book_at_starts_at_the_first_page() {
    let mut rp = ReadingProgress::new_at("d".to_string(), at(5));
    rp.add_book_at("h".to_string(), "n".to_string(), "p".to_string(), 9, at(10));
    assert_eq!(rp.last_modified, at(10));
    let bp = rp.get("h").unwrap();
    assert_eq!(bp.file_hash, "h");
    assert_eq!(bp.file_path, "p");
    assert_eq!(bp.current_page, 1);
    assert_eq!(bp.last_read, at(10));
    assert_eq!(bp.scroll_offset, (0, 0));
    assert_eq!(bp.zoom, None);
}

#[test]
fn add_book_again_replaces_and_never_reads_earlier() {
    let mut rp = ReadingProgress::new_at("d".to_string(), at(5));
    rp.add_book_at("h".to_string(), "n".to_string(), "p".to_string(), 9, at(10));
    rp.update_book_progress_at("h", 4, at(20));
    rp.add_book_at("h".to_string(), "n2".to_string(), "p2".to_string(), 11, at(15));
    assert_eq!(rp.len(), 1);
    let bp = rp.get("h").unwrap();
    assert_eq!(bp.file_name, "n2");
    assert_eq!(bp.total_pages, 11);
    assert_eq!(bp.current_page, 1);
    assert_eq!(bp.last_read, at(20));
    assert_eq!(rp.last_modified, at(15));
}

#[test]
fn update_holds_the_page_to_the_pages_that_exist() {
    let mut rp = ReadingProgress::new_at("d".to_string(), at(0));
    rp.add_book_at("h".to_string(), "n".to_string(), "p".to_string(), 10, at(1));
    rp.update_book_progress_at("h", 11, at(2));
    assert_eq!(rp.get("h").unwrap().current_page, 10);
    rp.update_book_progress_at("h", 0, at(3));
    assert_eq!(rp.get("h").unwrap().current_page, 1);
    rp.update_book_progress_at("h", 10, at(4));
    assert_eq!(rp.get("h").unwrap().current_page, 10);
    assert_eq!(rp.get("h").unwrap().last_read, at(4));
    assert_eq!(rp.last_modified, at(4));
}

#[test]
fn update_of_a_book_of_unknown_length_stays_on_the_first_page() {
    let mut rp = ReadingProgress::new_at("d".to_string(), at(0));
    rp.add_book_at("h".to_string(), "n".to_string(), "p".to_string(), 0, at(1));
    rp.update_book_progress_at("h", 5, at(2));
    assert_eq!(rp.get("h").unwrap().current_page, 1);
}

#[test]
fn last_read_never_decreases_under_update() {
    let mut rp = ReadingProgress::new_at("d".to_string(), at(0));
    rp.add_book_at("h".to_string(), "n".to_string(), "p".to_string(), 10, at(100));
    rp.update_book_progress_at("h", 3, at(50));
    let bp = rp.get("h").unwrap();
    assert_eq!(bp.current_page, 3);
    assert_eq!(bp.last_read, at(100));
    assert_eq!(rp.last_modified, at(50));
}

#[test]
fn update_of_an_untracked_book_only_touches_the_time() {
    let mut rp = ReadingProgress::new_at("d".to_string(), at(0));
    rp.update_book_progress_at("missing", 3, at(9));
    assert_eq!(rp.len(), 0);
    assert_eq!(rp.last_modified, at(9));
    rp.update_zoom_at("missing", 1500, at(10));
    rp.update_scroll_offset_at("missing", (1, 2), at(11));
    assert_eq!(rp.len(), 0);
    assert_eq!(rp.last_modified, at(11));
}

#[test]
fn zoom_and_scroll_are_recorded() {
    let mut rp = ReadingProgress::new_at("d".to_string(), at(0));
    rp.add_book_at("h".to_string(), "n".to_string(), "p".to_string(), 10, at(1));
    rp.update_zoom_at("h", 1500, at(2));
    rp.update_scroll_offset_at("h", (12_500, -3), at(3));
    let bp = rp.get("h").unwrap();
    assert_eq!(bp.zoom, Some(1500));
    assert_eq!(bp.scroll_offset, (12_500, -3));
    assert_eq!(bp.last_read, at(1));
    assert_eq!(bp.current_page, 1);
    assert_eq!(rp.last_modified, at(3));
    rp.update_zoom("h", 900);
    rp.update_scroll_offset("h", (0, 7));
    assert_eq!(rp.get("h").unwrap().zoom, Some(900));
    assert_eq!(rp.get("h").unwrap().scroll_offset, (0, 7));
}

#[test]
fn insert_replaces_by_identity() {
    let mut rp = ReadingProgress::new_at("d".to_string(), at(0));
    rp.insert("k".to_string(), make_book_progress(2, 9));
    rp.insert("k".to_string(), make_book_progress(3, 9));
    rp.insert("l".to_string(), make_book_progress(4, 9));
    assert_eq!(rp.len(), 2);
    assert_eq!(rp.get("k").unwrap().current_page, 3);
    assert_eq!(rp.get("l").unwrap().current_page, 4);
    assert_eq!(rp.last_modified, at(0));
    let (key, value) = rp.entry_at(1);
    assert_eq!(key, "l");
    assert_eq!(value.current_page, 4);
}

#[test]
fn page_count_is_recorded_when_it_is_news() {
    let mut rp = ReadingProgress::new_at("d".to_string(), at(0));
    rp.add_book_at("h".to_string(), "n".to_string(), "p".to_string(), 0, at(1));
    assert!(!rp.record_total_pages_at("h", 0, at(2)));
    assert_eq!(rp.last_modified, at(1));
    assert!(rp.record_total_pages_at("h", 12, at(3)));
    assert_eq!(rp.get("h").unwrap().total_pages, 12);
    assert_eq!(rp.last_modified, at(3));
    assert!(!rp.record_total_pages_at("h", 12, at(4)));
    assert_eq!(rp.last_modified, at(3));
    assert!(!rp.record_total_pages_at("other", 12, at(5)));
    rp.update_book_progress_at("h", 12, at(6));
    assert!(rp.record_total_pages_at("h", 5, at(7)));
    assert_eq!(rp.get("h").unwrap().current_page, 5);
}

#[test]
fn duplicate_is_equal_book_by_book() {
    let mut rp = ReadingProgress::new_at("d".to_string(), at(0));
    rp.add_book_at("h".to_string(), "n".to_string(), "p".to_string(), 3, at(1));
    let copy = rp.duplicate();
    assert_eq!(copy.device_id, "d");
    assert_eq!(copy.last_modified, at(1));
    assert_eq!(copy.len(), 1);
    assert_eq!(copy.get("h").unwrap().total_pages, 3);
    let one = copy.get("h").unwrap().duplicate();
    assert_eq!(one.file_name, "n");
    assert_eq!(one.last_read, at(1));
}

#[test]
fn clamp_page_examples() {
    assert_eq!(clamp_page(0, 10), 1);
    assert_eq!(clamp_page(1, 10), 1);
    assert_eq!(clamp_page(10, 10), 10);
    assert_eq!(clamp_page(11, 10), 10);
    assert_eq!(clamp_page(5, 0), 1);
    assert_eq!(clamp_page(u32::MAX, 1), 1);
}

#[test]
fn progress_percent_does_not_overflow() {
    let bp = make_book_progress(u32::MAX, 1);
    assert_eq!(bp.progress_percent(), 4_294_967_295 * 100_000);
    let bp = make_book_progress(1, 3);
    assert_eq!(bp.progress_percent(), 33_333);
}

#[test]
fn timestamps_are_ordered_by_seconds_then_nanos() {
    let a = Timestamp { seconds: 1, nanos: 999_999_999 };
    let b = Timestamp { seconds: 2, nanos: 0 };
    let c = Timestamp { seconds: 2, nanos: 1 };
    assert!(b.is_later_than(&a));
    assert!(c.is_later_than(&b));
    assert!(!a.is_later_than(&b));
    assert!(!a.is_later_than(&a));
    assert_eq!(a.or_later(b), b);
    assert_eq!(c.or_later(b), c);
    assert_eq!(a.or_later(a), a);
    let neg = Timestamp { seconds: -5, nanos: 0 };
    assert!(a.is_later_than(&neg));
}

#[test]
fn now_is_after_the_year_2020() {
    let now = Timestamp::now();
    assert!(now.seconds > 1_577_836_800);
    assert!(now.nanos < 1_000_000_000);
    let again = Timestamp::now();
    assert!(!now.is_later_than(&again) || now.seconds - again.seconds < 5);
}
