use docreader::book::{strip_backslashes, Book};
use docreader::format::DocumentFormat;
use docreader::scanner::LibraryScanner;
use std::path::PathBuf;

#[test]
fn test_new_extracts_filename() {
    let book = Book::new(
        PathBuf::from("/home/user/books/Novel.pdf"),
        "hash123".to_string(),
        100,
        DocumentFormat::Pdf,
    );
    assert_eq!(book.file_name, "Novel.pdf");
    assert_eq!(book.total_pages, 100);
    assert_eq!(book.format, DocumentFormat::Pdf);
}

#[test]
fn test_new_no_filename() {
    let book = Book::new(
        PathBuf::from("/"),
        "hash".to_string(),
        0,
        DocumentFormat::Epub,
    );
    assert_eq!(book.file_name, "Unknown");
}

#[test]
fn test_new_windows_path() {
    let book = Book::new(
        PathBuf::from(r"C:\Books\Test.fb2"),
        "hash456".to_string(),
        50,
        DocumentFormat::Fb2,
    );
    assert_eq!(book.file_name, "Test.fb2");
}

#[test]
fn new_keeps_what_it_is_given() {
    let book = Book::new(
        PathBuf::from("shelf/a.epub"),
        "id".to_string(),
        7,
        DocumentFormat::Epub,
    );
    assert_eq!(book.file_path, PathBuf::from("shelf/a.epub"));
    assert_eq!(book.file_hash, "id");
    assert_eq!(book.file_name, "a.epub");
}

#[test]
fn backslashes_are_stripped_up_to_the_last() {
    assert_eq!(strip_backslashes(r"a\b\c.pdf"), "c.pdf");
    assert_eq!(strip_backslashes("plain.pdf"), "plain.pdf");
    assert_eq!(strip_backslashes(r"ends\"), r"ends\");
    assert_eq!(strip_backslashes(""), "");
}

#[test]
fn identity_is_sha256_of_prefix_and_length() {
    // SHA-256 of "hello world" followed by the length 11 in eight bytes,
    // lowest first.
    let id = LibraryScanner::compute_identity(b"hello world", 11);
    assert_eq!(id.len(), 64);
    assert!(id.chars().all(|c| c.is_ascii_hexdigit() && !c.is_ascii_uppercase()));
    assert_eq!(id, LibraryScanner::compute_identity(b"hello world", 11));
    assert_ne!(id, LibraryScanner::compute_identity(b"hello world", 12));
    assert_ne!(id, LibraryScanner::compute_identity(b"hello worle", 11));
}

#[test]
fn identity_of_nothing_is_the_digest_of_eight_zero_bytes() {
    assert_eq!(
        LibraryScanner::compute_identity(b"", 0),
        "af5570f5a1810b7af78caf4bc70a660f0df51e42baf91d4de5b2328de0e83dfc"
    );
}

#[test]
fn identity_ignores_bytes_beyond_the_prefix() {
    let mut long = vec![7u8; 65536];
    let at_limit = LibraryScanner::compute_identity(&long, 70000);
    long.push(9);
    assert_eq!(LibraryScanner::compute_identity(&long, 70000), at_limit);
    long[65535] = 8;
    assert_ne!(LibraryScanner::compute_identity(&long, 70000), at_limit);
}

#[test]
fn recognized_keeps_documents_in_order() {
    let found = vec![
        PathBuf::from("b/book.pdf"),
        PathBuf::from("notes.txt"),
        PathBuf::from("a/BOOK.EPUB"),
        PathBuf::from("noext"),
        PathBuf::from("c.fb2"),
    ];
    assert_eq!(
        LibraryScanner::recognized(found),
        vec![
            PathBuf::from("b/book.pdf"),
            PathBuf::from("a/BOOK.EPUB"),
            PathBuf::from("c.fb2"),
        ]
    );
    assert!(LibraryScanner::recognized(Vec::new()).is_empty());
}
