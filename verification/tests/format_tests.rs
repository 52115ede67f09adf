use docreader::format::DocumentFormat;
use std::path::PathBuf;

#[test]
fn test_from_path_pdf() {
    assert_eq!(
        DocumentFormat::from_path(&PathBuf::from("book.pdf")),
        Some(DocumentFormat::Pdf)
    );
}

#[test]
fn test_from_path_epub() {
    assert_eq!(
        DocumentFormat::from_path(&PathBuf::from("book.epub")),
        Some(DocumentFormat::Epub)
    );
}

#[test]
fn test_from_path_fb2() {
    assert_eq!(
        DocumentFormat::from_path(&PathBuf::from("book.fb2")),
        Some(DocumentFormat::Fb2)
    );
}

#[test]
fn test_from_path_djvu() {
    assert_eq!(
        DocumentFormat::from_path(&PathBuf::from("book.djvu")),
        Some(DocumentFormat::Djvu)
    );
    assert_eq!(
        DocumentFormat::from_path(&PathBuf::from("book.djv")),
        Some(DocumentFormat::Djvu)
    );
}

#[test]
fn test_from_path_case_insensitive() {
    assert_eq!(
        DocumentFormat::from_path(&PathBuf::from("book.PDF")),
        Some(DocumentFormat::Pdf)
    );
    assert_eq!(
        DocumentFormat::from_path(&PathBuf::from("book.Epub")),
        Some(DocumentFormat::Epub)
    );
}

#[test]
fn test_from_path_unknown() {
    assert_eq!(DocumentFormat::from_path(&PathBuf::from("book.txt")), None);
    assert_eq!(DocumentFormat::from_path(&PathBuf::from("book.doc")), None);
    assert_eq!(DocumentFormat::from_path(&PathBuf::from("noext")), None);
}

#[test]
fn test_from_path_with_directory() {
    assert_eq!(
        DocumentFormat::from_path(&PathBuf::from("/home/user/books/novel.epub")),
        Some(DocumentFormat::Epub)
    );
}

#[test]
fn test_display_name() {
    assert_eq!(DocumentFormat::Pdf.display_name(), "PDF");
    assert_eq!(DocumentFormat::Epub.display_name(), "EPUB");
    assert_eq!(DocumentFormat::Fb2.display_name(), "FB2");
    assert_eq!(DocumentFormat::Djvu.display_name(), "DJVU");
}

#[test]
fn test_supported_extensions() {
    let exts = DocumentFormat::supported_extensions();
    assert!(exts.contains(&"pdf"));
    assert!(exts.contains(&"epub"));
    assert!(exts.contains(&"fb2"));
    assert!(exts.contains(&"djvu"));
    assert!(exts.contains(&"djv"));
}

#[test]
fn supported_extensions_are_those_that_classify() {
    for ext in DocumentFormat::supported_extensions() {
        assert!(DocumentFormat::from_extension(ext).is_some());
    }
    assert_eq!(DocumentFormat::supported_extensions().len(), 5);
}

#[test]
fn from_extension_wants_lowercase() {
    assert_eq!(DocumentFormat::from_extension("pdf"), Some(DocumentFormat::Pdf));
    assert_eq!(DocumentFormat::from_extension("PDF"), None);
    assert_eq!(DocumentFormat::from_extension(""), None);
    assert_eq!(DocumentFormat::from_extension("pdfx"), None);
}

#[test]
fn from_path_lowers_the_extension() {
    assert_eq!(
        DocumentFormat::from_path(&PathBuf::from("a/b/Book.DjVu")),
        Some(DocumentFormat::Djvu)
    );
    assert_eq!(DocumentFormat::from_path(&PathBuf::from(".pdf")), None);
    assert_eq!(DocumentFormat::from_path(&PathBuf::from("archive.tar.fb2")), Some(DocumentFormat::Fb2));
}
