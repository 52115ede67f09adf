//! Classification of documents by file extension.

use crate::text::{lowercase, to_lowercase};
use std::path::PathBuf;
use vstd::prelude::*;

verus! {

/// The closed set of document formats the reader knows about.
#[derive(Debug, Clone, Copy, PartialEq, Eq, Hash, Structural)]
pub enum DocumentFormat {
    Pdf,
    Epub,
    Fb2,
    Djvu,
}

#[verifier::external_type_specification]
#[verifier::external_body]
pub struct ExPathBuf(PathBuf);

/// The extension of `path` as `std::path::Path::extension` reports it, when
/// it is valid UTF-8.
pub uninterp spec fn path_extension(path: &PathBuf) -> Option<Seq<char>>;

/// Calls `Path::extension` and views the result as UTF-8 (`OsStr::to_str`).
/// Trusted: the result is what `path_extension` names.
#[verifier::external_body]
fn extension_of(path: &PathBuf) -> (r: Option<&str>)
    ensures
        match r {
            Some(e) => path_extension(path) == Some(e@),
            None => path_extension(path) is None,
        },
{
    path.extension()?.to_str()
}

/// The format that a lowercase extension selects, if any.
pub open spec fn format_of_extension(ext: Seq<char>) -> Option<DocumentFormat> {
    if ext == "pdf"@ {
        Some(DocumentFormat::Pdf)
    } else if ext == "epub"@ {
        Some(DocumentFormat::Epub)
    } else if ext == "fb2"@ {
        Some(DocumentFormat::Fb2)
    } else if ext == "djvu"@ || ext == "djv"@ {
        Some(DocumentFormat::Djvu)
    } else {
        None
    }
}

/// The name under which a format is shown.
pub open spec fn format_name(format: DocumentFormat) -> Seq<char> {
    match format {
        DocumentFormat::Pdf => "PDF"@,
        DocumentFormat::Epub => "EPUB"@,
        DocumentFormat::Fb2 => "FB2"@,
        DocumentFormat::Djvu => "DJVU"@,
    }
}

impl DocumentFormat {
    /// The name under which the format is shown.
    pub fn display_name(&self) -> (r: &'static str)
        ensures
            r@ == format_name(*self),
    {
        match self {
            DocumentFormat::Pdf => "PDF",
            DocumentFormat::Epub => "EPUB",
            DocumentFormat::Fb2 => "FB2",
            DocumentFormat::Djvu => "DJVU",
        }
    }

    /// The extensions that select a format, in lowercase: exactly those
    /// that `from_extension` accepts.
    pub fn supported_extensions() -> (r: [&'static str; 5])
        ensures
            r@[0]@ == "pdf"@,
            r@[1]@ == "epub"@,
            r@[2]@ == "fb2"@,
            r@[3]@ == "djvu"@,
            r@[4]@ == "djv"@,
            forall|i: int| 0 <= i < 5 ==> format_of_extension(#[trigger] r@[i]@) is Some,
    {
        ["pdf", "epub", "fb2", "djvu", "djv"]
    }

    /// Classifies an extension that is already lowercase.
    pub fn from_extension(ext: &str) -> (r: Option<DocumentFormat>)
        ensures
            r == format_of_extension(ext@),
    {
        if str::eq(ext, "pdf") {
            Some(DocumentFormat::Pdf)
        } else if str::eq(ext, "epub") {
            Some(DocumentFormat::Epub)
        } else if str::eq(ext, "fb2") {
            Some(DocumentFormat::Fb2)
        } else if str::eq(ext, "djvu") || str::eq(ext, "djv") {
            Some(DocumentFormat::Djvu)
        } else {
            None
        }
    }

    /// Classifies a path by its lowercased extension alone.
    pub fn from_path(path: &PathBuf) -> (r: Option<DocumentFormat>)
        ensures
            r == match path_extension(path) {
                Some(e) => format_of_extension(lowercase(e)),
                None => None,
            },
    {
        match extension_of(path) {
            Some(e) => {
                let lower = to_lowercase(e);
                DocumentFormat::from_extension(lower.as_str())
            },
            None => None,
        }
    }
}

} // verus!
