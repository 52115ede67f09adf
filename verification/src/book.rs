//! The books of the library.

use crate::format::DocumentFormat;
use crate::text::{from_chars, to_chars};
use std::path::PathBuf;
use vstd::prelude::*;

verus! {

/// A book of the library: where its file is, what it is called, its
/// identity, how many pages it has (zero while that is not known) and its
/// format.
#[derive(Debug)]
pub struct Book {
    pub file_path: PathBuf,
    pub file_name: String,
    pub file_hash: String,
    pub total_pages: u32,
    pub format: DocumentFormat,
}

/// The final component of a path as `std::path::Path::file_name` reports
/// it, read as UTF-8 with replacement characters; `None` for a path that
/// has none.
pub uninterp spec fn path_file_name(path: &PathBuf) -> Option<Seq<char>>;

/// Calls `Path::file_name` and `OsStr::to_string_lossy`. Trusted: the
/// result is what `path_file_name` names.
#[verifier::external_body]
fn file_name_of(path: &PathBuf) -> (r: Option<String>)
    ensures
        match r {
            Some(name) => path_file_name(path) == Some(name@),
            None => path_file_name(path) is None,
        },
{
    path.file_name().map(|name| name.to_string_lossy().into_owned())
}

/// How many characters at the end of a name stand after its last
/// backslash.
pub open spec fn tail_length(name: Seq<char>) -> nat
    decreases name.len(),
{
    if name.len() > 0 && name.last() != '\\' {
        1 + tail_length(name.drop_last())
    } else {
        0
    }
}

/// The part of a name after its last backslash, or the whole name when
/// nothing stands there: a path written in the manner of Windows names its
/// file on every system.
pub open spec fn after_backslashes(name: Seq<char>) -> Seq<char> {
    let n = tail_length(name);
    if n == 0 {
        name
    } else {
        name.skip(name.len() - n)
    }
}

/// The name under which a book is shown.
pub open spec fn display_file_name(path: &PathBuf) -> Seq<char> {
    match path_file_name(path) {
        Some(name) => after_backslashes(name),
        None => "Unknown"@,
    }
}

/// A run of characters at the end of a name, preceded by the start or by a
/// backslash, is all that stands after the last backslash.
pub proof fn lemma_tail_length(name: Seq<char>, n: int)
    requires
        0 <= n <= name.len(),
        forall|i: int| name.len() - n <= i < name.len() ==> name[i] != '\\',
        n < name.len() ==> name[name.len() - n - 1] == '\\',
    ensures
        tail_length(name) == n,
    decreases n,
{
    if n > 0 {
        let rest = name.drop_last();
        assert forall|i: int| rest.len() - (n - 1) <= i < rest.len() implies rest[i] != '\\' by {
            assert(rest[i] == name[i]);
        }
        lemma_tail_length(rest, n - 1);
    }
}

/// Takes the part of a name after its last backslash.
pub fn strip_backslashes(name: &str) -> (r: String)
    ensures
        r@ == after_backslashes(name@),
{
    let chars = to_chars(name);
    let mut start: usize = chars.len();
    while start > 0 && chars[start - 1] != '\\'
        invariant
            start <= chars.len(),
            forall|i: int| start <= i < chars.len() ==> chars@[i] != '\\',
        decreases start,
    {
        start -= 1;
    }
    proof {
        lemma_tail_length(chars@, chars.len() - start);
    }
    let n = chars.len();
    if start == n {
        assert(chars@.subrange(0, n as int) =~= chars@);
        from_chars(&chars, 0, n)
    } else {
        assert(chars@.subrange(start as int, n as int) =~= chars@.skip(start as int));
        from_chars(&chars, start, n)
    }
}

impl Book {
    /// A book, named after the final component of its path, or `Unknown`
    /// when the path has none.
    pub fn new(file_path: PathBuf, file_hash: String, total_pages: u32, format: DocumentFormat) -> (r:
        Book)
        ensures
            r.file_path == file_path,
            r.file_name@ == display_file_name(&file_path),
            r.file_hash == file_hash,
            r.total_pages == total_pages,
            r.format == format,
    {
        let file_name = match file_name_of(&file_path) {
            Some(name) => strip_backslashes(name.as_str()),
            None => "Unknown".to_owned(),
        };
        Book { file_path, file_name, file_hash, total_pages, format }
    }
}

} // verus!
