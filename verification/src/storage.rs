//! Where the reading progress is kept, and what to do with what was found
//! there.
//!
//! The progress is written to a temporary file beside its own and renamed
//! into place, so that no reader ever sees half a file. Reading and
//! writing are the caller's; this module names the files and decides.

use crate::progress::{fresh_progress, ReadingProgress, ReadingProgressView};
use crate::timestamp::Timestamp;
use std::path::PathBuf;
use vstd::prelude::*;

verus! {

/// A path with its extension replaced, as `std::path::Path::with_extension`
/// computes it.
pub uninterp spec fn with_extension(path: &PathBuf, extension: Seq<char>) -> PathBuf;

/// The directory of a path, as `std::path::Path::parent` computes it;
/// `None` for a root and for an empty path.
pub uninterp spec fn parent_of(path: &PathBuf) -> Option<PathBuf>;

/// Whether a text holds no path separator of any system.
pub open spec fn is_plain_extension(extension: Seq<char>) -> bool {
    forall|i: int|
        0 <= i < extension.len() ==> #[trigger] extension[i] != '/' && extension[i] != '\\'
}

/// Calls `Path::with_extension`, which panics on an extension that holds a
/// path separator; none such is handed to it. Trusted: the result is what
/// `with_extension` names.
#[verifier::external_body]
fn path_with_extension(path: &PathBuf, extension: &str) -> (r: PathBuf)
    requires
        is_plain_extension(extension@),
    ensures
        r == with_extension(path, extension@),
{
    path.with_extension(extension)
}

/// Calls `Path::parent`. Trusted: the result is what `parent_of` names.
#[verifier::external_body]
fn path_parent(path: &PathBuf) -> (r: Option<PathBuf>)
    ensures
        r == parent_of(path),
{
    path.parent().map(|p| p.to_path_buf())
}

/// The extension of the temporary file.
pub open spec fn temp_extension() -> Seq<char> {
    "json.tmp"@
}

/// The place of the progress file.
pub struct ProgressStorage {
    file_path: PathBuf,
}

/// What an attempt to read the progress file gave.
pub enum LoadAttempt {
    /// The file was read and understood.
    Found(ReadingProgress),
    /// There is no file.
    Missing,
    /// The file could not be read; carries the reason.
    Unreadable(String),
    /// The file was read and is not a progress; carries the reason.
    Malformed(String),
}

/// Why the progress could not be loaded.
#[derive(Debug)]
pub enum StorageError {
    /// Reading failed.
    Io(String),
    /// The file is malformed. It is left as it is, never repaired.
    Parse(String),
}

/// Whether a save is due: there is something to save, and the last save is
/// at least the interval ago.
pub open spec fn save_is_due(dirty: bool, elapsed_secs: u64, interval_secs: u64) -> bool {
    dirty && elapsed_secs >= interval_secs
}

impl ProgressStorage {
    /// The path of the progress file.
    pub closed spec fn path(&self) -> PathBuf {
        self.file_path
    }

    /// The place of a progress file.
    pub fn new(file_path: PathBuf) -> (r: ProgressStorage)
        ensures
            r.path() == file_path,
    {
        ProgressStorage { file_path }
    }

    /// The path of the progress file.
    pub fn file_path(&self) -> (r: &PathBuf)
        ensures
            *r == self.path(),
    {
        &self.file_path
    }

    /// The path of the temporary file that is written first and then
    /// renamed into place.
    pub fn temp_path(&self) -> (r: PathBuf)
        ensures
            r == with_extension(&self.path(), temp_extension()),
    {
        proof {
            reveal_strlit("json.tmp");
        }
        path_with_extension(&self.file_path, "json.tmp")
    }

    /// The directory of the progress file: the one to make before a save,
    /// and the one to watch, so that the watch outlives the file.
    pub fn directory(&self) -> (r: Option<PathBuf>)
        ensures
            r == parent_of(&self.path()),
    {
        path_parent(&self.file_path)
    }

    /// Decides what the progress is after an attempt to load it, and
    /// whether it is to be saved at once: a file that is missing gives a
    /// fresh progress, to be saved at once; a file that cannot be read or
    /// understood is an error.
    pub fn load_or_create_from(attempt: LoadAttempt, device_id: &str, now: Timestamp) -> (r:
        Result<(ReadingProgress, bool), StorageError>)
        requires
            attempt matches LoadAttempt::Found(p) ==> p.well_formed(),
        ensures
            match attempt {
                LoadAttempt::Found(found) => r matches Ok((p, save)) && p == found && !save,
                LoadAttempt::Missing => r matches Ok((p, save)) && p.well_formed() && p@
                    == fresh_progress(device_id@, now) && save,
                LoadAttempt::Unreadable(reason) => r matches Err(StorageError::Io(m)) && m
                    == reason,
                LoadAttempt::Malformed(reason) => r matches Err(StorageError::Parse(m)) && m
                    == reason,
            },
    {
        match attempt {
            LoadAttempt::Found(progress) => Ok((progress, false)),
            LoadAttempt::Missing => Ok((ReadingProgress::new_at(device_id.to_owned(), now), true)),
            LoadAttempt::Unreadable(reason) => Err(StorageError::Io(reason)),
            LoadAttempt::Malformed(reason) => Err(StorageError::Parse(reason)),
        }
    }

    /// Decides whether a save is due. Saves are spaced out so as not to
    /// wear out whatever synchronises the folder.
    pub fn should_save(dirty: bool, elapsed_secs: u64, interval_secs: u64) -> (r: bool)
        ensures
            r == save_is_due(dirty, elapsed_secs, interval_secs),
    {
        dirty && elapsed_secs >= interval_secs
    }
}

} // verus!
