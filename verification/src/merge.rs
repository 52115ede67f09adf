//! Merging the reading progress of two devices: last read wins, book by
//! book.
//!
//! The merge takes whole records. A device that changes only the zoom of a
//! book, and has an older time of reading, loses the change to a device
//! that read the book later. That is accepted.

use crate::progress::{
    merged, merged_books, BookProgressView, ReadingProgress, ReadingProgressView,
};
use crate::timestamp::{later, latest, Timestamp};
use vstd::prelude::*;

verus! {

/// Merges the progress of another device into the local one.
pub struct ProgressMerger {}

impl ProgressMerger {
    /// Merges `remote` into `local` at `now`.
    pub fn merge_at(local: &ReadingProgress, remote: &ReadingProgress, now: Timestamp) -> (r:
        ReadingProgress)
        requires
            local.well_formed(),
            remote.well_formed(),
        ensures
            r.well_formed(),
            r@ == merged(local@, remote@, now),
    {
        local.merge_from(remote, now)
    }

    /// Merges `remote` into `local` now.
    pub fn merge(local: &ReadingProgress, remote: &ReadingProgress) -> (r: ReadingProgress)
        requires
            local.well_formed(),
            remote.well_formed(),
        ensures
            r.well_formed(),
            r@ == merged(local@, remote@, r@.last_modified),
    {
        ProgressMerger::merge_at(local, remote, Timestamp::now())
    }
}

/// Merging a progress with itself changes nothing but the time of
/// modification.
pub proof fn lemma_merge_idempotent(s: ReadingProgressView, now: Timestamp)
    ensures
        merged(s, s, now) == (ReadingProgressView { last_modified: now, ..s }),
{
    assert(merged_books(s.books, s.books) =~= s.books);
}

/// A book of both sides is read, after the merge, at the later of its two
/// times: never earlier than on either side.
pub proof fn lemma_merge_keeps_latest(
    local: ReadingProgressView,
    remote: ReadingProgressView,
    now: Timestamp,
    book: Seq<char>,
)
    requires
        local.books.dom().contains(book),
        remote.books.dom().contains(book),
    ensures
        merged(local, remote, now).books.dom().contains(book),
        merged(local, remote, now).books[book].last_read == latest(
            local.books[book].last_read,
            remote.books[book].last_read,
        ),
        !later(local.books[book].last_read, merged(local, remote, now).books[book].last_read),
        !later(remote.books[book].last_read, merged(local, remote, now).books[book].last_read),
        merged(local, remote, now).books[book] == local.books[book] || merged(
            local,
            remote,
            now,
        ).books[book] == remote.books[book],
{
}

/// A book of one side only is taken over as it is.
pub proof fn lemma_merge_takes_single(
    local: ReadingProgressView,
    remote: ReadingProgressView,
    now: Timestamp,
    book: Seq<char>,
)
    requires
        local.books.dom().contains(book) != remote.books.dom().contains(book),
    ensures
        merged(local, remote, now).books.dom().contains(book),
        merged(local, remote, now).books[book] == if local.books.dom().contains(book) {
            local.books[book]
        } else {
            remote.books[book]
        },
{
}

/// The merge tracks the books of both sides and no others, and keeps the
/// device and the version of the local side.
pub proof fn lemma_merge_books(
    local: ReadingProgressView,
    remote: ReadingProgressView,
    now: Timestamp,
)
    ensures
        merged(local, remote, now).books.dom() == local.books.dom().union(remote.books.dom()),
        merged(local, remote, now).device_id == local.device_id,
        merged(local, remote, now).version == local.version,
        merged(local, remote, now).last_modified == now,
{
    assert(merged(local, remote, now).books.dom() =~= local.books.dom().union(
        remote.books.dom(),
    ));
}

} // verus!
