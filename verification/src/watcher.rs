//! What a change in the directory of the progress file means.
//!
//! The directory is watched, not the file, so that the watch survives a
//! file that is deleted and made again. The watch only signals; when and
//! how to reconcile is decided here and done by the caller.

use crate::progress::{merged, ReadingProgress, ReadingProgressView};
use crate::timestamp::Timestamp;
use notify::{Event, EventKind};
use vstd::prelude::*;

verus! {

#[verifier::external_type_specification]
#[verifier::external_body]
pub struct ExEvent(Event);

/// What happened to the progress file, as far as it matters.
#[derive(Debug, Clone, Copy, PartialEq, Eq, Structural)]
pub enum SyncEvent {
    /// The file was made or changed.
    FileModified,
    /// The file was removed.
    FileDeleted,
}

/// The kinds of change that a watch reports.
#[derive(Debug, Clone, Copy, PartialEq, Eq, Structural)]
pub enum ChangeKind {
    Any,
    Access,
    Create,
    Modify,
    Remove,
    Other,
}

/// The kind of an event of `notify`.
pub uninterp spec fn event_kind(event: Event) -> ChangeKind;

/// Reads the kind of an event of `notify`, one kind for each variant of
/// `EventKind`. Trusted: the result is what `event_kind` names.
#[verifier::external_body]
fn kind_of(event: &Event) -> (r: ChangeKind)
    ensures
        r == event_kind(*event),
{
    match event.kind {
        EventKind::Any => ChangeKind::Any,
        EventKind::Access(_) => ChangeKind::Access,
        EventKind::Create(_) => ChangeKind::Create,
        EventKind::Modify(_) => ChangeKind::Modify,
        EventKind::Remove(_) => ChangeKind::Remove,
        EventKind::Other => ChangeKind::Other,
    }
}

/// What a kind of change means: making and changing are one, removing is
/// the other, and the rest means nothing.
pub open spec fn classified(kind: ChangeKind) -> Option<SyncEvent> {
    match kind {
        ChangeKind::Create => Some(SyncEvent::FileModified),
        ChangeKind::Modify => Some(SyncEvent::FileModified),
        ChangeKind::Remove => Some(SyncEvent::FileDeleted),
        _ => None,
    }
}

/// The progress after a change was reconciled: a file that was changed
/// and could be loaded is merged in; anything else leaves the progress as
/// it is.
pub open spec fn reconciled(
    local: ReadingProgressView,
    event: SyncEvent,
    remote: Option<ReadingProgressView>,
    now: Timestamp,
) -> ReadingProgressView {
    match (event, remote) {
        (SyncEvent::FileModified, Some(remote)) => merged(local, remote, now),
        _ => local,
    }
}

/// Whether the progress is to be saved after a change: after a merge, and
/// after the file was removed.
pub open spec fn save_after(event: SyncEvent, remote_loaded: bool) -> bool {
    match event {
        SyncEvent::FileModified => remote_loaded,
        SyncEvent::FileDeleted => true,
    }
}

impl SyncEvent {
    /// Classifies a kind of change.
    pub fn from_change(kind: ChangeKind) -> (r: Option<SyncEvent>)
        ensures
            r == classified(kind),
    {
        match kind {
            ChangeKind::Create => Some(SyncEvent::FileModified),
            ChangeKind::Modify => Some(SyncEvent::FileModified),
            ChangeKind::Remove => Some(SyncEvent::FileDeleted),
            _ => None,
        }
    }

    /// Classifies an event of `notify`.
    pub fn from_event(event: &Event) -> (r: Option<SyncEvent>)
        ensures
            r == classified(event_kind(*event)),
    {
        SyncEvent::from_change(kind_of(event))
    }

    /// Whether the file is to be loaded to reconcile this event.
    pub fn wants_remote(&self) -> (r: bool)
        ensures
            r == (*self == SyncEvent::FileModified),
    {
        match self {
            SyncEvent::FileModified => true,
            SyncEvent::FileDeleted => false,
        }
    }

    /// Reconciles the progress with a change at `now`, given the progress
    /// loaded from the file, if it was asked for and could be loaded. Says
    /// whether the progress is to be saved.
    pub fn reconcile(
        &self,
        progress: &mut ReadingProgress,
        remote: Option<&ReadingProgress>,
        now: Timestamp,
    ) -> (r: bool)
        requires
            old(progress).well_formed(),
            remote matches Some(p) ==> p.well_formed(),
        ensures
            final(progress).well_formed(),
            final(progress)@ == reconciled(
                old(progress)@,
                *self,
                match remote {
                    Some(p) => Some(p@),
                    None => None,
                },
                now,
            ),
            r == save_after(*self, remote is Some),
    {
        match self {
            SyncEvent::FileModified => match remote {
                Some(remote) => {
                    let merged = progress.merge_from(remote, now);
                    *progress = merged;
                    true
                },
                None => false,
            },
            SyncEvent::FileDeleted => true,
        }
    }
}

} // verus!
