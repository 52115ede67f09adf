use docreader::progress::ReadingProgress;
use docreader::storage::{LoadAttempt, ProgressStorage, StorageError};
use docreader::timestamp::Timestamp;
use docreader::watcher::{ChangeKind, SyncEvent};
use notify::event::{AccessKind, CreateKind, ModifyKind, RemoveKind};
use notify::{Event, EventKind};
use std::path::PathBuf;

fn at(seconds: i64) -> Timestamp {
    Timestamp { seconds, nanos: 0 }
}

#[test]
fn storage_names_its_files() {
    let storage = ProgressStorage::new(PathBuf::from("/sync/Books/reading_progress.json"));
    assert_eq!(storage.file_path(), &PathBuf::from("/sync/Books/reading_progress.json"));
    assert_eq!(storage.temp_path(), PathBuf::from("/sync/Books/reading_progress.json.tmp"));
    assert_eq!(storage.directory(), Some(PathBuf::from("/sync/Books")));
}

#[test]
fn the_temporary_file_replaces_the_extension() {
    let storage = ProgressStorage::new(PathBuf::from("progress.data"));
    assert_eq!(storage.temp_path(), PathBuf::from("progress.json.tmp"));
    assert_eq!(storage.directory(), Some(PathBuf::from("")));
    let storage = ProgressStorage::new(PathBuf::from("dir/noext"));
    assert_eq!(storage.temp_path(), PathBuf::from("dir/noext.json.tmp"));
    let root = ProgressStorage::new(PathBuf::from("/"));
    assert_eq!(root.directory(), None);
}

#[test]
fn a_progress_that_was_found_is_kept() {
    let mut found = ReadingProgress::new_at("other".to_string(), at(1));
    found.add_book_at("h".to_string(), "n".to_string(), "p".to_string(), 3, at(2));
    match ProgressStorage::load_or_create_from(LoadAttempt::Found(found), "device", at(9)) {
        Ok((progress, save)) => {
            assert!(!save);
            assert_eq!(progress.device_id, "other");
            assert_eq!(progress.last_modified, at(2));
            assert_eq!(progress.len(), 1);
        }
        Err(e) => panic!("{:?}", e),
    }
}

#[test]
fn a_missing_file_gives_a_fresh_progress_to_save_at_once() {
    match ProgressStorage::load_or_create_from(LoadAttempt::Missing, "device2", at(9)) {
        Ok((progress, save)) => {
            assert!(save);
            assert_eq!(progress.device_id, "device2");
            assert_eq!(progress.version, 1);
            assert_eq!(progress.last_modified, at(9));
            assert!(progress.is_empty());
        }
        Err(e) => panic!("{:?}", e),
    }
}

#[test]
fn a_malformed_file_is_an_error_and_is_not_repaired() {
    match ProgressStorage::load_or_create_from(
        LoadAttempt::Malformed("expected value at line 1".to_string()),
        "device",
        at(9),
    ) {
        Err(StorageError::Parse(reason)) => assert_eq!(reason, "expected value at line 1"),
        other => panic!("{:?}", other.map(|(_, save)| save)),
    }
    match ProgressStorage::load_or_create_from(
        LoadAttempt::Unreadable("permission denied".to_string()),
        "device",
        at(9),
    ) {
        Err(StorageError::Io(reason)) => assert_eq!(reason, "permission denied"),
        other => panic!("{:?}", other.map(|(_, save)| save)),
    }
}

#[test]
fn saves_are_spaced_out() {
    assert!(!ProgressStorage::should_save(false, 100, 5));
    assert!(!ProgressStorage::should_save(true, 4, 5));
    assert!(ProgressStorage::should_save(true, 5, 5));
    assert!(ProgressStorage::should_save(true, 6, 5));
    assert!(ProgressStorage::should_save(true, 0, 0));
    assert!(!ProgressStorage::should_save(false, 0, 0));
}

#[test]
fn changes_are_classified() {
    assert_eq!(SyncEvent::from_change(ChangeKind::Create), Some(SyncEvent::FileModified));
    assert_eq!(SyncEvent::from_change(ChangeKind::Modify), Some(SyncEvent::FileModified));
    assert_eq!(SyncEvent::from_change(ChangeKind::Remove), Some(SyncEvent::FileDeleted));
    assert_eq!(SyncEvent::from_change(ChangeKind::Access), None);
    assert_eq!(SyncEvent::from_change(ChangeKind::Any), None);
    assert_eq!(SyncEvent::from_change(ChangeKind::Other), None);
}

#[test]
fn events_of_the_watch_are_classified() {
    let classify = |kind: EventKind| SyncEvent::from_event(&Event::new(kind));
    assert_eq!(classify(EventKind::Create(CreateKind::File)), Some(SyncEvent::FileModified));
    assert_eq!(classify(EventKind::Create(CreateKind::Any)), Some(SyncEvent::FileModified));
    assert_eq!(classify(EventKind::Modify(ModifyKind::Any)), Some(SyncEvent::FileModified));
    assert_eq!(classify(EventKind::Remove(RemoveKind::File)), Some(SyncEvent::FileDeleted));
    assert_eq!(classify(EventKind::Access(AccessKind::Any)), None);
    assert_eq!(classify(EventKind::Any), None);
    assert_eq!(classify(EventKind::Other), None);
}

#[test]
fn a_changed_file_is_merged_in() {
    let mut local = ReadingProgress::new_at("A".to_string(), at(1));
    local.add_book_at("x".to_string(), "X".to_string(), "/x".to_string(), 9, at(10));
    let mut remote = ReadingProgress::new_at("B".to_string(), at(1));
    remote.add_book_at("x".to_string(), "X".to_string(), "/x".to_string(), 9, at(20));
    remote.update_book_progress_at("x", 7, at(21));
    remote.add_book_at("y".to_string(), "Y".to_string(), "/y".to_string(), 3, at(22));

    assert!(SyncEvent::FileModified.wants_remote());
    let save = SyncEvent::FileModified.reconcile(&mut local, Some(&remote), at(30));
    assert!(save);
    assert_eq!(local.device_id, "A");
    assert_eq!(local.last_modified, at(30));
    assert_eq!(local.len(), 2);
    assert_eq!(local.get("x").unwrap().current_page, 7);
}

#[test]
fn a_changed_file_that_cannot_be_loaded_changes_nothing() {
    let mut local = ReadingProgress::new_at("A".to_string(), at(1));
    local.add_book_at("x".to_string(), "X".to_string(), "/x".to_string(), 9, at(10));
    let save = SyncEvent::FileModified.reconcile(&mut local, None, at(30));
    assert!(!save);
    assert_eq!(local.last_modified, at(10));
    assert_eq!(local.len(), 1);
}

#[test]
fn a_removed_file_is_written_again() {
    let mut local = ReadingProgress::new_at("A".to_string(), at(1));
    let remote = ReadingProgress::new_at("B".to_string(), at(2));
    assert!(!SyncEvent::FileDeleted.wants_remote());
    assert!(SyncEvent::FileDeleted.reconcile(&mut local, None, at(30)));
    assert!(SyncEvent::FileDeleted.reconcile(&mut local, Some(&remote), at(31)));
    assert_eq!(local.last_modified, at(1));
    assert_eq!(local.device_id, "A");
}
