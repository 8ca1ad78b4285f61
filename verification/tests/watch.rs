use std::collections::HashSet;
use tedge_core::{
    file_event_for, notifications, watch_target, FileEvent, WatchEventKind, WatchMetadata,
    WatchMode,
};

fn set(events: Vec<FileEvent>) -> HashSet<FileEvent> {
    events.into_iter().collect()
}

#[test]
fn kinds_map_to_file_events() {
    assert_eq!(file_event_for(WatchEventKind::CloseWrite), Some(FileEvent::Modified));
    assert_eq!(file_event_for(WatchEventKind::CreateFile), Some(FileEvent::Created));
    assert_eq!(file_event_for(WatchEventKind::CreateFolder), Some(FileEvent::Created));
    assert_eq!(file_event_for(WatchEventKind::RemoveFile), Some(FileEvent::Deleted));
    assert_eq!(file_event_for(WatchEventKind::RemoveFolder), Some(FileEvent::Deleted));
    assert_eq!(file_event_for(WatchEventKind::Other), None);
}

#[test]
fn notifications_pair_each_path_in_order() {
    let paths = vec!["file_b", "file_a", "file_c"];
    let out = notifications(WatchEventKind::CreateFile, paths);
    assert_eq!(
        out,
        vec![
            ("file_b", FileEvent::Created),
            ("file_a", FileEvent::Created),
            ("file_c", FileEvent::Created)
        ]
    );
}

#[test]
fn notifications_of_other_events_are_empty() {
    let out = notifications(WatchEventKind::Other, vec!["file_a".to_string()]);
    assert!(out.is_empty());
}

#[test]
fn watch_of_directory_is_recursive() {
    let (path, mode) = watch_target("/tmp/dir", &None);
    assert_eq!(path, "/tmp/dir");
    assert_eq!(mode, WatchMode::Recursive);
}

#[test]
fn watch_of_file_joins_its_path() {
    let (path, mode) = watch_target("/tmp/dir", &Some("file_a".to_string()));
    assert_eq!(path, "/tmp/dir/file_a");
    assert_eq!(mode, WatchMode::NonRecursive);
}

#[test]
fn watch_of_absolute_file_replaces_directory() {
    let (path, _) = watch_target("/tmp/dir", &Some("/etc/hosts".to_string()));
    assert_eq!(path, "/etc/hosts");
}

#[test]
fn new_metadata_watches_nothing() {
    let metadata = WatchMetadata::new();
    assert!(metadata.events_for("/tmp", &None).is_empty());
}

#[test]
fn recorded_events_accumulate() {
    let mut metadata = WatchMetadata::new();
    metadata.record("/tmp", None, &[FileEvent::Created, FileEvent::Modified]);
    metadata.record("/tmp", None, &[FileEvent::Deleted, FileEvent::Created]);
    let events = metadata.events_for("/tmp", &None);
    assert_eq!(events.len(), 3);
    assert_eq!(
        set(events),
        set(vec![FileEvent::Created, FileEvent::Modified, FileEvent::Deleted])
    );
}

#[test]
fn recording_twice_changes_nothing() {
    let mut metadata = WatchMetadata::new();
    let file = Some("file_a".to_string());
    metadata.record("/tmp", file.clone(), &[FileEvent::Modified]);
    let once = metadata.events_for("/tmp", &file);
    metadata.record("/tmp", file.clone(), &[FileEvent::Modified]);
    assert_eq!(metadata.events_for("/tmp", &file), once);
}

#[test]
fn watches_of_files_and_directories_are_apart() {
    let mut metadata = WatchMetadata::new();
    metadata.record("/tmp", Some("file_a".to_string()), &[FileEvent::Modified]);
    metadata.record("/tmp", None, &[FileEvent::Created]);
    metadata.record("/var", Some("file_a".to_string()), &[FileEvent::Deleted]);
    assert_eq!(metadata.events_for("/tmp", &Some("file_a".to_string())), vec![FileEvent::Modified]);
    assert_eq!(metadata.events_for("/tmp", &None), vec![FileEvent::Created]);
    assert_eq!(metadata.events_for("/var", &Some("file_a".to_string())), vec![FileEvent::Deleted]);
    assert!(metadata.events_for("/var", &None).is_empty());
    assert!(metadata.events_for("/tmp", &Some("file_b".to_string())).is_empty());
}

#[test]
fn recording_order_does_not_matter() {
    let mut first = WatchMetadata::new();
    first.record("/tmp", None, &[FileEvent::Created]);
    first.record("/tmp", None, &[FileEvent::Deleted]);
    let mut second = WatchMetadata::new();
    second.record("/tmp", None, &[FileEvent::Deleted]);
    second.record("/tmp", None, &[FileEvent::Created]);
    assert_eq!(set(first.events_for("/tmp", &None)), set(second.events_for("/tmp", &None)));
}

#[test]
fn recording_without_events_still_watches() {
    let mut metadata = WatchMetadata::new();
    metadata.record("/tmp", None, &[]);
    assert!(metadata.events_for("/tmp", &None).is_empty());
    metadata.record("/tmp", None, &[FileEvent::Modified, FileEvent::Modified]);
    assert_eq!(metadata.events_for("/tmp", &None), vec![FileEvent::Modified]);
}

#[test]
fn spellings_of_one_directory_are_one_watch() {
    let mut metadata = WatchMetadata::new();
    metadata.record("/t", None, &[FileEvent::Created]);
    metadata.record("/t/", None, &[FileEvent::Modified]);
    let expected = set(vec![FileEvent::Created, FileEvent::Modified]);
    assert_eq!(set(metadata.events_for("/t/", &None)), expected);
    assert_eq!(set(metadata.events_for("/t", &None)), expected);
    assert_eq!(set(metadata.events_for("//t/./", &None)), expected);
    assert!(metadata.events_for("/t/u", &None).is_empty());
}
