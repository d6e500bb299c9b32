use janitor::mover::{MoveError, MoveOutcome};
use janitor::orchestrator::count_moved;
use janitor::paths::{file_name_of, join_path};
use janitor::text::{moved_message, tray_label, u64_to_string};

#[test]
fn decimal_rendering() {
    assert_eq!(u64_to_string(0), "0");
    assert_eq!(u64_to_string(7), "7");
    assert_eq!(u64_to_string(42), "42");
    assert_eq!(u64_to_string(1000), "1000");
    assert_eq!(u64_to_string(18446744073709551615), "18446744073709551615");
}

#[test]
fn no_message_when_nothing_moved() {
    assert!(moved_message(0).is_none());
}

#[test]
fn message_pluralizes_count() {
    let (summary, body) = moved_message(1).expect("one file moved");
    assert_eq!(summary, "Moved");
    assert_eq!(body, "1 file");
    let (summary, body) = moved_message(3).expect("three files moved");
    assert_eq!(summary, "Moved");
    assert_eq!(body, "3 files");
}

#[test]
fn tally_counts_only_completed_moves() {
    let outcomes = vec![
        MoveOutcome::Moved,
        MoveOutcome::Skipped,
        MoveOutcome::Failed(MoveError::RenameAndCopyFailed),
        MoveOutcome::Moved,
    ];
    assert_eq!(count_moved(&outcomes), 2);
    assert_eq!(count_moved(&Vec::new()), 0);
}

#[test]
fn file_name_is_last_component() {
    assert_eq!(file_name_of("/watched/data.zip"), "data.zip");
    assert_eq!(file_name_of("data.zip"), "data.zip");
    assert_eq!(file_name_of("/a/b/c"), "c");
    assert_eq!(file_name_of("/a/b/"), "");
}

#[test]
fn join_inserts_separator_once() {
    assert_eq!(join_path("/archives", "data.zip"), "/archives/data.zip");
    assert_eq!(join_path("/archives/", "data.zip"), "/archives/data.zip");
    assert_eq!(join_path("", "data.zip"), "data.zip");
}

#[test]
fn label_names_version_and_service_mode() {
    assert_eq!(tray_label("janitor", "1.2.3", false), "janitor v1.2.3");
    assert_eq!(tray_label("janitor", "1.2.3", true), "janitor v1.2.3 - systemd");
}
