use id3org::paths::{destination_directory, destination_path_with_file_name, should_copy};
use id3org::run::{entry_outcome, EntryOutcome, Tally};

#[test]
fn check_creates_file() {
    assert_eq!(
        destination_path_with_file_name("unittest-sorted", "artist", "album", "title"),
        "unittest-sorted/artist/album/title.mp3".to_owned()
    );
}

#[test]
fn destination_directory_ends_in_slash() {
    assert_eq!(destination_directory("sorted", "A", "B"), "sorted/A/B/".to_string());
}

#[test]
fn skipped_album_gives_empty_folder_name() {
    assert_eq!(destination_path_with_file_name("sorted", "A", "", "T"), "sorted/A//T.mp3".to_string());
}

#[test]
fn copy_when_destination_missing() {
    assert!(should_copy(None, 0));
}

#[test]
fn copy_over_smaller_file_only() {
    assert!(should_copy(Some(10), 11));
    assert!(!should_copy(Some(10), 10));
    assert!(!should_copy(Some(10), 9));
}

#[test]
fn entry_outcomes() {
    assert_eq!(entry_outcome(false, true), EntryOutcome::NotAFile);
    assert_eq!(entry_outcome(false, false), EntryOutcome::NotAFile);
    assert_eq!(entry_outcome(true, true), EntryOutcome::Organised);
    assert_eq!(entry_outcome(true, false), EntryOutcome::Skipped);
}

#[test]
fn tally_counts_copied_and_skipped() {
    let mut t = Tally::new();
    t.record(EntryOutcome::Organised);
    t.record(EntryOutcome::NotAFile);
    t.record(EntryOutcome::Skipped);
    t.record(EntryOutcome::Organised);
    assert_eq!(t.copied, 2);
    assert_eq!(t.skipped, 1);
}
