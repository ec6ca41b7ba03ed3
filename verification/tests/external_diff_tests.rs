use catomic::buffer::TextBuffer;
use catomic::external_diff::{compare, ChangeKind, DiffOutcome, ExternalChanges, SkipReason};

fn compared(old: &str, new: &str) -> ExternalChanges {
    let old = TextBuffer::from_text(old);
    let new = TextBuffer::from_text(new);
    match compare(&old, &new) {
        DiffOutcome::Compared(changes) => changes,
        DiffOutcome::Skipped(reason) => panic!("unexpected skip: {reason:?}"),
    }
}

#[test]
fn insertion_replacement_and_deletion_are_distinct_and_grapheme_safe() {
    let changes = compared("same\ncafé\nremove me\ntail", "same plus\ncafe\u{301}!\ntail");

    assert!(changes.markers.iter().any(|marker| marker.kind == ChangeKind::Added));
    assert!(changes.markers.iter().any(|marker| marker.kind == ChangeKind::Changed));
    assert!(changes.markers.iter().any(|marker| marker.kind == ChangeKind::Deleted));
    assert!(changes.added_ranges.iter().all(|range| range.start.col < range.end.col));
    assert!(changes.changed_ranges.iter().all(|range| range.start.col < range.end.col));
}

#[test]
fn unique_unchanged_lines_split_multiple_external_edits() {
    let changes = compared("one\nanchor-a\ntwo\nanchor-b\nthree", "ONE\nanchor-a\nTWO\nanchor-b\nthree");

    assert_eq!(changes.changed_ranges.len(), 2);
    assert_eq!(changes.changed_ranges[0].start.row, 0);
    assert_eq!(changes.changed_ranges[1].start.row, 2);
}

#[test]
fn local_history_change_invalidates_snapshot_coordinates() {
    let mut changes = compared("old", "new");
    assert!(changes.visible(0).is_some());

    changes.reconcile(1);

    assert!(changes.visible(0).is_none());
    assert!(changes.visible(1).is_none());
}

#[test]
fn identical_revisions_record_nothing() {
    let changes = compared("a\nb", "a\nb");
    assert!(changes.markers.is_empty());
    assert!(changes.visible(0).is_none());
}

#[test]
fn a_combining_accent_changes_its_whole_cluster() {
    let changes = compared("cafe", "cafe\u{301}");
    assert_eq!(changes.changed_ranges.len(), 1);
    assert_eq!((changes.changed_ranges[0].start.col, changes.changed_ranges[0].end.col), (3, 5));
}

#[test]
fn appended_lines_are_added_and_removed_tail_is_marked_on_the_last_line() {
    let changes = compared("a", "a\nb\nc");
    assert_eq!(changes.added_ranges.len(), 2);
    assert_eq!(changes.added_ranges[0].start.row, 1);
    assert_eq!(changes.added_ranges[1].start.row, 2);

    let changes = compared("a\nb\nc", "a");
    assert_eq!(changes.markers.len(), 1);
    assert_eq!(changes.markers[0].kind, ChangeKind::Deleted);
    assert_eq!(changes.markers[0].line, 0);
}

#[test]
fn too_many_lines_are_not_compared() {
    let big = "\n".repeat(200_000);
    let old = TextBuffer::from_text(&big);
    let new = TextBuffer::from_text("x");
    match compare(&old, &new) {
        DiffOutcome::Skipped(reason) => assert_eq!(reason, SkipReason::TooManyLines),
        DiffOutcome::Compared(_) => panic!("must skip"),
    }
}
