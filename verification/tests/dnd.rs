use chronos_fm::dnd::{
    drop_completion, drop_failure_status, drop_mode, paste_failure_status, validate_drop,
    DropMode, DropValidationError, ResolvedSource,
};
use chronos_fm::pane::{ExplorerPane, FileEntry};
use chronos_fm::undo::{TransferFailure, TransferMode, TransferReport, TransferSuccess, UndoEntry};

fn source(path: &str, canonical: &str, parent: &str, is_dir: bool) -> ResolvedSource {
    ResolvedSource {
        path: path.to_string(),
        canonical: Some(canonical.to_string()),
        parent_canonical: Some(parent.to_string()),
        is_dir,
    }
}

#[test]
fn drop_mode_uses_drop_time_copy_modifiers() {
    assert_eq!(drop_mode(false, false), DropMode::Move);
    assert_eq!(drop_mode(true, false), DropMode::Copy);
    assert_eq!(drop_mode(false, true), DropMode::Copy);
    assert_eq!(TransferMode::from(DropMode::Copy), TransferMode::Copy);
    assert_eq!(TransferMode::from(DropMode::Move), TransferMode::Move);
}

#[test]
fn validation_rejects_empty_payload_and_non_directory_target() {
    assert_eq!(validate_drop(&[], Some("/d"), DropMode::Move), Err(DropValidationError::EmptyPayload));
    assert_eq!(
        validate_drop(&[source("/s/f", "/s/f", "/s", false)], None, DropMode::Move),
        Err(DropValidationError::DestinationNotDirectory)
    );
}

#[test]
fn validation_rejects_self_descendant_and_same_parent_move() {
    let dir = source("/t/source", "/t/source", "/t", true);
    assert_eq!(
        validate_drop(&[dir.clone()], Some("/t/source"), DropMode::Move),
        Err(DropValidationError::SourceIsDestination("/t/source".to_string()))
    );
    assert_eq!(
        validate_drop(&[dir], Some("/t/source/nested"), DropMode::Copy),
        Err(DropValidationError::DirectoryContainsDestination("/t/source".to_string()))
    );
    assert_eq!(
        validate_drop(&[source("/t/file.txt", "/t/file.txt", "/t", false)], Some("/t"), DropMode::Move),
        Err(DropValidationError::SameParentMove("/t/file.txt".to_string()))
    );
}

#[test]
fn validation_accepts_same_parent_copy_and_sibling_move() {
    let s = source("/t/from/file.txt", "/t/from/file.txt", "/t/from", false);
    assert_eq!(validate_drop(&[s.clone()], Some("/t/from"), DropMode::Copy), Ok(()));
    assert_eq!(validate_drop(&[s], Some("/t/to"), DropMode::Move), Ok(()));
}

#[test]
fn validation_rejects_entire_mixed_payload_and_uses_components() {
    let valid = source("/t/from/valid.txt", "/t/from/valid.txt", "/t/from", false);
    let dest = source("/t/to", "/t/to", "/t", true);
    assert!(validate_drop(&[valid, dest], Some("/t/to"), DropMode::Move).is_err());
    let a = source("/t/a", "/t/a", "/t", true);
    assert_eq!(validate_drop(&[a], Some("/t/ab"), DropMode::Move), Ok(()));
    let unavailable = ResolvedSource {
        path: "/gone".to_string(),
        canonical: None,
        parent_canonical: Some("/".to_string()),
        is_dir: false,
    };
    assert_eq!(
        validate_drop(&[unavailable], Some("/t"), DropMode::Copy),
        Err(DropValidationError::SourceUnavailable("/gone".to_string()))
    );
}

#[test]
fn validation_messages() {
    assert_eq!(
        DropValidationError::SameParentMove("/x".to_string()).message(),
        "source is already in the destination: /x"
    );
    assert_eq!(DropValidationError::EmptyPayload.message(), "the drop contains no local paths");
}

fn report(successes: usize, failures: &[(&str, &str)]) -> TransferReport {
    TransferReport {
        successes: (0..successes)
            .map(|i| TransferSuccess {
                source: format!("/s/{i}"),
                destination: format!("/d/{i}"),
                renamed: false,
                overwrote: false,
            })
            .collect(),
        failures: failures
            .iter()
            .map(|(s, e)| TransferFailure { source: s.to_string(), error: e.to_string() })
            .collect(),
    }
}

#[test]
fn failure_statuses_name_each_failed_source() {
    assert_eq!(drop_failure_status(&report(2, &[])), None);
    assert_eq!(
        drop_failure_status(&report(0, &[("/s/a.txt", "denied")])),
        Some("Drop failed: 1 failed; a.txt: denied".to_string())
    );
    assert_eq!(
        drop_failure_status(&report(1, &[("/s/a.txt", "x"), ("/", "y")])),
        Some("Drop partially completed: 1 succeeded, 2 failed; a.txt: x, /: y".to_string())
    );
    let status = paste_failure_status(&report(1, &[("/src/missing.txt", "not found")])).unwrap();
    assert!(status.contains("1 succeeded, 1 failed"), "{status}");
    assert!(status.contains("missing.txt"), "{status}");
}

#[test]
fn drop_completion_reloads_the_source_only_for_cross_pane_moves() {
    let r = report(1, &[]);
    let c = drop_completion(&r, DropMode::Move, false, false);
    assert!(c.reload_source);
    assert_eq!(c.destinations, vec!["/d/0".to_string()]);
    assert!(matches!(c.undo_entry, Some(UndoEntry::Move { .. })));
    assert!(!drop_completion(&r, DropMode::Move, true, false).reload_source);
    assert!(!drop_completion(&r, DropMode::Copy, false, false).reload_source);
    assert!(!drop_completion(&r, DropMode::Move, false, true).reload_source);
    assert!(!drop_completion(&report(0, &[("/a", "e")]), DropMode::Move, false, false).reload_source);
}

#[test]
fn drop_completion_undo_entry_follows_the_drop_mode() {
    let r = report(2, &[]);
    match drop_completion(&r, DropMode::Move, false, false).undo_entry {
        Some(UndoEntry::Move { items }) => assert_eq!(items.len(), 2),
        other => panic!("expected a move entry, got {other:?}"),
    }
    match drop_completion(&r, DropMode::Copy, true, false).undo_entry {
        Some(UndoEntry::Copy { items }) => assert_eq!(items.len(), 2),
        other => panic!("expected a copy entry, got {other:?}"),
    }
    assert!(drop_completion(&report(0, &[("/a", "e")]), DropMode::Copy, false, false)
        .undo_entry
        .is_none());
}

fn entry(path: &str) -> FileEntry {
    FileEntry { name: path.rsplit('/').next().unwrap().to_string(), path: path.to_string(), kind: "file".to_string(), size: 0, modified: 0 }
}

#[test]
fn finishing_a_drop_selects_the_written_destinations() {
    let mut pane = ExplorerPane::new("/d".to_string());
    pane.entries = vec![entry("/d/a"), entry("/d/b"), entry("/d/c")];
    pane.apply_filter();
    assert!(pane.begin_drop(false, false, false, &Ok(())));
    assert!(pane.drop_pending);
    assert!(!pane.can_accept_drop(false, false, &Ok(())), "one drop at a time");
    pane.finish_target_drop(&["/d/c".to_string(), "/d//a".to_string()], Some("Drop failed".to_string()));
    assert!(!pane.drop_pending);
    assert_eq!(pane.selected_paths(), vec!["/d/a", "/d/c"]);
    assert_eq!(pane.selection.anchor, Some(0));
    assert_eq!(pane.selection.active, Some(2));
    assert_eq!(pane.status_for_footer(), Some(("Drop failed".to_string(), true)));
}

#[test]
fn drops_are_refused_by_provider_panes_and_open_dialogs() {
    let mut pane = ExplorerPane::new("/d".to_string());
    assert!(!pane.can_accept_drop(true, true, &Ok(())));
    assert!(pane.can_accept_drop(false, true, &Ok(())));
    assert!(!pane.can_accept_drop(false, false, &Err(DropValidationError::EmptyPayload)));
    assert!(!pane.begin_drop(false, false, true, &Ok(())));
    pane.provider_backed = true;
    assert!(!pane.can_accept_drop(false, false, &Ok(())));
    pane.provider_backed = false;
    pane.begin_drop(false, false, false, &Ok(()));
    pane.cancel_conflict_transfer();
    assert!(!pane.drop_pending);
    assert_eq!(pane.status_for_footer(), Some(("Transfer cancelled".to_string(), false)));
}

fn listed_pane() -> ExplorerPane {
    let mut pane = ExplorerPane::new("/w".to_string());
    let entry = |name: &str| FileEntry {
        name: name.to_string(),
        path: format!("/w/{name}"),
        kind: "file".to_string(),
        size: 1,
        modified: 0,
    };
    pane.listing_loaded(vec![entry("a"), entry("b"), entry("c")]);
    pane
}

#[test]
fn drag_carries_selection_or_single_row() {
    let mut pane = listed_pane();
    pane.selection.select_single(0);
    pane.selection.toggle_select(2);
    assert_eq!(pane.drag_paths(2, "/w/c"), Some(vec!["/w/a".to_string(), "/w/c".to_string()]));
    assert_eq!(pane.drag_paths(1, "/w/b"), Some(vec!["/w/b".to_string()]));
    pane.renaming = Some(1);
    assert_eq!(pane.drag_paths(1, "/w/b"), None);
    pane.renaming = None;
    pane.provider_backed = true;
    assert_eq!(pane.drag_paths(0, "/w/a"), None);
}

#[test]
fn drag_start_selects_unselected_row() {
    let mut pane = listed_pane();
    pane.selection.select_single(0);
    pane.selection.toggle_select(1);
    assert!(!pane.activate_drag("/w/b"));
    assert!(pane.is_selected(0) && pane.is_selected(1));
    assert!(pane.activate_drag("/w/c"));
    assert!(!pane.is_selected(0) && pane.is_selected(2));
    assert_eq!(pane.selection.active, Some(2));
    assert!(!pane.activate_drag("/elsewhere"));
}
