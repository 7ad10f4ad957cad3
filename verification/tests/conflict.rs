use chronos_fm::conflict::{
    detect_conflicts, plan_transfer, ConflictAborted, ConflictChoice, ConflictItem, ConflictQueue,
    ConflictResolution as R, ConflictStep, SourceProbe, TransferStart,
};

fn queue(conflicts: &[usize], source_count: usize) -> ConflictQueue {
    ConflictQueue::new(source_count, conflicts.to_vec())
}

#[test]
fn remaining_starts_at_conflict_count_and_decrements() {
    let mut q = queue(&[1, 3, 5], 6);
    assert_eq!(q.remaining(), 3);
    assert_eq!(q.next_conflict_index(), Some(1));
    q.apply(ConflictChoice::Rename, false).unwrap();
    assert_eq!(q.remaining(), 2);
    assert_eq!(q.next_conflict_index(), Some(3));
    q.apply(ConflictChoice::Skip, false).unwrap();
    q.apply(ConflictChoice::Overwrite, false).unwrap();
    assert_eq!(q.remaining(), 0);
    assert_eq!(q.next_conflict_index(), None);
}

#[test]
fn skip_rename_overwrite_record_only_the_current_conflict() {
    let mut q = queue(&[0, 1, 2], 3);
    q.apply(ConflictChoice::Rename, false).unwrap();
    q.apply(ConflictChoice::Skip, false).unwrap();
    q.apply(ConflictChoice::Overwrite, false).unwrap();
    assert_eq!(q.resolutions, vec![Some(R::Rename), Some(R::Skip), Some(R::Overwrite)]);
    assert_eq!(q.apply_all, None);
}

#[test]
fn apply_to_all_fills_remaining_conflicts_but_never_clean_sources() {
    let mut q = queue(&[0, 2], 4);
    q.apply(ConflictChoice::Overwrite, true).unwrap();
    assert_eq!(q.remaining(), 0);
    assert_eq!(
        q.resolutions,
        vec![Some(R::Overwrite), None, Some(R::Overwrite), None]
    );
    assert_eq!(q.apply_all, Some(R::Overwrite));
}

#[test]
fn apply_to_all_at_second_conflict_mixes_decisions() {
    let mut q = queue(&[0, 1, 2], 3);
    q.apply(ConflictChoice::Rename, false).unwrap();
    q.apply(ConflictChoice::Skip, true).unwrap();
    assert_eq!(q.resolutions, vec![Some(R::Rename), Some(R::Skip), Some(R::Skip)]);
    assert_eq!(q.apply_all, Some(R::Skip));
    assert_eq!(q.remaining(), 0);
}

#[test]
fn cancel_aborts_without_recording_or_advancing() {
    let mut q = queue(&[0, 1], 2);
    q.apply(ConflictChoice::Rename, false).unwrap();
    let before = q.clone();
    let result = q.apply(ConflictChoice::Cancel, false);
    assert_eq!(result, Err(ConflictAborted));
    assert_eq!(q.remaining(), before.remaining());
    assert_eq!(q.resolutions, before.resolutions);
    assert_eq!(q.apply_all, before.apply_all);
}

#[test]
fn clean_transfers_start_at_once_and_conflicts_pause() {
    match plan_transfer(2, Vec::new()) {
        TransferStart::Now(resolutions) => assert_eq!(resolutions, vec![None, None]),
        TransferStart::Ask(_) => panic!("nothing collides"),
    }
    let item = ConflictItem {
        name: "taken.txt".to_string(),
        destination_dir: "/dst".to_string(),
        size: 1,
        modified: 0,
    };
    match plan_transfer(2, vec![(1, item.clone())]) {
        TransferStart::Ask(mut pending) => {
            assert_eq!(pending.current_item(), item);
            assert_eq!(pending.remaining_after_current(), 0);
            match pending.decide(ConflictChoice::Skip) {
                ConflictStep::Start(resolutions) => {
                    assert_eq!(resolutions, vec![None, Some(R::Skip)])
                }
                _ => panic!("the last decision starts the transfer"),
            }
        }
        TransferStart::Now(_) => panic!("a collision pauses"),
    }
}

#[test]
fn detect_conflicts_reports_occupied_destinations() {
    let sources = vec!["/src/fresh.txt".to_string(), "/src/taken.txt".to_string()];
    let probes = vec![
        SourceProbe { occupied: false, size: 0, modified: 0 },
        SourceProbe { occupied: true, size: 1, modified: 5 },
    ];
    let conflicts = detect_conflicts(&sources, "/dst", &probes);
    assert_eq!(conflicts.len(), 1);
    let (index, item) = &conflicts[0];
    assert_eq!(*index, 1, "only the colliding source conflicts");
    assert_eq!(item.name, "taken.txt");
    assert_eq!(item.size, 1);
}

#[test]
fn decided_conflicts_never_change_and_clean_sources_stay_unresolved() {
    let mut q = ConflictQueue::new(5, vec![1, 3, 4]);
    assert!(q.apply(ConflictChoice::Skip, false).is_ok());
    assert!(q.apply(ConflictChoice::Cancel, true).is_err());
    assert!(q.apply(ConflictChoice::Overwrite, true).is_ok());
    assert!(q.apply(ConflictChoice::Rename, true).is_ok());
    assert_eq!(q.resolutions[1], Some(R::Skip));
    assert_eq!(q.resolutions[3], Some(R::Overwrite));
    assert_eq!(q.resolutions[4], Some(R::Overwrite));
    assert_eq!(q.resolutions[0], None);
    assert_eq!(q.resolutions[2], None);
    assert_eq!(q.remaining(), 0);
}

#[test]
fn conflict_dialog_texts() {
    let item = ConflictItem {
        name: "a.txt".to_string(),
        destination_dir: "docs".to_string(),
        size: 1,
        modified: 0,
    };
    assert_eq!(
        chronos_fm::conflict::conflict_headline(&item),
        "\"a.txt\" already exists in \"docs\""
    );
    assert_eq!(chronos_fm::conflict::apply_all_label(0), None);
    assert_eq!(
        chronos_fm::conflict::apply_all_label(3),
        Some("Apply to all remaining conflicts (3 more)".to_string())
    );
}
