use chronos_fm::undo::{
    transfer_entry, FsOp, PlanStep, TransferMode, TransferReport, TransferSuccess, UndoEntry,
    UndoStack, UNDO_CAPACITY,
};

fn entry_for(tag: &str) -> UndoEntry {
    UndoEntry::Rename {
        old: format!("/tmp/undo-{tag}.old"),
        new: format!("/tmp/undo-{tag}.txt"),
    }
}

fn popped_path(entry: &UndoEntry) -> String {
    match entry {
        UndoEntry::Rename { new, .. } => new.clone(),
        _ => panic!("fixture entries are renames"),
    }
}

fn first_path(entry: &UndoEntry) -> String {
    match entry {
        UndoEntry::Rename { old, .. } => old.clone(),
        _ => panic!("fixture entries are renames"),
    }
}

fn success(name: &str, overwrote: bool) -> TransferSuccess {
    TransferSuccess {
        source: format!("/{name}"),
        destination: format!("/dst/{name}"),
        renamed: false,
        overwrote,
    }
}

#[test]
fn stack_undo_pops_most_recent_and_redo_restores_it() {
    let mut stack = UndoStack::new();
    stack.push(entry_for("1"));
    stack.push(entry_for("2"));

    assert!(stack.can_undo());
    let popped = stack.undo().expect("an entry to undo");
    assert_eq!(popped_path(&popped), "/tmp/undo-2.txt");
    assert!(!stack.can_redo());
    stack.record_undone(popped);
    assert!(stack.can_redo());

    let redone = stack.redo().expect("an entry to redo");
    assert_eq!(popped_path(&redone), "/tmp/undo-2.txt");
    stack.record_redone(redone);
    assert!(!stack.can_redo());
    assert!(stack.can_undo());
}

#[test]
fn stack_new_mutation_clears_redo_branch() {
    let mut stack = UndoStack::new();
    stack.push(entry_for("1"));
    let popped = stack.undo().expect("an entry");
    stack.record_undone(popped);
    assert!(stack.can_redo());

    stack.push(entry_for("3"));
    assert!(!stack.can_redo(), "a new op invalidates the redo history");
    assert_eq!(stack.undo_len(), 1);
}

#[test]
fn stack_evicts_oldest_over_capacity() {
    let mut stack = UndoStack::new();
    for i in 0..(UNDO_CAPACITY + 10) {
        stack.push(entry_for(&i.to_string()));
    }
    assert_eq!(stack.undo_len(), UNDO_CAPACITY);
    let mut oldest = None;
    while let Some(entry) = stack.undo() {
        oldest = Some(entry);
    }
    assert_eq!(first_path(&oldest.expect("an entry")), "/tmp/undo-10.old");
}

#[test]
fn stack_record_undone_and_redone_round_trip() {
    let mut stack = UndoStack::new();
    stack.push(entry_for("1"));
    stack.push(entry_for("2"));
    let entry = stack.undo().expect("an entry");
    stack.record_undone(entry);
    assert!(stack.can_redo());

    let entry = stack.redo().expect("an entry");
    stack.record_redone(entry);
    assert!(!stack.can_redo());
    assert_eq!(stack.undo_len(), 2, "redone entry returns to the undo branch");
}

#[test]
fn stack_empty_undo_and_redo_are_noops() {
    let mut stack = UndoStack::new();
    assert!(stack.undo().is_none());
    assert!(stack.redo().is_none());
    assert!(!stack.can_undo());
    assert!(!stack.can_redo());
}

#[test]
fn create_folder_reverse_deletes_and_forward_recreates() {
    let entry = UndoEntry::CreateFolder { path: "/tmp/x/New Folder".to_string() };
    assert_eq!(
        entry.reverse(),
        vec![PlanStep::Run(FsOp::DeleteEmptyDir { path: "/tmp/x/New Folder".to_string() })]
    );
    assert_eq!(
        entry.forward(),
        vec![PlanStep::Run(FsOp::CreateDir {
            parent: "/tmp/x".to_string(),
            name: "New Folder".to_string(),
        })]
    );
}

#[test]
fn transfer_entry_excludes_overwrites_and_returns_none_on_empty() {
    let report = TransferReport {
        successes: vec![success("a.txt", false), success("b.txt", true)],
        failures: Vec::new(),
    };
    let entry = transfer_entry(&report, TransferMode::Copy).expect("a copy entry");
    match entry {
        UndoEntry::Copy { items } => {
            assert_eq!(items.len(), 1);
            assert_eq!(items[0].0, "/a.txt");
        }
        other => panic!("expected Copy entry, got {other:?}"),
    }

    let all_overwrites = TransferReport {
        successes: vec![success("b.txt", true)],
        failures: Vec::new(),
    };
    assert!(transfer_entry(&all_overwrites, TransferMode::Move).is_none());
    let empty = TransferReport { successes: Vec::new(), failures: Vec::new() };
    assert!(transfer_entry(&empty, TransferMode::Copy).is_none());
}

#[test]
fn rename_reverse_and_forward_plans() {
    let entry = UndoEntry::Rename { old: "/d/old.txt".to_string(), new: "/d/new.txt".to_string() };
    assert_eq!(
        entry.forward(),
        vec![PlanStep::Run(FsOp::RenameInPlace {
            path: "/d/old.txt".to_string(),
            new_name: "new.txt".to_string(),
        })]
    );
    assert_eq!(
        entry.reverse(),
        vec![PlanStep::Run(FsOp::RenameInPlace {
            path: "/d/new.txt".to_string(),
            new_name: "old.txt".to_string(),
        })]
    );
    assert_eq!(entry.describe(), "rename");
}

#[test]
fn move_reverse_moves_back() {
    let entry = UndoEntry::Move { items: vec![("/a/f".to_string(), "/b/f".to_string())] };
    assert_eq!(
        entry.reverse(),
        vec![PlanStep::Run(FsOp::MovePath { from: "/b/f".to_string(), to: "/a/f".to_string() })]
    );
    assert_eq!(
        entry.forward(),
        vec![PlanStep::Run(FsOp::MovePath { from: "/a/f".to_string(), to: "/b/f".to_string() })]
    );
}
