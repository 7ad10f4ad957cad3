use chronos_fm::batch::{
    apply_plan, batch_failure_status, can_apply, counter_start, parse_u64, rename_error,
    RenamePreview,
};
use chronos_fm::pane::FileEntry;

fn row(old: &str, new: &str) -> RenamePreview {
    RenamePreview { old_name: old.to_string(), new_name: new.to_string() }
}

#[test]
fn counter_start_defaults_to_one_and_rejects_text() {
    assert_eq!(counter_start(""), Ok(1));
    assert_eq!(counter_start("42"), Ok(42));
    assert_eq!(counter_start("+7"), Ok(7));
    assert_eq!(counter_start("x"), Err("Counter start must be a number".to_string()));
    assert_eq!(counter_start(" 1"), Err("Counter start must be a number".to_string()));
    assert_eq!(parse_u64("18446744073709551615"), Some(u64::MAX));
    assert_eq!(parse_u64("18446744073709551616"), None);
    assert_eq!(parse_u64("+"), None);
    assert_eq!(parse_u64("-1"), None);
    for s in ["0", "007", "123", "+5", "", "1a", "99999999999999999999"] {
        assert_eq!(parse_u64(s), s.parse::<u64>().ok(), "{s:?}");
    }
}

#[test]
fn apply_needs_a_changing_error_free_preview() {
    assert!(!can_apply(&[], &None));
    assert!(!can_apply(&[row("a", "a")], &None));
    assert!(can_apply(&[row("a", "a"), row("b", "c")], &None));
    assert!(!can_apply(&[row("b", "c")], &Some("Pattern error".to_string())));
}

#[test]
fn apply_plan_pairs_entries_with_new_names() {
    let entries = vec![
        FileEntry { name: "a".into(), path: "/d/a".into(), kind: "file".into(), size: 0, modified: 0 },
        FileEntry { name: "b".into(), path: "/d/b".into(), kind: "file".into(), size: 0, modified: 0 },
    ];
    assert_eq!(
        apply_plan(&entries, &[row("a", "a1")]),
        vec![("/d/a".to_string(), "a1".to_string())]
    );
    assert_eq!(rename_error("a", "busy"), "a: busy");
    assert_eq!(batch_failure_status(&Vec::new()), None);
    assert_eq!(
        batch_failure_status(&vec!["a: busy".to_string(), "b: gone".to_string()]),
        Some("Batch rename failed for a: busy, b: gone".to_string())
    );
}
