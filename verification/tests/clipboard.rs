use chronos_fm::clipboard::{clear, current, init, is_cut, set_copy, set_cut, ClipboardMode};
use chronos_fm::pane::{ExplorerPane, FileEntry};
use chronos_fm::undo::TransferMode;

#[test]
fn set_copy_then_clear_round_trips() {
    let mut clip = init();
    set_copy(vec!["/a".to_string(), "/b".to_string()], &mut clip);
    let state = current(&clip);
    assert_eq!(state.mode, Some(ClipboardMode::Copy));
    assert_eq!(state.paths, vec!["/a".to_string(), "/b".to_string()]);

    clear(&mut clip);
    assert!(current(&clip).mode.is_none());
    assert!(current(&clip).paths.is_empty());
}

#[test]
fn set_cut_replaces_a_prior_copy() {
    let mut clip = init();
    set_copy(vec!["/a".to_string()], &mut clip);
    set_cut(vec!["/b".to_string()], &mut clip);
    let state = current(&clip);
    assert_eq!(state.mode, Some(ClipboardMode::Cut));
    assert_eq!(state.paths, vec!["/b".to_string()]);
    assert!(is_cut(&clip, "/b"));
    assert!(!is_cut(&clip, "/a"));
}

#[test]
fn copy_cut_and_paste_plans_follow_the_selection() {
    let mut pane = ExplorerPane::new("/dst".to_string());
    pane.entries = vec![FileEntry {
        name: "a.txt".to_string(),
        path: "/src/a.txt".to_string(),
        kind: "file".to_string(),
        size: 1,
        modified: 0,
    }];
    pane.apply_filter();
    let mut clip = init();
    assert!(!pane.copy_selection(&mut clip), "nothing selected");
    assert!(clip.mode.is_none());
    assert!(pane.paste_plan(&clip, false).is_none());
    pane.selection.select_single(0);
    assert!(pane.cut_selection(&mut clip));
    let plan = pane.paste_plan(&clip, false).unwrap();
    assert_eq!(plan.sources, vec!["/src/a.txt".to_string()]);
    assert_eq!(plan.destination, "/dst");
    assert_eq!(plan.mode, TransferMode::Move);
    assert!(plan.clear_after);
    assert!(pane.paste_plan(&clip, true).is_none(), "a conflict dialog blocks pasting");
    assert!(pane.copy_selection(&mut clip));
    assert_eq!(pane.paste_plan(&clip, false).unwrap().mode, TransferMode::Copy);
}

#[test]
fn copy_and_cut_take_selected_paths_in_row_order() {
    let mut pane = ExplorerPane::new("/w".to_string());
    let entry = |name: &str| FileEntry {
        name: name.to_string(),
        path: format!("/w/{name}"),
        kind: "file".to_string(),
        size: 1,
        modified: 0,
    };
    pane.listing_loaded(vec![entry("a"), entry("b"), entry("c")]);
    pane.selection.select_single(2);
    pane.selection.toggle_select(0);
    pane.selection.toggle_select(7);
    let mut clip = init();
    assert!(pane.copy_selection(&mut clip));
    assert_eq!(clip.paths, vec!["/w/a".to_string(), "/w/c".to_string()]);
    assert_eq!(clip.mode, Some(ClipboardMode::Copy));
    assert!(pane.cut_selection(&mut clip));
    assert_eq!(clip.paths, vec!["/w/a".to_string(), "/w/c".to_string()]);
    assert_eq!(clip.mode, Some(ClipboardMode::Cut));
    pane.selection.clear();
    pane.selection.toggle_select(9);
    assert!(!pane.cut_selection(&mut clip), "only rows outside the listing are selected");
    assert_eq!(clip.paths.len(), 2);
}
