use chronos_fm::selection::{completion_indices, selection_for_hits, Selection};
use std::collections::BTreeSet;

#[test]
fn plain_hits_replace_press_selection() {
    let base = BTreeSet::from([1, 4]);
    assert_eq!(selection_for_hits(&base, &[2, 3], false), BTreeSet::from([2, 3]));
}

#[test]
fn ctrl_hits_union_with_press_selection() {
    let base = BTreeSet::from([1, 4]);
    assert_eq!(selection_for_hits(&base, &[2, 4], true), BTreeSet::from([1, 2, 4]));
}

#[test]
fn completion_uses_stable_minimum_and_maximum_indices() {
    let hits = BTreeSet::from([5, 2, 9]);
    assert_eq!(completion_indices(&hits, false, None, None), (Some(2), Some(9)));
    assert_eq!(completion_indices(&hits, true, Some(7), Some(1)), (Some(7), Some(9)));
}

#[test]
fn additive_completion_keeps_anchor_and_active_without_new_hits() {
    let hits = BTreeSet::new();
    assert_eq!(completion_indices(&hits, true, Some(7), Some(1)), (Some(7), Some(1)));
}

#[test]
fn plain_completion_without_hits_clears_anchor_and_active() {
    assert_eq!(completion_indices(&BTreeSet::new(), false, Some(3), Some(4)), (None, None));
    assert_eq!(
        completion_indices(&BTreeSet::from([6]), true, None, Some(1)),
        (Some(6), Some(6))
    );
}

#[test]
fn range_and_toggle_selection() {
    let mut s = Selection::new();
    s.select_range_to(3);
    assert_eq!(s.selected, BTreeSet::from([3]));
    assert_eq!(s.anchor, Some(3));
    s.select_range_to(1);
    assert_eq!(s.selected, BTreeSet::from([1, 2, 3]));
    assert_eq!(s.anchor, Some(3));
    assert_eq!(s.active, Some(1));
    s.toggle_select(2);
    assert_eq!(s.selected, BTreeSet::from([1, 3]));
    s.toggle_select(2);
    assert_eq!(s.selected, BTreeSet::from([1, 2, 3]));
    assert!(s.is_selected(2));
    s.select_all(0);
    assert!(s.selected.is_empty());
    assert_eq!((s.anchor, s.active), (None, None));
}

#[test]
fn keyboard_moves_clamp_and_extend() {
    let mut s = Selection::new();
    s.move_active(3, false, 0);
    assert_eq!(s.active, None, "an empty listing is left alone");
    s.move_active(3, false, 10);
    assert_eq!(s.active, Some(0));
    s.move_active(3, true, 10);
    assert_eq!(s.selected, BTreeSet::from([0, 1, 2, 3]));
    s.move_active(-20, false, 10);
    assert_eq!(s.selected, BTreeSet::from([0]));
    s.move_active(100, false, 10);
    assert_eq!(s.active, Some(9));
}

#[test]
fn toggling_a_row_twice_restores_the_selection() {
    let mut sel = Selection::new();
    sel.select_single(1);
    sel.toggle_select(3);
    let before = sel.selected.clone();
    sel.toggle_select(2);
    sel.toggle_select(2);
    assert_eq!(sel.selected, before);
    sel.toggle_select(3);
    sel.toggle_select(3);
    assert_eq!(sel.selected, before);
}
