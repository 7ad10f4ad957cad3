//! The explorer's file clipboard, shared by all panes and tabs so a copy in
//! one pane can be pasted in another: the paths on it, whether they were
//! copied or cut, and what a paste of them does.

use vstd::prelude::*;
use crate::pane::{paths_of_rows, rows_in_listing, strictly_increasing, ExplorerPane};
use crate::undo::TransferMode;

verus! {

/// Whether clipboard paths were copied (kept at the source) or cut
/// (removed from the source once pasted).
#[derive(Clone, Copy, PartialEq, Eq, Debug, Structural)]
pub enum ClipboardMode {
    /// Paste duplicates the source; the source is left in place.
    Copy,
    /// Paste moves the source; the source is removed once the paste succeeds.
    Cut,
}

/// The clipboard contents: zero or more absolute paths and whether they
/// were copied or cut (`None` when empty).
#[derive(Clone, Debug, Default, PartialEq)]
pub struct FileClipboard {
    /// Absolute paths of the files and directories on the clipboard.
    pub paths: Vec<String>,
    /// How the paths were placed on the clipboard, or `None` when empty.
    pub mode: Option<ClipboardMode>,
}

/// The empty clipboard every window starts with.
pub fn init() -> (r: FileClipboard)
    ensures
        r.paths@.len() == 0,
        r.mode is None,
{
    FileClipboard { paths: Vec::new(), mode: None }
}

/// Replaces the clipboard with `paths` in Copy mode.
pub fn set_copy(paths: Vec<String>, clipboard: &mut FileClipboard)
    ensures
        final(clipboard).paths == paths,
        final(clipboard).mode == Some(ClipboardMode::Copy),
{
    *clipboard = FileClipboard { paths, mode: Some(ClipboardMode::Copy) };
}

/// Replaces the clipboard with `paths` in Cut mode.
pub fn set_cut(paths: Vec<String>, clipboard: &mut FileClipboard)
    ensures
        final(clipboard).paths == paths,
        final(clipboard).mode == Some(ClipboardMode::Cut),
{
    *clipboard = FileClipboard { paths, mode: Some(ClipboardMode::Cut) };
}

/// Empties the clipboard.
pub fn clear(clipboard: &mut FileClipboard)
    ensures
        final(clipboard).paths@.len() == 0,
        final(clipboard).mode is None,
{
    *clipboard = FileClipboard { paths: Vec::new(), mode: None };
}

/// A copy of the current clipboard contents.
pub fn current(clipboard: &FileClipboard) -> (r: FileClipboard)
    ensures
        r.paths@.map_values(|p: String| p@) == clipboard.paths@.map_values(|p: String| p@),
        r.mode == clipboard.mode,
{
    let mut paths: Vec<String> = Vec::new();
    let mut i: usize = 0;
    while i < clipboard.paths.len()
        invariant
            i <= clipboard.paths@.len(),
            paths@.map_values(|p: String| p@) == clipboard.paths@.take(i as int).map_values(
                |p: String| p@,
            ),
        decreases clipboard.paths@.len() - i,
    {
        let ghost before = paths@;
        paths.push(clipboard.paths[i].clone());
        proof {
            assert(clipboard.paths@.take(i + 1) =~= clipboard.paths@.take(i as int).push(
                clipboard.paths@[i as int],
            ));
            assert(paths@.map_values(|p: String| p@) =~= before.map_values(|p: String| p@).push(
                clipboard.paths@[i as int]@,
            ));
        }
        i = i + 1;
    }
    proof {
        assert(clipboard.paths@.take(clipboard.paths@.len() as int) =~= clipboard.paths@);
    }
    FileClipboard { paths, mode: clipboard.mode }
}

/// Whether `path` is on the clipboard as cut, which the listing shows
/// dimmed.
pub fn is_cut(clipboard: &FileClipboard, path: &str) -> (r: bool)
    ensures
        r == (clipboard.mode == Some(ClipboardMode::Cut) && exists|k: int|
            0 <= k < clipboard.paths@.len() && #[trigger] clipboard.paths@[k]@ == path@),
{
    if clipboard.mode != Some(ClipboardMode::Cut) {
        return false;
    }
    let mut k: usize = 0;
    while k < clipboard.paths.len()
        invariant
            clipboard.mode == Some(ClipboardMode::Cut),
            k <= clipboard.paths@.len(),
            forall|j: int| 0 <= j < k ==> #[trigger] clipboard.paths@[j]@ != path@,
        decreases clipboard.paths@.len() - k,
    {
        if crate::text::str_eq(clipboard.paths[k].as_str(), path) {
            return true;
        }
        k = k + 1;
    }
    false
}

/// The transfer a paste performs for a clipboard mode: a copy copies, a cut
/// moves.
pub open spec fn paste_mode_of(mode: ClipboardMode) -> TransferMode {
    match mode {
        ClipboardMode::Copy => TransferMode::Copy,
        ClipboardMode::Cut => TransferMode::Move,
    }
}

/// A paste to perform: the clipboard's paths into the current directory.
#[derive(Clone, Debug)]
pub struct PastePlan {
    /// The clipboard paths, in order.
    pub sources: Vec<String>,
    /// The directory pasted into.
    pub destination: String,
    /// Copy or move.
    pub mode: TransferMode,
    /// Whether the clipboard empties once the paste completes (a cut).
    pub clear_after: bool,
}

/// The selected paths of a pane are empty exactly when no shown row is
/// selected.
proof fn lemma_selected_paths_empty(pane: &ExplorerPane, paths: Seq<String>)
    requires
        exists|rows: Seq<usize>|
            strictly_increasing(rows) && rows.to_set() == rows_in_listing(
                pane.selection.selected@,
                pane.filtered_entries@.len(),
            ) && paths.map_values(|p: String| p@) == #[trigger] paths_of_rows(
                pane.filtered_entries@,
                rows,
            ),
    ensures
        (paths.len() == 0) == (rows_in_listing(
            pane.selection.selected@,
            pane.filtered_entries@.len(),
        ) == Set::<usize>::empty()),
{
    let rows = choose|rows: Seq<usize>|
        strictly_increasing(rows) && rows.to_set() == rows_in_listing(
            pane.selection.selected@,
            pane.filtered_entries@.len(),
        ) && paths.map_values(|p: String| p@) == #[trigger] paths_of_rows(
            pane.filtered_entries@,
            rows,
        );
    assert(paths.map_values(|p: String| p@).len() == paths.len());
    assert(paths_of_rows(pane.filtered_entries@, rows).len() == rows.len());
    if rows.len() == 0 {
        assert(rows =~= Seq::<usize>::empty());
        assert(rows.to_set() =~= Set::<usize>::empty());
    } else {
        assert(rows.to_set().contains(rows[0]));
    }
}

impl ExplorerPane {
    /// Puts the selected rows' paths on the clipboard as a copy; with
    /// nothing selected the clipboard is left alone. Returns whether it
    /// changed.
    pub fn copy_selection(&self, clipboard: &mut FileClipboard) -> (changed: bool)
        ensures
            changed == (rows_in_listing(self.selection.selected@, self.filtered_entries@.len())
                != Set::<usize>::empty()),
            !changed ==> *final(clipboard) == *old(clipboard),
            changed ==> {
                &&& final(clipboard).mode == Some(ClipboardMode::Copy)
                &&& exists|rows: Seq<usize>|
                    strictly_increasing(rows) && rows.to_set() == rows_in_listing(
                        self.selection.selected@,
                        self.filtered_entries@.len(),
                    ) && final(clipboard).paths@.map_values(|p: String| p@)
                        == #[trigger] paths_of_rows(self.filtered_entries@, rows)
            },
    {
        let paths = self.selected_paths();
        proof {
            lemma_selected_paths_empty(self, paths@);
        }
        if paths.len() == 0 {
            return false;
        }
        set_copy(paths, clipboard);
        true
    }

    /// Puts the selected rows' paths on the clipboard as a cut; with
    /// nothing selected the clipboard is left alone. Returns whether it
    /// changed.
    pub fn cut_selection(&self, clipboard: &mut FileClipboard) -> (changed: bool)
        ensures
            changed == (rows_in_listing(self.selection.selected@, self.filtered_entries@.len())
                != Set::<usize>::empty()),
            !changed ==> *final(clipboard) == *old(clipboard),
            changed ==> {
                &&& final(clipboard).mode == Some(ClipboardMode::Cut)
                &&& exists|rows: Seq<usize>|
                    strictly_increasing(rows) && rows.to_set() == rows_in_listing(
                        self.selection.selected@,
                        self.filtered_entries@.len(),
                    ) && final(clipboard).paths@.map_values(|p: String| p@)
                        == #[trigger] paths_of_rows(self.filtered_entries@, rows)
            },
    {
        let paths = self.selected_paths();
        proof {
            lemma_selected_paths_empty(self, paths@);
        }
        if paths.len() == 0 {
            return false;
        }
        set_cut(paths, clipboard);
        true
    }

    /// What a paste into this pane does: nothing while a conflict dialog is
    /// open or the clipboard is empty; otherwise every clipboard path is
    /// transferred into the current directory, copied or moved as the
    /// clipboard says, a cut emptying the clipboard afterwards.
    pub fn paste_plan(&self, clipboard: &FileClipboard, conflict_dialog_open: bool) -> (r: Option<
        PastePlan,
    >)
        ensures
            (conflict_dialog_open || clipboard.mode is None) ==> r is None,
            !conflict_dialog_open && clipboard.mode is Some ==> (r matches Some(p) && p.sources@.map_values(
                |s: String| s@,
            ) == clipboard.paths@.map_values(|s: String| s@) && p.destination@ == self.nav.cwd@
                && p.mode == paste_mode_of(clipboard.mode->0) && p.clear_after == (
            clipboard.mode->0 == ClipboardMode::Cut)),
    {
        if conflict_dialog_open {
            return None;
        }
        let mode = match clipboard.mode {
            Some(m) => m,
            None => {
                return None;
            },
        };
        let copy = current(clipboard);
        let transfer = match mode {
            ClipboardMode::Copy => TransferMode::Copy,
            ClipboardMode::Cut => TransferMode::Move,
        };
        Some(
            PastePlan {
                sources: copy.paths,
                destination: self.nav.cwd.clone(),
                mode: transfer,
                clear_after: mode == ClipboardMode::Cut,
            },
        )
    }
}

} // verus!
