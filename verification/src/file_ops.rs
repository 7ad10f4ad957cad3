//! What the pane reports around its file operations: the confirmation
//! asked before deleting, the error statuses of failed renames, folder
//! creation and deletes, and finding the row of a newly created folder.

use vstd::prelude::*;
use crate::pane::{paths_of_rows, rows_in_listing, strictly_increasing, ExplorerPane, FileEntry};
use crate::text::{decimal, decimal_padded, push_str};

verus! {

/// `prefix` followed by `detail`.
fn prefixed_status(prefix: &str, detail: &str) -> (r: String)
    ensures
        r@ == prefix@ + detail@,
{
    let mut s = String::new();
    push_str(&mut s, prefix);
    push_str(&mut s, detail);
    s
}

/// The status after a failed rename: `Rename failed: <error>`.
pub fn rename_failure_status(error: &str) -> (r: String)
    ensures
        r@ == "Rename failed: "@ + error@,
{
    prefixed_status("Rename failed: ", error)
}

/// The status after a failed folder creation:
/// `Could not create folder: <error>`.
pub fn new_folder_failure_status(error: &str) -> (r: String)
    ensures
        r@ == "Could not create folder: "@ + error@,
{
    prefixed_status("Could not create folder: ", error)
}

/// `path: error` for each failed delete, joined with `, `.
pub open spec fn delete_error_list(errors: Seq<(String, String)>) -> Seq<char>
    decreases errors.len(),
{
    if errors.len() == 0 {
        Seq::empty()
    } else if errors.len() == 1 {
        errors[0].0@ + ": "@ + errors[0].1@
    } else {
        delete_error_list(errors.drop_last()) + ", "@ + errors.last().0@ + ": "@
            + errors.last().1@
    }
}

/// The status after deleting, given each path that could not be moved to
/// the trash with its error: `Could not delete: <path>: <error>, …`, or
/// `None` when every delete succeeded.
pub fn delete_failure_status(errors: &Vec<(String, String)>) -> (r: Option<String>)
    ensures
        errors@.len() == 0 ==> r is None,
        errors@.len() > 0 ==> (r matches Some(s) && s@ == "Could not delete: "@
            + delete_error_list(errors@)),
{
    if errors.len() == 0 {
        return None;
    }
    let mut list = String::new();
    let mut i: usize = 0;
    while i < errors.len()
        invariant
            i <= errors@.len(),
            list@ == delete_error_list(errors@.take(i as int)),
        decreases errors@.len() - i,
    {
        if i > 0 {
            push_str(&mut list, ", ");
        }
        push_str(&mut list, errors[i].0.as_str());
        push_str(&mut list, ": ");
        push_str(&mut list, errors[i].1.as_str());
        proof {
            reveal_strlit(", ");
            reveal_strlit(": ");
            assert(errors@.take(i + 1).drop_last() =~= errors@.take(i as int));
            assert(errors@.take(i + 1).last() == errors@[i as int]);
            if i == 0 {
                assert(errors@.take(1)[0] == errors@[0]);
            }
        }
        i = i + 1;
    }
    proof {
        assert(errors@.take(errors@.len() as int) =~= errors@);
    }
    Some(prefixed_status("Could not delete: ", list.as_str()))
}

/// The text of the dialog that confirms a delete of `count` items:
/// `<count> item(s) will be moved to Trash.`
pub fn delete_confirmation(count: usize) -> (r: String)
    ensures
        r@ == decimal(count as nat) + " item(s) will be moved to Trash."@,
{
    let mut s = decimal_padded(count as u64, 0);
    push_str(&mut s, " item(s) will be moved to Trash.");
    s
}

/// The first row whose path is exactly `path`, if any.
pub fn row_of_path(entries: &[FileEntry], path: &str) -> (r: Option<usize>)
    ensures
        match r {
            Some(ix) => ix < entries@.len() && entries@[ix as int].path@ == path@ && forall|j: int|
                0 <= j < ix ==> #[trigger] entries@[j].path@ != path@,
            None => forall|j: int| 0 <= j < entries@.len() ==> #[trigger] entries@[j].path@ != path@,
        },
{
    let mut i: usize = 0;
    while i < entries.len()
        invariant
            i <= entries@.len(),
            forall|j: int| 0 <= j < i ==> #[trigger] entries@[j].path@ != path@,
        decreases entries@.len() - i,
    {
        if crate::text::str_eq(entries[i].path.as_str(), path) {
            return Some(i);
        }
        i = i + 1;
    }
    None
}

/// Row `ix` is the first of `entries` whose path is `path`.
pub open spec fn first_row_with_path(entries: Seq<FileEntry>, path: Seq<char>, ix: int) -> bool {
    &&& 0 <= ix < entries.len()
    &&& entries[ix].path@ == path
    &&& forall|j: int| 0 <= j < ix ==> #[trigger] entries[j].path@ != path
}

impl ExplorerPane {
    /// What deleting the selection asks: the selected paths in row order
    /// and the confirmation text. Nothing is asked when nothing is
    /// selected or another dialog is open.
    pub fn delete_request(&self, dialog_open: bool) -> (r: Option<(Vec<String>, String)>)
        ensures
            match r {
                None => dialog_open || rows_in_listing(
                    self.selection.selected@,
                    self.filtered_entries@.len(),
                ).len() == 0,
                Some((paths, text)) => {
                    &&& !dialog_open
                    &&& paths@.len() > 0
                    &&& text@ == decimal(paths@.len() as nat) + " item(s) will be moved to Trash."@
                    &&& exists|rows: Seq<usize>|
                        strictly_increasing(rows) && rows.to_set() == rows_in_listing(
                            self.selection.selected@,
                            self.filtered_entries@.len(),
                        ) && paths@.map_values(|p: String| p@) == #[trigger] paths_of_rows(
                            self.filtered_entries@,
                            rows,
                        )
                },
            },
    {
        let paths = self.selected_paths();
        if paths.len() == 0 || dialog_open {
            proof {
                if !dialog_open {
                    let rows = choose|rows: Seq<usize>|
                        strictly_increasing(rows) && rows.to_set() == rows_in_listing(
                            self.selection.selected@,
                            self.filtered_entries@.len(),
                        ) && paths@.map_values(|p: String| p@) == #[trigger] paths_of_rows(
                            self.filtered_entries@,
                            rows,
                        );
                    assert(paths@.map_values(|p: String| p@).len() == 0);
                    assert(paths_of_rows(self.filtered_entries@, rows).len() == rows.len());
                    assert(rows =~= Seq::<usize>::empty());
                    assert(rows.to_set() =~= Set::<usize>::empty());
                }
            }
            return None;
        }
        let text = delete_confirmation(paths.len());
        Some((paths, text))
    }

    /// After a folder was created at `path` and the listing read again: its
    /// row, when shown, enters inline rename (unless a rename is already
    /// under way). Returns whether the rename started.
    pub fn rename_new_folder(&mut self, path: &str) -> (started: bool)
        ensures
            forall|ix: int|
                #![trigger first_row_with_path(old(self).filtered_entries@, path@, ix)]
                first_row_with_path(old(self).filtered_entries@, path@, ix) ==> {
                    &&& started == old(self).renaming is None
                    &&& started ==> *final(self) == (ExplorerPane {
                        renaming: Some(ix as usize),
                        ..*old(self)
                    })
                },
            !started ==> *final(self) == *old(self),
            (forall|j: int|
                0 <= j < old(self).filtered_entries@.len()
                    ==> #[trigger] old(self).filtered_entries@[j].path@ != path@) ==> !started,
    {
        match row_of_path(self.filtered_entries.as_slice(), path) {
            Some(ix) => self.begin_rename(ix),
            None => false,
        }
    }
}

} // verus!
