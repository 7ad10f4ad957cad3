//! Dragging files between panes and in from the desktop: the operation the
//! modifiers select, whether a payload may land on a destination, what a
//! pane does when a drop starts and completes, and the status text of
//! transfers that partly failed.

use vstd::prelude::*;
use crate::file_ops::{first_row_with_path, row_of_path};
use crate::pane::{
    entry_paths, paths_of_rows, rows_in_listing, strictly_increasing, ExplorerPane, StatusLevel,
    StatusMessage,
};
use crate::paths::{components, file_name, path_eq, path_file_name, path_starts_with, starts_with};
use crate::text::{decimal, decimal_padded, opt_chars, push_str};
use crate::undo::{transfer_entry, TransferFailure, TransferMode, TransferReport, UndoEntry};

verus! {

broadcast use {vstd::std_specs::btree::group_btree_axioms, vstd::laws_cmp::group_laws_cmp};

/// The file operation of a drop, chosen by the modifiers held at mouse-up.
#[derive(Clone, Copy, PartialEq, Eq, Debug, Structural)]
pub enum DropMode {
    Move,
    Copy,
}

/// The operation for the modifiers held when the drop lands: Ctrl (or the
/// platform key) copies, otherwise the files move.
pub fn drop_mode(control: bool, platform: bool) -> (r: DropMode)
    ensures
        r == (if control || platform {
            DropMode::Copy
        } else {
            DropMode::Move
        }),
{
    if control || platform {
        DropMode::Copy
    } else {
        DropMode::Move
    }
}

/// The transfer mode of a drop mode.
pub open spec fn transfer_mode_of(mode: DropMode) -> TransferMode {
    match mode {
        DropMode::Move => TransferMode::Move,
        DropMode::Copy => TransferMode::Copy,
    }
}

impl From<DropMode> for TransferMode {
    fn from(mode: DropMode) -> (r: Self) {
        match mode {
            DropMode::Move => TransferMode::Move,
            DropMode::Copy => TransferMode::Copy,
        }
    }
}

impl vstd::std_specs::convert::FromSpecImpl<DropMode> for TransferMode {
    open spec fn obeys_from_spec() -> bool {
        true
    }

    open spec fn from_spec(mode: DropMode) -> TransferMode {
        transfer_mode_of(mode)
    }
}

/// The surface that supplied a drop destination.
#[derive(Clone, Copy, PartialEq, Eq, Debug, Structural)]
pub enum DropTargetKind {
    FolderItem,
    ListingCwd,
    BreadcrumbCwd,
}

/// A concrete local directory receiving a drop, and the surface it came
/// from.
#[derive(Clone, Debug, PartialEq, Eq)]
pub struct DropTarget {
    pub directory: String,
    pub kind: DropTargetKind,
}

/// Why a payload cannot be dropped on a destination.
#[derive(Clone, Debug, PartialEq, Eq)]
pub enum DropValidationError {
    EmptyPayload,
    DestinationNotDirectory,
    SourceUnavailable(String),
    SourceIsDestination(String),
    DirectoryContainsDestination(String),
    SameParentMove(String),
}

/// The message of a validation error.
pub open spec fn validation_text(e: DropValidationError) -> Seq<char> {
    match e {
        DropValidationError::EmptyPayload => "the drop contains no local paths"@,
        DropValidationError::DestinationNotDirectory => "the drop destination is not a directory"@,
        DropValidationError::SourceUnavailable(p) => "source is unavailable: "@ + p@,
        DropValidationError::SourceIsDestination(p) => "source is the drop destination: "@ + p@,
        DropValidationError::DirectoryContainsDestination(p) =>
            "a directory cannot be dropped into itself: "@ + p@,
        DropValidationError::SameParentMove(p) => "source is already in the destination: "@ + p@,
    }
}

fn prefixed(prefix: &str, p: &String) -> (r: String)
    ensures
        r@ == prefix@ + p@,
{
    let mut s = prefix.to_string();
    push_str(&mut s, p.as_str());
    s
}

impl DropValidationError {
    /// The message shown for this error.
    pub fn message(&self) -> (r: String)
        ensures
            r@ == validation_text(*self),
    {
        match self {
            DropValidationError::EmptyPayload => "the drop contains no local paths".to_string(),
            DropValidationError::DestinationNotDirectory =>
                "the drop destination is not a directory".to_string(),
            DropValidationError::SourceUnavailable(p) => prefixed("source is unavailable: ", p),
            DropValidationError::SourceIsDestination(p) => prefixed(
                "source is the drop destination: ",
                p,
            ),
            DropValidationError::DirectoryContainsDestination(p) => prefixed(
                "a directory cannot be dropped into itself: ",
                p,
            ),
            DropValidationError::SameParentMove(p) => prefixed(
                "source is already in the destination: ",
                p,
            ),
        }
    }
}

/// One dragged path as the file system resolved it.
#[derive(Clone, Debug, PartialEq, Eq)]
pub struct ResolvedSource {
    /// The path as dragged.
    pub path: String,
    /// Its canonical form, or `None` when it cannot be resolved.
    pub canonical: Option<String>,
    /// The canonical form of its parent directory (the parent of the path
    /// as dragged, so a symlink's own directory), or `None` when it has no
    /// parent or the parent cannot be resolved.
    pub parent_canonical: Option<String>,
    /// Whether the canonical path is a directory.
    pub is_dir: bool,
}

/// The first reason, if any, that source `s` cannot be dropped into the
/// canonical directory `dest`.
pub open spec fn source_problem(s: ResolvedSource, dest: Seq<char>, mode: DropMode) -> Option<
    DropValidationError,
> {
    match (s.parent_canonical, s.canonical) {
        (Some(parent), Some(source)) => if components(source@) == components(dest) {
            Some(DropValidationError::SourceIsDestination(s.path))
        } else if s.is_dir && path_starts_with(dest, source@) {
            Some(DropValidationError::DirectoryContainsDestination(s.path))
        } else if mode == DropMode::Move && components(parent@) == components(dest) {
            Some(DropValidationError::SameParentMove(s.path))
        } else {
            None
        },
        _ => Some(DropValidationError::SourceUnavailable(s.path)),
    }
}

/// The first problem among `sources` from index `i` on.
pub open spec fn first_problem(
    sources: Seq<ResolvedSource>,
    dest: Seq<char>,
    mode: DropMode,
    i: int,
) -> Option<DropValidationError>
    decreases sources.len() - i,
{
    if i < 0 || i >= sources.len() {
        None
    } else {
        match source_problem(sources[i], dest, mode) {
            Some(e) => Some(e),
            None => first_problem(sources, dest, mode, i + 1),
        }
    }
}

/// The verdict on dropping `sources` into `destination` (the canonical
/// destination directory, `None` when it cannot be resolved or is not a
/// directory).
pub open spec fn drop_verdict(
    sources: Seq<ResolvedSource>,
    destination: Option<Seq<char>>,
    mode: DropMode,
) -> Result<(), DropValidationError> {
    if sources.len() == 0 {
        Err(DropValidationError::EmptyPayload)
    } else {
        match destination {
            None => Err(DropValidationError::DestinationNotDirectory),
            Some(d) => match first_problem(sources, d, mode, 0) {
                Some(e) => Err(e),
                None => Ok(()),
            },
        }
    }
}

fn check_source(s: &ResolvedSource, dest: &str, mode: DropMode) -> (r: Option<
    DropValidationError,
>)
    ensures
        r == source_problem(*s, dest@, mode),
{
    match (&s.parent_canonical, &s.canonical) {
        (Some(parent), Some(source)) => {
            if path_eq(source.as_str(), dest) {
                Some(DropValidationError::SourceIsDestination(s.path.clone()))
            } else if s.is_dir && starts_with(dest, source.as_str()) {
                Some(DropValidationError::DirectoryContainsDestination(s.path.clone()))
            } else if mode == DropMode::Move && path_eq(parent.as_str(), dest) {
                Some(DropValidationError::SameParentMove(s.path.clone()))
            } else {
                None
            }
        },
        _ => Some(DropValidationError::SourceUnavailable(s.path.clone())),
    }
}

/// Validates a whole payload against one destination: an empty payload, a
/// destination that is not a directory, or any source that is unavailable,
/// is the destination, is a directory containing it, or (for a move)
/// already lies in it, rejects the entire drop with the first such reason.
/// Paths are compared component by component, never as strings.
pub fn validate_drop(sources: &[ResolvedSource], destination: Option<&str>, mode: DropMode) -> (r:
    Result<(), DropValidationError>)
    ensures
        r == drop_verdict(sources@, opt_chars(destination), mode),
{
    if sources.len() == 0 {
        return Err(DropValidationError::EmptyPayload);
    }
    let dest = match destination {
        Some(d) => d,
        None => {
            return Err(DropValidationError::DestinationNotDirectory);
        },
    };
    let mut i: usize = 0;
    while i < sources.len()
        invariant
            i <= sources@.len(),
            sources@.len() > 0,
            opt_chars(destination) == Some(dest@),
            first_problem(sources@, dest@, mode, 0) == first_problem(sources@, dest@, mode, i as int),
        decreases sources@.len() - i,
    {
        match check_source(&sources[i], dest, mode) {
            Some(e) => {
                proof {
                    assert(first_problem(sources@, dest@, mode, i as int) == Some(e));
                    assert(drop_verdict(sources@, opt_chars(destination), mode) == Err::<
                        (),
                        DropValidationError,
                    >(e));
                }
                return Err(e);
            },
            None => {
                proof {
                    assert(first_problem(sources@, dest@, mode, i as int) == first_problem(
                        sources@,
                        dest@,
                        mode,
                        i + 1,
                    ));
                }
            },
        }
        i = i + 1;
    }
    proof {
        assert(first_problem(sources@, dest@, mode, i as int) is None);
    }
    Ok(())
}

/// The name a failed source is reported under: its final name, or the
/// whole path when it has none.
pub open spec fn failure_name(source: Seq<char>) -> Seq<char> {
    match file_name(source) {
        Some(n) => n,
        None => source,
    }
}

/// `name: error` for each failure, joined with `, `.
pub open spec fn failure_list(fs: Seq<TransferFailure>) -> Seq<char>
    decreases fs.len(),
{
    if fs.len() == 0 {
        Seq::empty()
    } else if fs.len() == 1 {
        failure_name(fs[0].source@) + ": "@ + fs[0].error@
    } else {
        failure_list(fs.drop_last()) + ", "@ + failure_name(fs.last().source@) + ": "@
            + fs.last().error@
    }
}

/// The failures of a transfer, listed as in its status text.
fn format_failures(fs: &Vec<TransferFailure>) -> (r: String)
    ensures
        r@ == failure_list(fs@),
{
    let mut s = String::new();
    let mut i: usize = 0;
    while i < fs.len()
        invariant
            i <= fs@.len(),
            s@ == failure_list(fs@.take(i as int)),
        decreases fs@.len() - i,
    {
        let f = &fs[i];
        if i > 0 {
            push_str(&mut s, ", ");
        }
        match path_file_name(f.source.as_str()) {
            Some(n) => push_str(&mut s, n.as_str()),
            None => push_str(&mut s, f.source.as_str()),
        }
        push_str(&mut s, ": ");
        push_str(&mut s, f.error.as_str());
        proof {
            reveal_strlit(", ");
            reveal_strlit(": ");
            assert(fs@.take(i + 1).drop_last() =~= fs@.take(i as int));
            assert(fs@.take(i + 1).last() == fs@[i as int]);
            if i == 0 {
                assert(fs@.take(1)[0] == fs@[0]);
            }
        }
        i = i + 1;
    }
    proof {
        assert(fs@.take(fs@.len() as int) =~= fs@);
    }
    s
}

/// The status of a drop that had failures: `Drop failed: F failed; …`
/// when nothing transferred, else `Drop partially completed: S succeeded,
/// F failed; …`, the failures listed by name and error. `None` when
/// nothing failed.
pub open spec fn drop_failure_text(successes: nat, fs: Seq<TransferFailure>) -> Option<Seq<char>> {
    if fs.len() == 0 {
        None
    } else if successes == 0 {
        Some("Drop failed: "@ + decimal(fs.len()) + " failed; "@ + failure_list(fs))
    } else {
        Some(
            "Drop partially completed: "@ + decimal(successes) + " succeeded, "@ + decimal(
                fs.len(),
            ) + " failed; "@ + failure_list(fs),
        )
    }
}

/// Status text for a drop whose transfer had failures (see
/// [`drop_failure_text`]).
pub fn drop_failure_status(report: &TransferReport) -> (r: Option<String>)
    ensures
        match r {
            Some(s) => drop_failure_text(report.successes@.len(), report.failures@) == Some(s@),
            None => drop_failure_text(report.successes@.len(), report.failures@) is None,
        },
{
    let success_count = report.successes.len();
    let failure_count = report.failures.len();
    if failure_count == 0 {
        return None;
    }
    let failures = format_failures(&report.failures);
    let mut s = String::new();
    if success_count == 0 {
        push_str(&mut s, "Drop failed: ");
        push_str(&mut s, decimal_padded(failure_count as u64, 0).as_str());
        push_str(&mut s, " failed; ");
    } else {
        push_str(&mut s, "Drop partially completed: ");
        push_str(&mut s, decimal_padded(success_count as u64, 0).as_str());
        push_str(&mut s, " succeeded, ");
        push_str(&mut s, decimal_padded(failure_count as u64, 0).as_str());
        push_str(&mut s, " failed; ");
    }
    push_str(&mut s, failures.as_str());
    proof {
        reveal_strlit("Drop failed: ");
        reveal_strlit(" failed; ");
        reveal_strlit("Drop partially completed: ");
        reveal_strlit(" succeeded, ");
    }
    Some(s)
}

/// The status of a paste that had failures:
/// `Paste failed: S succeeded, F failed; …`. `None` when nothing failed.
pub open spec fn paste_failure_text(successes: nat, fs: Seq<TransferFailure>) -> Option<Seq<char>> {
    if fs.len() == 0 {
        None
    } else {
        Some(
            "Paste failed: "@ + decimal(successes) + " succeeded, "@ + decimal(fs.len())
                + " failed; "@ + failure_list(fs),
        )
    }
}

/// Status text for a paste whose transfer had failures (see
/// [`paste_failure_text`]).
pub fn paste_failure_status(report: &TransferReport) -> (r: Option<String>)
    ensures
        match r {
            Some(s) => paste_failure_text(report.successes@.len(), report.failures@) == Some(s@),
            None => paste_failure_text(report.successes@.len(), report.failures@) is None,
        },
{
    let success_count = report.successes.len();
    let failure_count = report.failures.len();
    if failure_count == 0 {
        return None;
    }
    let failures = format_failures(&report.failures);
    let mut s = String::new();
    push_str(&mut s, "Paste failed: ");
    push_str(&mut s, decimal_padded(success_count as u64, 0).as_str());
    push_str(&mut s, " succeeded, ");
    push_str(&mut s, decimal_padded(failure_count as u64, 0).as_str());
    push_str(&mut s, " failed; ");
    push_str(&mut s, failures.as_str());
    proof {
        reveal_strlit("Paste failed: ");
        reveal_strlit(" succeeded, ");
        reveal_strlit(" failed; ");
    }
    Some(s)
}

/// What a pane does once a drop's transfer has finished.
#[derive(Debug)]
pub struct DropCompletion {
    /// The destinations that were written, to select once listed.
    pub destinations: Vec<String>,
    /// The error status to show, if anything failed.
    pub failure_status: Option<String>,
    /// The undo entry for the whole gesture, if anything is undoable.
    pub undo_entry: Option<UndoEntry>,
    /// Whether the source pane reloads and drops its selection (a move
    /// between two panes that moved something).
    pub reload_source: bool,
}

/// The destinations of a transfer's successes, in order.
pub open spec fn success_destinations(report: TransferReport) -> Seq<Seq<char>> {
    report.successes@.map_values(|s: crate::undo::TransferSuccess| s.destination@)
}

/// The follow-up of a finished drop: the written destinations, the failure
/// status, one undo entry for the gesture, and whether the source pane
/// reloads: only for a move between different panes that moved something
/// (an external drop has no source pane).
pub fn drop_completion(report: &TransferReport, mode: DropMode, same_pane: bool, external: bool) -> (r:
    DropCompletion)
    ensures
        r.destinations@.map_values(|d: String| d@) == success_destinations(*report),
        match r.failure_status {
            Some(s) => drop_failure_text(report.successes@.len(), report.failures@) == Some(s@),
            None => drop_failure_text(report.successes@.len(), report.failures@) is None,
        },
        r.reload_source == (!same_pane && !external && mode == DropMode::Move
            && report.successes@.len() > 0),
        crate::undo::undoable_pairs(report.successes@).len() == 0 ==> r.undo_entry is None,
        crate::undo::undoable_pairs(report.successes@).len() > 0 ==> match r.undo_entry {
            Some(UndoEntry::Copy { items }) => mode == DropMode::Copy
                && crate::undo::pairs_view(items@) == crate::undo::undoable_pairs(
                report.successes@,
            ),
            Some(UndoEntry::Move { items }) => mode == DropMode::Move
                && crate::undo::pairs_view(items@) == crate::undo::undoable_pairs(
                report.successes@,
            ),
            _ => false,
        },
{
    let mut destinations: Vec<String> = Vec::new();
    let mut i: usize = 0;
    while i < report.successes.len()
        invariant
            i <= report.successes@.len(),
            destinations@.map_values(|d: String| d@) == report.successes@.take(
                i as int,
            ).map_values(|s: crate::undo::TransferSuccess| s.destination@),
        decreases report.successes@.len() - i,
    {
        let ghost before = destinations@;
        destinations.push(report.successes[i].destination.clone());
        proof {
            assert(report.successes@.take(i + 1) =~= report.successes@.take(i as int).push(
                report.successes@[i as int],
            ));
            assert(destinations@.map_values(|d: String| d@) =~= before.map_values(
                |d: String| d@,
            ).push(report.successes@[i as int].destination@));
        }
        i = i + 1;
    }
    proof {
        assert(report.successes@.take(report.successes@.len() as int) =~= report.successes@);
    }
    let failure_status = drop_failure_status(report);
    let undo_entry = transfer_entry(report, TransferMode::from(mode));
    let reload_source = !same_pane && !external && mode == DropMode::Move
        && report.successes.len() > 0;
    DropCompletion { destinations, failure_status, undo_entry, reload_source }
}

/// Whether a shown row's path is one of `destinations`.
pub open spec fn among(path: Seq<char>, destinations: Seq<Seq<char>>) -> bool {
    exists|k: int| 0 <= k < destinations.len() && components(destinations[k]) == components(path)
}

fn is_among(path: &str, destinations: &[String]) -> (r: bool)
    ensures
        r == among(path@, destinations@.map_values(|d: String| d@)),
{
    let ghost ds = destinations@.map_values(|d: String| d@);
    let mut k: usize = 0;
    while k < destinations.len()
        invariant
            ds == destinations@.map_values(|d: String| d@),
            k <= destinations@.len(),
            forall|j: int| 0 <= j < k ==> components(#[trigger] ds[j]) != components(path@),
        decreases destinations@.len() - k,
    {
        if path_eq(destinations[k].as_str(), path) {
            proof {
                assert(components(ds[k as int]) == components(path@));
            }
            return true;
        }
        k = k + 1;
    }
    false
}

/// A payload is dropped whole or not at all: when any source has a
/// problem, the drop is refused.
pub proof fn law_mixed_payload_rejected(
    sources: Seq<ResolvedSource>,
    destination: Seq<char>,
    mode: DropMode,
    bad: int,
)
    requires
        0 <= bad < sources.len(),
        source_problem(sources[bad], destination, mode) is Some,
    ensures
        drop_verdict(sources, Some(destination), mode) is Err,
{
    lemma_first_problem_found(sources, destination, mode, 0, bad);
}

proof fn lemma_first_problem_found(
    sources: Seq<ResolvedSource>,
    dest: Seq<char>,
    mode: DropMode,
    i: int,
    bad: int,
)
    requires
        0 <= i <= bad < sources.len(),
        source_problem(sources[bad], dest, mode) is Some,
    ensures
        first_problem(sources, dest, mode, i) is Some,
    decreases bad - i,
{
    if i < bad {
        lemma_first_problem_found(sources, dest, mode, i + 1, bad);
    }
}

impl ExplorerPane {
    /// The paths a drag started on row `index` (showing `item_path`)
    /// carries: nothing when the pane lists a virtual file system or the
    /// row is being renamed; the whole selection, in row order, when the
    /// row is selected; otherwise just the row.
    pub fn drag_paths(&self, index: usize, item_path: &str) -> (r: Option<Vec<String>>)
        ensures
            (self.provider_backed || self.renaming == Some(index)) ==> r is None,
            !(self.provider_backed || self.renaming == Some(index)) ==> match r {
                None => false,
                Some(v) => if self.selection.selected@.contains(index) {
                    exists|rows: Seq<usize>|
                        strictly_increasing(rows) && rows.to_set() == rows_in_listing(
                            self.selection.selected@,
                            self.filtered_entries@.len(),
                        ) && v@.map_values(|p: String| p@) == #[trigger] paths_of_rows(
                            self.filtered_entries@,
                            rows,
                        )
                } else {
                    v@.len() == 1 && v@[0]@ == item_path@
                },
            },
    {
        if self.provider_backed {
            return None;
        }
        if let Some(r) = self.renaming {
            if r == index {
                return None;
            }
        }
        if self.is_selected(index) {
            Some(self.selected_paths())
        } else {
            let mut v: Vec<String> = Vec::new();
            v.push(item_path.to_string());
            Some(v)
        }
    }

    /// When a drag really starts from the entry at `initiating_path`: the
    /// first shown row with that path becomes the only selection unless it
    /// is selected already. Returns whether the selection changed.
    pub fn activate_drag(&mut self, initiating_path: &str) -> (changed: bool)
        ensures
            forall|ix: int|
                #![trigger first_row_with_path(old(self).filtered_entries@, initiating_path@, ix)]
                first_row_with_path(old(self).filtered_entries@, initiating_path@, ix) ==> {
                    if old(self).selection.selected@.contains(ix as usize) {
                        !changed && *final(self) == *old(self)
                    } else {
                        &&& changed
                        &&& final(self).selection.selected@ == set![ix as usize]
                        &&& final(self).selection.anchor == Some(ix as usize)
                        &&& final(self).selection.active == Some(ix as usize)
                        &&& *final(self) == (ExplorerPane {
                            selection: final(self).selection,
                            ..*old(self)
                        })
                    }
                },
            (forall|j: int|
                0 <= j < old(self).filtered_entries@.len()
                    ==> #[trigger] old(self).filtered_entries@[j].path@ != initiating_path@)
                ==> !changed && *final(self) == *old(self),
    {
        match row_of_path(self.filtered_entries.as_slice(), initiating_path) {
            Some(ix) => {
                if self.is_selected(ix) {
                    false
                } else {
                    self.selection.select_single(ix);
                    true
                }
            },
            None => false,
        }
    }

    /// Selects the shown rows whose paths are among `destinations` (by
    /// path components): the selection becomes exactly those rows, the
    /// first of them anchors and the last is active; with none, nothing is
    /// selected.
    pub fn select_visible_destinations(&mut self, destinations: &[String])
        ensures
            forall|ix: usize|
                final(self).selection.selected@.contains(ix) <==> (ix < old(
                    self,
                ).filtered_entries@.len() && among(
                    old(self).filtered_entries@[ix as int].path@,
                    destinations@.map_values(|d: String| d@),
                )),
            final(self).selection.anchor matches Some(a) ==> final(self).selection.selected@.contains(a)
                && forall|ix: usize| #[trigger] final(self).selection.selected@.contains(ix) ==> a <= ix,
            final(self).selection.active matches Some(b) ==> final(self).selection.selected@.contains(b)
                && forall|ix: usize| #[trigger] final(self).selection.selected@.contains(ix) ==> ix <= b,
            final(self).selection.selected@.is_empty() <==> final(self).selection.anchor is None,
            final(self).selection.selected@.is_empty() <==> final(self).selection.active is None,
            *final(self) == (ExplorerPane { selection: final(self).selection, ..*old(self) }),
    {
        self.selection.clear();
        let n = self.filtered_entries.len();
        let ghost ds = destinations@.map_values(|d: String| d@);
        let mut index: usize = 0;
        while index < n
            invariant
                n == self.filtered_entries@.len(),
                *self == (ExplorerPane { selection: self.selection, ..*old(self) }),
                ds == destinations@.map_values(|d: String| d@),
                index <= n,
                forall|ix: usize|
                    self.selection.selected@.contains(ix) <==> (ix < index && among(
                        self.filtered_entries@[ix as int].path@,
                        ds,
                    )),
                self.selection.anchor matches Some(a) ==> self.selection.selected@.contains(a)
                    && forall|ix: usize| #[trigger] self.selection.selected@.contains(ix) ==> a <= ix,
                self.selection.active matches Some(b) ==> self.selection.selected@.contains(b)
                    && forall|ix: usize| #[trigger] self.selection.selected@.contains(ix) ==> ix <= b,
                self.selection.selected@.is_empty() <==> self.selection.anchor is None,
                self.selection.selected@.is_empty() <==> self.selection.active is None,
            decreases n - index,
        {
            if is_among(self.filtered_entries[index].path.as_str(), destinations) {
                let ghost before = self.selection.selected@;
                self.selection.selected.insert(index);
                proof {
                    assert(self.selection.selected@ == before.insert(index));
                    assert(self.selection.selected@.contains(index));
                }
                if self.selection.anchor.is_none() {
                    self.selection.anchor = Some(index);
                }
                self.selection.active = Some(index);
                proof {
                    let a = self.selection.anchor->0;
                    assert(self.selection.selected@.contains(a));
                    assert forall|ix: usize| #[trigger]
                        self.selection.selected@.contains(ix) implies a <= ix by {
                        if ix != index {
                            assert(before.contains(ix));
                        }
                        if a != index {
                            assert(before.contains(a));
                        }
                    }
                }
            }
            index = index + 1;
        }
    }

    /// Finishes a drop on this pane once the transfer is done: the written
    /// destinations that are listed become the selection, the pane takes
    /// drops again, and any failure shows as an error status.
    pub fn finish_target_drop(&mut self, destinations: &[String], failure_status: Option<String>)
        ensures
            !final(self).drop_pending,
            match failure_status {
                Some(s) => final(self).status_message == Some(
                    StatusMessage { text: s, level: StatusLevel::Error },
                ),
                None => final(self).status_message == old(self).status_message,
            },
            destinations@.len() == 0 ==> final(self).selection == old(self).selection,
            destinations@.len() > 0 ==> forall|ix: usize|
                final(self).selection.selected@.contains(ix) <==> (ix < old(
                    self,
                ).filtered_entries@.len() && among(
                    old(self).filtered_entries@[ix as int].path@,
                    destinations@.map_values(|d: String| d@),
                )),
            *final(self) == (ExplorerPane {
                selection: final(self).selection,
                drop_pending: false,
                status_message: final(self).status_message,
                ..*old(self)
            }),
    {
        if destinations.len() > 0 {
            self.select_visible_destinations(destinations);
        }
        self.drop_pending = false;
        if let Some(status) = failure_status {
            self.set_status(StatusLevel::Error, status);
        }
    }

    /// Whether this pane accepts a drop now: it lists the local file
    /// system, no other drop is pending, a payload from another pane does
    /// not come from a virtual file system, and the payload validated.
    pub fn can_accept_drop(
        &self,
        from_other_pane: bool,
        source_provider_backed: bool,
        validation: &Result<(), DropValidationError>,
    ) -> (r: bool)
        ensures
            r == (!self.provider_backed && !self.drop_pending && !(from_other_pane
                && source_provider_backed) && validation is Ok),
    {
        if self.provider_backed || self.drop_pending {
            return false;
        }
        if from_other_pane && source_provider_backed {
            return false;
        }
        validation.is_ok()
    }

    /// Starts a drop if this pane accepts it and no conflict dialog is
    /// open: the pane then waits for the transfer (no further drops) and
    /// the caller starts it. Returns whether the drop started.
    pub fn begin_drop(
        &mut self,
        from_other_pane: bool,
        source_provider_backed: bool,
        conflict_dialog_open: bool,
        validation: &Result<(), DropValidationError>,
    ) -> (started: bool)
        ensures
            started == (!conflict_dialog_open && old(self).can_accept_drop_spec(
                from_other_pane,
                source_provider_backed,
                *validation,
            )),
            started ==> *final(self) == (ExplorerPane { drop_pending: true, ..*old(self) }),
            !started ==> *final(self) == *old(self),
    {
        if conflict_dialog_open {
            return false;
        }
        if !self.can_accept_drop(from_other_pane, source_provider_backed, validation) {
            return false;
        }
        self.drop_pending = true;
        true
    }

    /// Whether the pane accepts a drop (see [`ExplorerPane::can_accept_drop`]).
    pub open spec fn can_accept_drop_spec(
        &self,
        from_other_pane: bool,
        source_provider_backed: bool,
        validation: Result<(), DropValidationError>,
    ) -> bool {
        !self.provider_backed && !self.drop_pending && !(from_other_pane && source_provider_backed)
            && validation is Ok
    }

    /// Aborts a transfer paused behind the conflict dialog: the pane takes
    /// drops again and the footer says `Transfer cancelled`.
    pub fn cancel_conflict_transfer(&mut self)
        ensures
            *final(self) == (ExplorerPane {
                drop_pending: false,
                status_message: final(self).status_message,
                ..*old(self)
            }),
            final(self).status_message matches Some(m) && m.level == StatusLevel::Info && m.text@
                == "Transfer cancelled"@,
    {
        self.drop_pending = false;
        self.set_status(StatusLevel::Info, "Transfer cancelled".to_string());
    }
}

/// A directory is never dropped into itself or into a folder inside it,
/// whether it is moved or copied: when some dragged directory's canonical
/// path is a component prefix of the destination, the drop is refused; a
/// single such directory strictly above the destination is refused as
/// containing it.
pub proof fn law_no_drop_into_own_folder(
    sources: Seq<ResolvedSource>,
    destination: Seq<char>,
    mode: DropMode,
    i: int,
)
    requires
        0 <= i < sources.len(),
        sources[i].is_dir,
        sources[i].parent_canonical is Some,
        sources[i].canonical matches Some(c) && path_starts_with(destination, c@),
    ensures
        drop_verdict(sources, Some(destination), mode) is Err,
        sources.len() == 1 && (sources[0].canonical matches Some(c) && components(c@) != components(
            destination,
        )) ==> drop_verdict(sources, Some(destination), mode) == Err::<(), DropValidationError>(
            DropValidationError::DirectoryContainsDestination(sources[0].path),
        ),
{
    law_mixed_payload_rejected(sources, destination, mode, i);
    if sources.len() == 1 {
        assert(first_problem(sources, destination, mode, 1) is None);
    }
}

} // verus!
