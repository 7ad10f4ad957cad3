//! Window-level undo/redo of filesystem operations: the entries that
//! describe each undoable mutation, the filesystem steps that undo or redo
//! it, the bounded undo/redo history, and the entry recorded for a
//! completed paste/drop transfer.

use vstd::prelude::*;
use crate::paths::{components, file_name, path_components, path_file_name};
use crate::text::{push_char, push_str, string_from_chars};

verus! {

/// Whether a transfer copies or moves its sources.
#[derive(Clone, Copy, Debug, PartialEq, Eq, Structural)]
pub enum TransferMode {
    Copy,
    Move,
}

/// One source that transferred.
#[derive(Clone, Debug, PartialEq, Eq)]
pub struct TransferSuccess {
    pub source: String,
    pub destination: String,
    /// Whether the destination got a fresh unique name.
    pub renamed: bool,
    /// Whether an existing destination was replaced.
    pub overwrote: bool,
}

/// One source that failed to transfer, with the error text.
#[derive(Clone, Debug, PartialEq, Eq)]
pub struct TransferFailure {
    pub source: String,
    pub error: String,
}

/// The outcome of a paste/drop transfer.
#[derive(Clone, Debug, PartialEq, Eq)]
pub struct TransferReport {
    pub successes: Vec<TransferSuccess>,
    pub failures: Vec<TransferFailure>,
}

/// An entry moved to the trash, restorable from its trash location.
#[derive(Clone, Debug, PartialEq, Eq)]
pub struct TrashItem {
    /// Where the entry lived before it was trashed.
    pub original_path: String,
    /// Where the trash keeps it.
    pub trash_path: String,
}

/// One undoable filesystem mutation.
#[derive(Clone, Debug, PartialEq, Eq)]
pub enum UndoEntry {
    /// A single rename: `old` path to `new` path.
    Rename { old: String, new: String },
    /// One gesture renaming many files, `(old, new)` pairs in application order.
    BatchRename { renames: Vec<(String, String)> },
    /// Sources copied to destinations, `(source, destination)` pairs.
    Copy { items: Vec<(String, String)> },
    /// Sources moved to destinations, `(source, destination)` pairs.
    Move { items: Vec<(String, String)> },
    /// A directory created by New Folder.
    CreateFolder { path: String },
    /// Entries moved to the trash.
    Trash { items: Vec<TrashItem> },
}

/// One filesystem operation of an undo or redo.
#[derive(Clone, Debug, PartialEq, Eq)]
pub enum FsOp {
    /// Rename the entry at `path` to `new_name` in its own directory.
    RenameInPlace { path: String, new_name: String },
    /// Delete `path` (recursively).
    DeletePermanent { path: String },
    /// Move `from` to `to`.
    MovePath { from: String, to: String },
    /// Copy `from` to `to`.
    CopyPath { from: String, to: String },
    /// Delete the directory `path` only if it is empty.
    DeleteEmptyDir { path: String },
    /// Create directory `name` inside `parent`.
    CreateDir { parent: String, name: String },
    /// Restore these trashed entries.
    RestoreTrash { items: Vec<TrashItem> },
    /// Move `path` to the trash.
    TrashPath { path: String },
}

/// One step of an undo or redo: an operation to run, or the user-facing
/// error that stops the sequence at that point.
#[derive(Clone, Debug, PartialEq, Eq)]
pub enum PlanStep {
    Run(FsOp),
    Fail(String),
}

/// The abstract form of an operation.
pub enum OpView {
    RenameInPlace(Seq<char>, Seq<char>),
    DeletePermanent(Seq<char>),
    MovePath(Seq<char>, Seq<char>),
    CopyPath(Seq<char>, Seq<char>),
    DeleteEmptyDir(Seq<char>),
    CreateDir(Seq<char>, Seq<char>),
    RestoreTrash(Seq<(Seq<char>, Seq<char>)>),
    TrashPath(Seq<char>),
}

/// The abstract form of a plan step.
pub enum StepView {
    Run(OpView),
    Fail(Seq<char>),
}

/// The abstract form of trashed items.
pub open spec fn trash_view(items: Seq<TrashItem>) -> Seq<(Seq<char>, Seq<char>)> {
    items.map_values(|t: TrashItem| (t.original_path@, t.trash_path@))
}

/// The abstract form of path pairs.
pub open spec fn pairs_view(items: Seq<(String, String)>) -> Seq<(Seq<char>, Seq<char>)> {
    items.map_values(|p: (String, String)| (p.0@, p.1@))
}

impl FsOp {
    pub open spec fn view(&self) -> OpView {
        match self {
            FsOp::RenameInPlace { path, new_name } => OpView::RenameInPlace(path@, new_name@),
            FsOp::DeletePermanent { path } => OpView::DeletePermanent(path@),
            FsOp::MovePath { from, to } => OpView::MovePath(from@, to@),
            FsOp::CopyPath { from, to } => OpView::CopyPath(from@, to@),
            FsOp::DeleteEmptyDir { path } => OpView::DeleteEmptyDir(path@),
            FsOp::CreateDir { parent, name } => OpView::CreateDir(parent@, name@),
            FsOp::RestoreTrash { items } => OpView::RestoreTrash(trash_view(items@)),
            FsOp::TrashPath { path } => OpView::TrashPath(path@),
        }
    }
}

impl PlanStep {
    pub open spec fn view(&self) -> StepView {
        match self {
            PlanStep::Run(op) => StepView::Run(op.view()),
            PlanStep::Fail(msg) => StepView::Fail(msg@),
        }
    }
}

/// The abstract form of a plan.
pub open spec fn plan_view(p: Seq<PlanStep>) -> Seq<StepView> {
    p.map_values(|s: PlanStep| s.view())
}

/// The error text for a path without a usable final name.
pub open spec fn no_name_message(path: Seq<char>) -> Seq<char> {
    "path has no usable file name: "@ + path
}

/// A rename of `target` to the final name of `named`, or the error when
/// `named` has none.
pub open spec fn rename_step(target: Seq<char>, named: Seq<char>) -> StepView {
    match file_name(named) {
        Some(n) => StepView::Run(OpView::RenameInPlace(target, n)),
        None => StepView::Fail(no_name_message(named)),
    }
}

/// The steps up to and including the first failing one.
pub open spec fn until_failure(steps: Seq<StepView>) -> Seq<StepView>
    decreases steps.len(),
{
    if steps.len() == 0 {
        seq![]
    } else if steps[0] is Fail {
        seq![steps[0]]
    } else {
        seq![steps[0]] + until_failure(steps.drop_first())
    }
}

/// Joins components back into a path: the root, then the names separated
/// by `/`.
pub open spec fn join_components(cs: Seq<Seq<char>>) -> Seq<char>
    decreases cs.len(),
{
    if cs.len() == 0 {
        seq![]
    } else if cs.len() == 1 {
        cs[0]
    } else {
        let front = join_components(cs.drop_last());
        if front == seq!['/'] {
            front + cs.last()
        } else {
            front + seq!['/'] + cs.last()
        }
    }
}

/// The parent of a path that has a final name: its other components.
pub open spec fn parent_path(path: Seq<char>) -> Seq<char> {
    join_components(components(path).drop_last())
}

/// The renames that undo a batch, last applied first.
pub open spec fn batch_undo_renames(pairs: Seq<(Seq<char>, Seq<char>)>) -> Seq<StepView> {
    pairs.reverse().map_values(|p: (Seq<char>, Seq<char>)| rename_step(p.1, p.0))
}

/// The renames that redo a batch, in application order.
pub open spec fn batch_redo_renames(pairs: Seq<(Seq<char>, Seq<char>)>) -> Seq<StepView> {
    pairs.map_values(|p: (Seq<char>, Seq<char>)| rename_step(p.0, p.1))
}

/// The steps that undo an entry.
pub open spec fn reverse_steps(e: UndoEntry) -> Seq<StepView> {
    match e {
        UndoEntry::Rename { old, new } => seq![rename_step(new@, old@)],
        UndoEntry::BatchRename { renames } => until_failure(batch_undo_renames(pairs_view(renames@))),
        UndoEntry::Copy { items } => pairs_view(items@).map_values(
            |p: (Seq<char>, Seq<char>)| StepView::Run(OpView::DeletePermanent(p.1)),
        ),
        UndoEntry::Move { items } => pairs_view(items@).reverse().map_values(
            |p: (Seq<char>, Seq<char>)| StepView::Run(OpView::MovePath(p.1, p.0)),
        ),
        UndoEntry::CreateFolder { path } => seq![StepView::Run(OpView::DeleteEmptyDir(path@))],
        UndoEntry::Trash { items } => seq![StepView::Run(OpView::RestoreTrash(trash_view(items@)))],
    }
}

/// The steps that redo an entry.
pub open spec fn forward_steps(e: UndoEntry) -> Seq<StepView> {
    match e {
        UndoEntry::Rename { old, new } => seq![rename_step(old@, new@)],
        UndoEntry::BatchRename { renames } => until_failure(batch_redo_renames(pairs_view(renames@))),
        UndoEntry::Copy { items } => pairs_view(items@).map_values(
            |p: (Seq<char>, Seq<char>)| StepView::Run(OpView::CopyPath(p.0, p.1)),
        ),
        UndoEntry::Move { items } => pairs_view(items@).map_values(
            |p: (Seq<char>, Seq<char>)| StepView::Run(OpView::MovePath(p.0, p.1)),
        ),
        UndoEntry::CreateFolder { path } => match file_name(path@) {
            Some(n) => seq![StepView::Run(OpView::CreateDir(parent_path(path@), n))],
            None => seq![StepView::Fail(no_name_message(path@))],
        },
        UndoEntry::Trash { items } => trash_view(items@).map_values(
            |t: (Seq<char>, Seq<char>)| StepView::Run(OpView::TrashPath(t.0)),
        ),
    }
}

/// The short label of an entry's kind.
pub open spec fn describe_text(e: UndoEntry) -> Seq<char> {
    match e {
        UndoEntry::Rename { .. } => "rename"@,
        UndoEntry::BatchRename { .. } => "batch rename"@,
        UndoEntry::Copy { .. } => "copy"@,
        UndoEntry::Move { .. } => "move"@,
        UndoEntry::CreateFolder { .. } => "new folder"@,
        UndoEntry::Trash { .. } => "move to trash"@,
    }
}

proof fn lemma_plan_view_push(r: Seq<PlanStep>, s: PlanStep)
    ensures
        plan_view(r.push(s)) == plan_view(r).push(s.view()),
{
    assert(plan_view(r.push(s)) =~= plan_view(r).push(s.view()));
}

impl TrashItem {
    /// A field-for-field copy.
    pub fn duplicate(&self) -> (r: TrashItem)
        ensures
            r == *self,
    {
        TrashItem { original_path: self.original_path.clone(), trash_path: self.trash_path.clone() }
    }
}

/// A copy of a list of trashed items.
pub fn copy_trash_items(items: &Vec<TrashItem>) -> (r: Vec<TrashItem>)
    ensures
        r@ == items@,
{
    let mut r: Vec<TrashItem> = Vec::new();
    let mut i: usize = 0;
    while i < items.len()
        invariant
            i <= items@.len(),
            r@ == items@.take(i as int),
        decreases items@.len() - i,
    {
        r.push(items[i].duplicate());
        proof {
            assert(items@.take(i as int + 1) == items@.take(i as int).push(items@[i as int]));
        }
        i = i + 1;
    }
    proof {
        assert(items@.take(items@.len() as int) == items@);
    }
    r
}

/// The final name of `path`, or the user-facing error when it has none.
pub fn plain_name(path: &str) -> (r: Result<String, String>)
    ensures
        match r {
            Ok(n) => file_name(path@) == Some(n@),
            Err(m) => file_name(path@) is None && m@ == no_name_message(path@),
        },
{
    match path_file_name(path) {
        Some(n) => Ok(n),
        None => {
            let mut m = String::new();
            push_str(&mut m, "path has no usable file name: ");
            push_str(&mut m, path);
            Err(m)
        },
    }
}

/// The rename step of `target` to the final name of `named`.
fn rename_plan_step(target: &String, named: &String) -> (r: PlanStep)
    ensures
        r.view() == rename_step(target@, named@),
{
    match plain_name(named.as_str()) {
        Ok(n) => PlanStep::Run(FsOp::RenameInPlace { path: target.clone(), new_name: n }),
        Err(m) => PlanStep::Fail(m),
    }
}

/// The path formed by components `cs[..n]`.
fn join_prefix(cs: &Vec<Vec<char>>, n: usize) -> (r: String)
    requires
        n <= cs.len(),
    ensures
        r@ == join_components(cs@.map_values(|v: Vec<char>| v@).take(n as int)),
{
    let ghost cv = cs@.map_values(|v: Vec<char>| v@);
    let mut r = String::new();
    let mut i: usize = 0;
    proof {
        assert(cv.take(0).len() == 0);
    }
    while i < n
        invariant
            i <= n <= cs.len(),
            cv == cs@.map_values(|v: Vec<char>| v@),
            r@ == join_components(cv.take(i as int)),
        decreases n - i,
    {
        let piece = string_from_chars(cs[i].as_slice());
        proof {
            assert(cv.take(i as int + 1).drop_last() == cv.take(i as int));
            assert(cv.take(i as int + 1).last() == cs@[i as int]@);
        }
        if i == 0 {
            r = piece;
            proof {
                assert(cv.take(1) == seq![cv[0]]);
            }
        } else {
            let rc = crate::text::chars_of(r.as_str());
            let is_root = rc.len() == 1 && rc[0] == '/';
            proof {
                if r@ == seq!['/'] {
                    assert(rc@.len() == 1);
                }
                if is_root {
                    assert(r@ =~= seq!['/']);
                }
            }
            if !is_root {
                push_char(&mut r, '/');
            }
            push_str(&mut r, piece.as_str());
        }
        i = i + 1;
    }
    r
}

/// The rename steps of a batch, stopping at the first path without a
/// final name: undoing (`undo`) renames each new path back to its old
/// name, last applied first; redoing renames each old path to its new name
/// in application order.
fn batch_rename_plan(renames: &Vec<(String, String)>, undo: bool) -> (r: Vec<PlanStep>)
    ensures
        undo ==> plan_view(r@) == until_failure(batch_undo_renames(pairs_view(renames@))),
        !undo ==> plan_view(r@) == until_failure(batch_redo_renames(pairs_view(renames@))),
{
    let ghost steps = if undo {
        batch_undo_renames(pairs_view(renames@))
    } else {
        batch_redo_renames(pairs_view(renames@))
    };
    let mut r: Vec<PlanStep> = Vec::new();
    let mut i: usize = 0;
    proof {
        assert(steps.skip(0) == steps);
    }
    while i < renames.len()
        invariant
            i <= renames@.len(),
            steps.len() == renames@.len(),
            steps == (if undo {
                batch_undo_renames(pairs_view(renames@))
            } else {
                batch_redo_renames(pairs_view(renames@))
            }),
            (plan_view(r@) + until_failure(steps.skip(i as int))) == until_failure(steps),
        decreases renames@.len() - i,
    {
        let s = if undo {
            let pair = &renames[renames.len() - 1 - i];
            rename_plan_step(&pair.1, &pair.0)
        } else {
            let pair = &renames[i];
            rename_plan_step(&pair.0, &pair.1)
        };
        let ghost rest = steps.skip(i as int);
        proof {
            assert(rest[0] == steps[i as int]);
            assert(rest.drop_first() == steps.skip(i as int + 1));
        }
        let failed = match &s {
            PlanStep::Fail(_) => true,
            PlanStep::Run(_) => false,
        };
        let ghost before = r@;
        r.push(s);
        proof {
            lemma_plan_view_push(before, s);
        }
        if failed {
            proof {
                assert(until_failure(rest) == seq![rest[0]]);
                assert(plan_view(r@) =~= plan_view(before) + seq![rest[0]]);
            }
            return r;
        }
        proof {
            assert(until_failure(rest) == seq![rest[0]] + until_failure(rest.drop_first()));
            assert(plan_view(r@) + until_failure(rest.drop_first()) =~= plan_view(before)
                + until_failure(rest));
        }
        i = i + 1;
    }
    proof {
        assert(steps.skip(renames@.len() as int).len() == 0);
        assert(plan_view(r@) + seq![] =~= plan_view(r@));
    }
    r
}

impl UndoEntry {
    /// Short label for the footer status text ("Undid copy" / "Redid rename").
    pub fn describe(&self) -> (r: &'static str)
        ensures
            r@ == describe_text(*self),
    {
        match self {
            UndoEntry::Rename { .. } => "rename",
            UndoEntry::BatchRename { .. } => "batch rename",
            UndoEntry::Copy { .. } => "copy",
            UndoEntry::Move { .. } => "move",
            UndoEntry::CreateFolder { .. } => "new folder",
            UndoEntry::Trash { .. } => "move to trash",
        }
    }

    /// The filesystem steps that undo this entry, to be run in order until
    /// the first failure: a batch rename and a move are undone in reverse
    /// application order, a new folder is removed only if still empty.
    pub fn reverse(&self) -> (r: Vec<PlanStep>)
        ensures
            plan_view(r@) == reverse_steps(*self),
    {
        match self {
            UndoEntry::Rename { old, new } => {
                let s = rename_plan_step(new, old);
                let r = vec![s];
                proof {
                    assert(plan_view(r@) =~= seq![s.view()]);
                }
                r
            },
            UndoEntry::BatchRename { renames } => batch_rename_plan(renames, true),
            UndoEntry::Copy { items } => {
                let mut r: Vec<PlanStep> = Vec::new();
                let mut i: usize = 0;
                while i < items.len()
                    invariant
                        i <= items@.len(),
                        plan_view(r@) == pairs_view(items@).take(i as int).map_values(
                            |p: (Seq<char>, Seq<char>)| StepView::Run(OpView::DeletePermanent(p.1)),
                        ),
                    decreases items@.len() - i,
                {
                    let ghost before = r@;
                    let step = PlanStep::Run(FsOp::DeletePermanent { path: items[i].1.clone() });
                    r.push(step);
                    proof {
                        lemma_plan_view_push(before, step);
                        assert(pairs_view(items@).take(i as int + 1) == pairs_view(items@).take(
                            i as int,
                        ).push(pairs_view(items@)[i as int]));
                        assert(plan_view(r@) =~= pairs_view(items@).take(i as int + 1).map_values(
                            |p: (Seq<char>, Seq<char>)| StepView::Run(OpView::DeletePermanent(p.1)),
                        ));
                    }
                    i = i + 1;
                }
                proof {
                    assert(pairs_view(items@).take(items@.len() as int) == pairs_view(items@));
                }
                r
            },
            UndoEntry::Move { items } => {
                let mut r: Vec<PlanStep> = Vec::new();
                let mut k: usize = items.len();
                let ghost rv = pairs_view(items@).reverse();
                while k > 0
                    invariant
                        k <= items@.len(),
                        rv == pairs_view(items@).reverse(),
                        plan_view(r@) == rv.take(items@.len() - k).map_values(
                            |p: (Seq<char>, Seq<char>)| StepView::Run(OpView::MovePath(p.1, p.0)),
                        ),
                    decreases k,
                {
                    let pair = &items[k - 1];
                    let ghost before = r@;
                    let step = PlanStep::Run(FsOp::MovePath { from: pair.1.clone(), to: pair.0.clone() });
                    r.push(step);
                    proof {
                        lemma_plan_view_push(before, step);
                        let j = items@.len() - k;
                        assert(rv[j] == pairs_view(items@)[k - 1]);
                        assert(rv.take(j + 1) == rv.take(j).push(rv[j]));
                        assert(plan_view(r@) =~= rv.take(j + 1).map_values(
                            |p: (Seq<char>, Seq<char>)| StepView::Run(OpView::MovePath(p.1, p.0)),
                        ));
                    }
                    k = k - 1;
                }
                proof {
                    assert(rv.take(items@.len() as int) == rv);
                }
                r
            },
            UndoEntry::CreateFolder { path } => {
                let r = vec![PlanStep::Run(FsOp::DeleteEmptyDir { path: path.clone() })];
                proof {
                    assert(plan_view(r@) =~= reverse_steps(*self));
                }
                r
            },
            UndoEntry::Trash { items } => {
                let r = vec![PlanStep::Run(FsOp::RestoreTrash { items: copy_trash_items(items) })];
                proof {
                    assert(plan_view(r@) =~= reverse_steps(*self));
                }
                r
            },
        }
    }

    /// The filesystem steps that redo this entry, to be run in order until
    /// the first failure.
    pub fn forward(&self) -> (r: Vec<PlanStep>)
        ensures
            plan_view(r@) == forward_steps(*self),
    {
        match self {
            UndoEntry::Rename { old, new } => {
                let s = rename_plan_step(old, new);
                let r = vec![s];
                proof {
                    assert(plan_view(r@) =~= seq![s.view()]);
                }
                r
            },
            UndoEntry::BatchRename { renames } => batch_rename_plan(renames, false),
            UndoEntry::Copy { items } => {
                let mut r: Vec<PlanStep> = Vec::new();
                let mut i: usize = 0;
                while i < items.len()
                    invariant
                        i <= items@.len(),
                        plan_view(r@) == pairs_view(items@).take(i as int).map_values(
                            |p: (Seq<char>, Seq<char>)| StepView::Run(OpView::CopyPath(p.0, p.1)),
                        ),
                    decreases items@.len() - i,
                {
                    let ghost before = r@;
                    let step = PlanStep::Run(
                        FsOp::CopyPath { from: items[i].0.clone(), to: items[i].1.clone() },
                    );
                    r.push(step);
                    proof {
                        lemma_plan_view_push(before, step);
                        assert(pairs_view(items@).take(i as int + 1) == pairs_view(items@).take(
                            i as int,
                        ).push(pairs_view(items@)[i as int]));
                        assert(plan_view(r@) =~= pairs_view(items@).take(i as int + 1).map_values(
                            |p: (Seq<char>, Seq<char>)| StepView::Run(OpView::CopyPath(p.0, p.1)),
                        ));
                    }
                    i = i + 1;
                }
                proof {
                    assert(pairs_view(items@).take(items@.len() as int) == pairs_view(items@));
                }
                r
            },
            UndoEntry::Move { items } => {
                let mut r: Vec<PlanStep> = Vec::new();
                let mut i: usize = 0;
                while i < items.len()
                    invariant
                        i <= items@.len(),
                        plan_view(r@) == pairs_view(items@).take(i as int).map_values(
                            |p: (Seq<char>, Seq<char>)| StepView::Run(OpView::MovePath(p.0, p.1)),
                        ),
                    decreases items@.len() - i,
                {
                    let ghost before = r@;
                    let step = PlanStep::Run(
                        FsOp::MovePath { from: items[i].0.clone(), to: items[i].1.clone() },
                    );
                    r.push(step);
                    proof {
                        lemma_plan_view_push(before, step);
                        assert(pairs_view(items@).take(i as int + 1) == pairs_view(items@).take(
                            i as int,
                        ).push(pairs_view(items@)[i as int]));
                        assert(plan_view(r@) =~= pairs_view(items@).take(i as int + 1).map_values(
                            |p: (Seq<char>, Seq<char>)| StepView::Run(OpView::MovePath(p.0, p.1)),
                        ));
                    }
                    i = i + 1;
                }
                proof {
                    assert(pairs_view(items@).take(items@.len() as int) == pairs_view(items@));
                }
                r
            },
            UndoEntry::CreateFolder { path } => {
                match plain_name(path.as_str()) {
                    Ok(name) => {
                        let cs = path_components(path.as_str());
                        let ghost cv = cs@.map_values(|v: Vec<char>| v@);
                        proof {
                            assert(cv.len() > 0);
                            assert(cv.take(cv.len() - 1) == cv.drop_last());
                        }
                        let parent = join_prefix(&cs, cs.len() - 1);
                        let r = vec![PlanStep::Run(FsOp::CreateDir { parent, name })];
                        proof {
                            assert(plan_view(r@) =~= forward_steps(*self));
                        }
                        r
                    },
                    Err(m) => {
                        let r = vec![PlanStep::Fail(m)];
                        proof {
                            assert(plan_view(r@) =~= forward_steps(*self));
                        }
                        r
                    },
                }
            },
            UndoEntry::Trash { items } => {
                let mut r: Vec<PlanStep> = Vec::new();
                let mut i: usize = 0;
                while i < items.len()
                    invariant
                        i <= items@.len(),
                        plan_view(r@) == trash_view(items@).take(i as int).map_values(
                            |t: (Seq<char>, Seq<char>)| StepView::Run(OpView::TrashPath(t.0)),
                        ),
                    decreases items@.len() - i,
                {
                    let ghost before = r@;
                    let step = PlanStep::Run(FsOp::TrashPath { path: items[i].original_path.clone() });
                    r.push(step);
                    proof {
                        lemma_plan_view_push(before, step);
                        assert(trash_view(items@).take(i as int + 1) == trash_view(items@).take(
                            i as int,
                        ).push(trash_view(items@)[i as int]));
                        assert(plan_view(r@) =~= trash_view(items@).take(i as int + 1).map_values(
                            |t: (Seq<char>, Seq<char>)| StepView::Run(OpView::TrashPath(t.0)),
                        ));
                    }
                    i = i + 1;
                }
                proof {
                    assert(trash_view(items@).take(items@.len() as int) == trash_view(items@));
                }
                r
            },
        }
    }
}

/// How many entries the undo history keeps before dropping the oldest.
pub const UNDO_CAPACITY: usize = 50;

/// The undo and redo branches of a history, oldest first.
pub struct StackModel {
    pub undo: Seq<UndoEntry>,
    pub redo: Seq<UndoEntry>,
}

/// A new mutation: the redo branch is cleared and the entry goes on top of
/// the undo branch, the oldest entry dropping out past the capacity.
pub open spec fn push_model(m: StackModel, e: UndoEntry) -> StackModel {
    let u = m.undo.push(e);
    StackModel {
        undo: if u.len() > UNDO_CAPACITY {
            u.drop_first()
        } else {
            u
        },
        redo: seq![],
    }
}

/// Window-scoped undo/redo history. The page pops an entry, runs its steps,
/// and reports success back so a failed undo or redo leaves the history.
#[derive(Debug)]
pub struct UndoStack {
    undo: Vec<UndoEntry>,
    redo: Vec<UndoEntry>,
}

impl UndoStack {
    /// The undo and redo branches.
    pub closed spec fn model(&self) -> StackModel {
        StackModel { undo: self.undo@, redo: self.redo@ }
    }

    /// An empty history.
    pub fn new() -> (r: UndoStack)
        ensures
            r.model().undo.len() == 0,
            r.model().redo.len() == 0,
    {
        UndoStack { undo: Vec::new(), redo: Vec::new() }
    }

    /// Records a new mutation: clears the redo branch and evicts the oldest
    /// entry once the history exceeds [`UNDO_CAPACITY`].
    pub fn push(&mut self, entry: UndoEntry)
        ensures
            final(self).model() == push_model(old(self).model(), entry),
    {
        self.redo.clear();
        self.undo.push(entry);
        if self.undo.len() > UNDO_CAPACITY {
            self.undo.remove(0);
        }
        proof {
            let u = old(self).model().undo.push(entry);
            if u.len() > UNDO_CAPACITY {
                assert(self.undo@ =~= u.drop_first());
            }
            assert(self.model().redo =~= seq![]);
        }
    }

    /// Pops the most recent entry to undo.
    pub fn undo(&mut self) -> (r: Option<UndoEntry>)
        ensures
            old(self).model().undo.len() == 0 ==> r is None && final(self).model() == old(
                self,
            ).model(),
            old(self).model().undo.len() > 0 ==> r == Some(old(self).model().undo.last())
                && final(self).model() == (StackModel {
                undo: old(self).model().undo.drop_last(),
                redo: old(self).model().redo,
            }),
    {
        let r = self.undo.pop();
        proof {
            if old(self).model().undo.len() > 0 {
                assert(self.undo@ =~= old(self).model().undo.drop_last());
            }
        }
        r
    }

    /// Pops the most recent entry to redo.
    pub fn redo(&mut self) -> (r: Option<UndoEntry>)
        ensures
            old(self).model().redo.len() == 0 ==> r is None && final(self).model() == old(
                self,
            ).model(),
            old(self).model().redo.len() > 0 ==> r == Some(old(self).model().redo.last())
                && final(self).model() == (StackModel {
                undo: old(self).model().undo,
                redo: old(self).model().redo.drop_last(),
            }),
    {
        let r = self.redo.pop();
        proof {
            if old(self).model().redo.len() > 0 {
                assert(self.redo@ =~= old(self).model().redo.drop_last());
            }
        }
        r
    }

    /// Moves a successfully-undone entry onto the redo branch.
    pub fn record_undone(&mut self, entry: UndoEntry)
        ensures
            final(self).model() == (StackModel {
                undo: old(self).model().undo,
                redo: old(self).model().redo.push(entry),
            }),
    {
        self.redo.push(entry);
    }

    /// Moves a successfully-redone entry back onto the undo branch.
    pub fn record_redone(&mut self, entry: UndoEntry)
        ensures
            final(self).model() == (StackModel {
                undo: old(self).model().undo.push(entry),
                redo: old(self).model().redo,
            }),
    {
        self.undo.push(entry);
    }

    /// Whether there is an entry to undo.
    pub fn can_undo(&self) -> (r: bool)
        ensures
            r == (self.model().undo.len() > 0),
    {
        self.undo.len() > 0
    }

    /// Whether there is an entry to redo.
    pub fn can_redo(&self) -> (r: bool)
        ensures
            r == (self.model().redo.len() > 0),
    {
        self.redo.len() > 0
    }

    /// The number of entries on the undo branch.
    pub fn undo_len(&self) -> (r: usize)
        ensures
            r == self.model().undo.len(),
    {
        self.undo.len()
    }

    /// The number of entries on the redo branch.
    pub fn redo_len(&self) -> (r: usize)
        ensures
            r == self.model().redo.len(),
    {
        self.redo.len()
    }
}

/// A new mutation invalidates the redo history and becomes the next entry
/// to undo.
pub proof fn law_push_clears_redo_and_tops_undo(m: StackModel, e: UndoEntry)
    ensures
        push_model(m, e).redo.len() == 0,
        push_model(m, e).undo.last() == e,
{
}

/// The history never holds more than [`UNDO_CAPACITY`] entries to undo.
pub proof fn law_push_respects_capacity(m: StackModel, e: UndoEntry)
    requires
        m.undo.len() <= UNDO_CAPACITY,
    ensures
        push_model(m, e).undo.len() <= UNDO_CAPACITY,
        m.undo.len() < UNDO_CAPACITY ==> push_model(m, e).undo == m.undo.push(e),
{
}

/// Undoing the latest entry, confirming it, redoing it and confirming that
/// restores the history exactly, and the redo hands back the very entry
/// that was undone.
pub proof fn law_undo_redo_round_trip(m: StackModel)
    requires
        m.undo.len() > 0,
    ensures
        ({
            let e = m.undo.last();
            let after_undo = StackModel { undo: m.undo.drop_last(), redo: m.redo.push(e) };
            &&& after_undo.redo.last() == e
            &&& (StackModel {
                undo: after_undo.undo.push(after_undo.redo.last()),
                redo: after_undo.redo.drop_last(),
            }) == m
        }),
{
    let e = m.undo.last();
    assert(m.undo.drop_last().push(e) =~= m.undo);
    assert(m.redo.push(e).drop_last() =~= m.redo);
}

/// The source/destination pairs of the successes that did not overwrite.
pub open spec fn undoable_pairs(successes: Seq<TransferSuccess>) -> Seq<(Seq<char>, Seq<char>)>
    decreases successes.len(),
{
    if successes.len() == 0 {
        seq![]
    } else {
        let prior = undoable_pairs(successes.drop_last());
        let s = successes.last();
        if s.overwrote {
            prior
        } else {
            prior.push((s.source@, s.destination@))
        }
    }
}

/// The single undo entry for one completed paste/drop: one `Copy` or
/// `Move` entry over every successful item, excluding overwrites (which
/// destroyed the destination's prior contents); `None` when nothing
/// undoable transferred.
pub fn transfer_entry(report: &TransferReport, mode: TransferMode) -> (r: Option<UndoEntry>)
    ensures
        undoable_pairs(report.successes@).len() == 0 ==> r is None,
        undoable_pairs(report.successes@).len() > 0 ==> match r {
            Some(UndoEntry::Copy { items }) => mode == TransferMode::Copy && pairs_view(items@)
                == undoable_pairs(report.successes@),
            Some(UndoEntry::Move { items }) => mode == TransferMode::Move && pairs_view(items@)
                == undoable_pairs(report.successes@),
            _ => false,
        },
{
    let mut items: Vec<(String, String)> = Vec::new();
    let mut i: usize = 0;
    while i < report.successes.len()
        invariant
            i <= report.successes@.len(),
            pairs_view(items@) == undoable_pairs(report.successes@.take(i as int)),
        decreases report.successes@.len() - i,
    {
        let success = &report.successes[i];
        proof {
            assert(report.successes@.take(i as int + 1).drop_last() == report.successes@.take(
                i as int,
            ));
        }
        if !success.overwrote {
            items.push((success.source.clone(), success.destination.clone()));
            proof {
                assert(pairs_view(items@) =~= undoable_pairs(report.successes@.take(i as int + 1)));
            }
        }
        i = i + 1;
    }
    proof {
        assert(report.successes@.take(report.successes@.len() as int) == report.successes@);
    }
    if items.len() == 0 {
        return None;
    }
    match mode {
        TransferMode::Copy => Some(UndoEntry::Copy { items }),
        TransferMode::Move => Some(UndoEntry::Move { items }),
    }
}

/// The path that renaming `path` to `name` within its own directory gives.
pub open spec fn renamed_path(path: Seq<char>, name: Seq<char>) -> Seq<char> {
    join_components(components(path).drop_last().push(name))
}

/// What running one transfer or rename step does to a model of the file
/// system that maps each existing path to its contents: a move, copy or
/// rename needs its source present and its destination free, a delete
/// needs its path present; `None` when the step cannot run (or is another
/// kind of step).
pub open spec fn run_transfer_op(fs: Map<Seq<char>, int>, step: StepView) -> Option<
    Map<Seq<char>, int>,
> {
    match step {
        StepView::Run(OpView::RenameInPlace(path, name)) => {
            let to = renamed_path(path, name);
            if fs.contains_key(path) && !fs.contains_key(to) {
                Some(fs.remove(path).insert(to, fs[path]))
            } else {
                None
            }
        },
        StepView::Run(OpView::MovePath(from, to)) => if fs.contains_key(from) && !fs.contains_key(
            to,
        ) {
            Some(fs.remove(from).insert(to, fs[from]))
        } else {
            None
        },
        StepView::Run(OpView::CopyPath(from, to)) => if fs.contains_key(from) && !fs.contains_key(
            to,
        ) {
            Some(fs.insert(to, fs[from]))
        } else {
            None
        },
        StepView::Run(OpView::DeletePermanent(path)) => if fs.contains_key(path) {
            Some(fs.remove(path))
        } else {
            None
        },
        _ => None,
    }
}

/// Running `steps` in order on the model, `None` once one cannot run.
pub open spec fn run_transfer_steps(fs: Map<Seq<char>, int>, steps: Seq<StepView>) -> Option<
    Map<Seq<char>, int>,
>
    decreases steps.len(),
{
    if steps.len() == 0 {
        Some(fs)
    } else {
        match run_transfer_steps(fs, steps.drop_last()) {
            Some(f) => run_transfer_op(f, steps.last()),
            None => None,
        }
    }
}

/// The pairs of a transfer can run on `fs`: every source exists, every
/// destination is free, and no path occurs twice among the sources and
/// destinations.
pub open spec fn fresh_transfer(fs: Map<Seq<char>, int>, ps: Seq<(Seq<char>, Seq<char>)>) -> bool {
    &&& forall|i: int| 0 <= i < ps.len() ==> fs.contains_key(#[trigger] ps[i].0)
    &&& forall|i: int| 0 <= i < ps.len() ==> !fs.contains_key(#[trigger] ps[i].1)
    &&& forall|i: int, j: int|
        0 <= i < ps.len() && 0 <= j < ps.len() && i != j ==> #[trigger] ps[i].0 != #[trigger] ps[j].0
    &&& forall|i: int, j: int|
        0 <= i < ps.len() && 0 <= j < ps.len() && i != j ==> #[trigger] ps[i].1 != #[trigger] ps[j].1
    &&& forall|i: int, j: int|
        0 <= i < ps.len() && 0 <= j < ps.len() ==> #[trigger] ps[i].0 != #[trigger] ps[j].1
}

/// The model after the first `k` pairs were moved.
spec fn moved(fs: Map<Seq<char>, int>, ps: Seq<(Seq<char>, Seq<char>)>, k: int) -> Map<
    Seq<char>,
    int,
>
    decreases k,
{
    if k <= 0 {
        fs
    } else {
        let f = moved(fs, ps, k - 1);
        f.remove(ps[k - 1].0).insert(ps[k - 1].1, f[ps[k - 1].0])
    }
}

/// The model after the first `k` pairs were copied.
spec fn copied(fs: Map<Seq<char>, int>, ps: Seq<(Seq<char>, Seq<char>)>, k: int) -> Map<
    Seq<char>,
    int,
>
    decreases k,
{
    if k <= 0 {
        fs
    } else {
        let f = copied(fs, ps, k - 1);
        f.insert(ps[k - 1].1, f[ps[k - 1].0])
    }
}

proof fn lemma_moved_keeps_rest(fs: Map<Seq<char>, int>, ps: Seq<(Seq<char>, Seq<char>)>, k: int)
    requires
        fresh_transfer(fs, ps),
        0 <= k <= ps.len(),
    ensures
        forall|j: int|
            k <= j < ps.len() ==> moved(fs, ps, k).contains_key(#[trigger] ps[j].0) && moved(
                fs,
                ps,
                k,
            )[ps[j].0] == fs[ps[j].0] && !moved(fs, ps, k).contains_key(ps[j].1),
    decreases k,
{
    if k > 0 {
        lemma_moved_keeps_rest(fs, ps, k - 1);
        assert forall|j: int| k <= j < ps.len() implies moved(fs, ps, k).contains_key(
            #[trigger] ps[j].0,
        ) && moved(fs, ps, k)[ps[j].0] == fs[ps[j].0] && !moved(fs, ps, k).contains_key(
            ps[j].1,
        ) by {
            assert(ps[j].0 != ps[k - 1].0);
            assert(ps[j].0 != ps[k - 1].1);
            assert(ps[j].1 != ps[k - 1].1);
        }
    }
}

proof fn lemma_copied_shape(fs: Map<Seq<char>, int>, ps: Seq<(Seq<char>, Seq<char>)>, k: int)
    requires
        fresh_transfer(fs, ps),
        0 <= k <= ps.len(),
    ensures
        forall|j: int|
            0 <= j < ps.len() ==> copied(fs, ps, k).contains_key(#[trigger] ps[j].0) && copied(
                fs,
                ps,
                k,
            )[ps[j].0] == fs[ps[j].0],
        forall|j: int|
            k <= j < ps.len() ==> !copied(fs, ps, k).contains_key(#[trigger] ps[j].1),
        forall|p: Seq<char>|
            #![trigger copied(fs, ps, k).contains_key(p)]
            (forall|j: int| 0 <= j < k ==> #[trigger] ps[j].1 != p) ==> (copied(
                fs,
                ps,
                k,
            ).contains_key(p) == fs.contains_key(p) && (fs.contains_key(p) ==> copied(
                fs,
                ps,
                k,
            )[p] == fs[p])),
        forall|j: int| 0 <= j < k ==> copied(fs, ps, k).contains_key(#[trigger] ps[j].1),
    decreases k,
{
    if k > 0 {
        lemma_copied_shape(fs, ps, k - 1);
        assert forall|j: int| 0 <= j < ps.len() implies copied(fs, ps, k).contains_key(
            #[trigger] ps[j].0,
        ) && copied(fs, ps, k)[ps[j].0] == fs[ps[j].0] by {
            assert(ps[j].0 != ps[k - 1].1);
        }
        assert forall|j: int| k <= j < ps.len() implies !copied(fs, ps, k).contains_key(
            #[trigger] ps[j].1,
        ) by {
            assert(ps[j].1 != ps[k - 1].1);
        }
    }
}

proof fn lemma_forward_moves(fs: Map<Seq<char>, int>, ps: Seq<(Seq<char>, Seq<char>)>, k: int)
    requires
        fresh_transfer(fs, ps),
        0 <= k <= ps.len(),
    ensures
        run_transfer_steps(
            fs,
            ps.map_values(|p: (Seq<char>, Seq<char>)| StepView::Run(OpView::MovePath(p.0, p.1))).take(
                k,
            ),
        ) == Some(moved(fs, ps, k)),
    decreases k,
{
    let steps = ps.map_values(
        |p: (Seq<char>, Seq<char>)| StepView::Run(OpView::MovePath(p.0, p.1)),
    );
    if k > 0 {
        lemma_forward_moves(fs, ps, k - 1);
        assert(steps.take(k).drop_last() =~= steps.take(k - 1));
        lemma_moved_keeps_rest(fs, ps, k - 1);
    } else {
        assert(steps.take(0) =~= Seq::<StepView>::empty());
    }
}

proof fn lemma_reverse_moves(fs: Map<Seq<char>, int>, ps: Seq<(Seq<char>, Seq<char>)>, j: int)
    requires
        fresh_transfer(fs, ps),
        0 <= j <= ps.len(),
    ensures
        run_transfer_steps(
            moved(fs, ps, ps.len() as int),
            ps.reverse().map_values(
                |p: (Seq<char>, Seq<char>)| StepView::Run(OpView::MovePath(p.1, p.0)),
            ).take(j),
        ) == Some(moved(fs, ps, ps.len() - j)),
    decreases j,
{
    let n = ps.len() as int;
    let steps = ps.reverse().map_values(
        |p: (Seq<char>, Seq<char>)| StepView::Run(OpView::MovePath(p.1, p.0)),
    );
    if j > 0 {
        lemma_reverse_moves(fs, ps, j - 1);
        assert(steps.take(j).drop_last() =~= steps.take(j - 1));
        let k = n - j;
        assert(ps.reverse()[j - 1] == ps[k]);
        lemma_moved_keeps_rest(fs, ps, k);
        let f = moved(fs, ps, k);
        let g = moved(fs, ps, k + 1);
        assert(g == f.remove(ps[k].0).insert(ps[k].1, f[ps[k].0]));
        assert(ps[k].0 != ps[k].1);
        assert(g.remove(ps[k].1).insert(ps[k].0, g[ps[k].1]) =~= f);
    } else {
        assert(steps.take(0) =~= Seq::<StepView>::empty());
    }
}

proof fn lemma_forward_copies(fs: Map<Seq<char>, int>, ps: Seq<(Seq<char>, Seq<char>)>, k: int)
    requires
        fresh_transfer(fs, ps),
        0 <= k <= ps.len(),
    ensures
        run_transfer_steps(
            fs,
            ps.map_values(|p: (Seq<char>, Seq<char>)| StepView::Run(OpView::CopyPath(p.0, p.1))).take(
                k,
            ),
        ) == Some(copied(fs, ps, k)),
    decreases k,
{
    let steps = ps.map_values(
        |p: (Seq<char>, Seq<char>)| StepView::Run(OpView::CopyPath(p.0, p.1)),
    );
    if k > 0 {
        lemma_forward_copies(fs, ps, k - 1);
        assert(steps.take(k).drop_last() =~= steps.take(k - 1));
        lemma_copied_shape(fs, ps, k - 1);
    } else {
        assert(steps.take(0) =~= Seq::<StepView>::empty());
    }
}

/// The model `m` with the destinations of the first `j` pairs removed.
spec fn without_destinations(m: Map<Seq<char>, int>, ps: Seq<(Seq<char>, Seq<char>)>, j: int) -> Map<
    Seq<char>,
    int,
>
    decreases j,
{
    if j <= 0 {
        m
    } else {
        without_destinations(m, ps, j - 1).remove(ps[j - 1].1)
    }
}

proof fn lemma_delete_copies(fs: Map<Seq<char>, int>, ps: Seq<(Seq<char>, Seq<char>)>, j: int)
    requires
        fresh_transfer(fs, ps),
        0 <= j <= ps.len(),
    ensures
        run_transfer_steps(
            copied(fs, ps, ps.len() as int),
            ps.map_values(|p: (Seq<char>, Seq<char>)| StepView::Run(OpView::DeletePermanent(p.1))).take(
                j,
            ),
        ) == Some(without_destinations(copied(fs, ps, ps.len() as int), ps, j)),
        forall|i: int|
            j <= i < ps.len() ==> without_destinations(copied(fs, ps, ps.len() as int), ps, j).contains_key(
                #[trigger] ps[i].1,
            ),
        forall|p: Seq<char>|
            #![trigger without_destinations(copied(fs, ps, ps.len() as int), ps, j).contains_key(p)]
            (forall|i: int| 0 <= i < j ==> #[trigger] ps[i].1 != p) ==> without_destinations(
                copied(fs, ps, ps.len() as int),
                ps,
                j,
            ).contains_key(p) == copied(fs, ps, ps.len() as int).contains_key(p)
                && without_destinations(copied(fs, ps, ps.len() as int), ps, j)[p] == copied(
                fs,
                ps,
                ps.len() as int,
            )[p],
        forall|i: int|
            0 <= i < j ==> !without_destinations(copied(fs, ps, ps.len() as int), ps, j).contains_key(
                #[trigger] ps[i].1,
            ),
    decreases j,
{
    let n = ps.len() as int;
    let m = copied(fs, ps, n);
    let steps = ps.map_values(
        |p: (Seq<char>, Seq<char>)| StepView::Run(OpView::DeletePermanent(p.1)),
    );
    lemma_copied_shape(fs, ps, n);
    if j > 0 {
        lemma_delete_copies(fs, ps, j - 1);
        assert(steps.take(j).drop_last() =~= steps.take(j - 1));
        assert forall|i: int| j <= i < ps.len() implies without_destinations(m, ps, j).contains_key(
            #[trigger] ps[i].1,
        ) by {
            assert(ps[i].1 != ps[j - 1].1);
        }
    } else {
        assert(steps.take(0) =~= Seq::<StepView>::empty());
    }
}

/// Undoing a completed copy or move restores the file system: when the
/// transfer's sources exist, its destinations are free and no path occurs
/// twice, running the entry's forward steps succeeds, and running its
/// reverse steps on the result gives back exactly the state before.
pub proof fn law_transfer_undo_restores(e: UndoEntry, fs: Map<Seq<char>, int>)
    requires
        e is Copy || e is Move,
        match e {
            UndoEntry::Copy { items } => fresh_transfer(fs, pairs_view(items@)),
            UndoEntry::Move { items } => fresh_transfer(fs, pairs_view(items@)),
            _ => false,
        },
    ensures
        run_transfer_steps(fs, forward_steps(e)) matches Some(after) && run_transfer_steps(
            after,
            reverse_steps(e),
        ) == Some(fs),
{
    match e {
        UndoEntry::Move { items } => {
            let ps = pairs_view(items@);
            let n = ps.len() as int;
            let fwd = ps.map_values(
                |p: (Seq<char>, Seq<char>)| StepView::Run(OpView::MovePath(p.0, p.1)),
            );
            let rev = ps.reverse().map_values(
                |p: (Seq<char>, Seq<char>)| StepView::Run(OpView::MovePath(p.1, p.0)),
            );
            lemma_forward_moves(fs, ps, n);
            assert(fwd.take(n) =~= fwd);
            lemma_reverse_moves(fs, ps, n);
            assert(rev.take(n) =~= rev);
        },
        UndoEntry::Copy { items } => {
            let ps = pairs_view(items@);
            let n = ps.len() as int;
            let fwd = ps.map_values(
                |p: (Seq<char>, Seq<char>)| StepView::Run(OpView::CopyPath(p.0, p.1)),
            );
            let del = ps.map_values(
                |p: (Seq<char>, Seq<char>)| StepView::Run(OpView::DeletePermanent(p.1)),
            );
            lemma_forward_copies(fs, ps, n);
            assert(fwd.take(n) =~= fwd);
            lemma_delete_copies(fs, ps, n);
            assert(del.take(n) =~= del);
            lemma_copied_shape(fs, ps, n);
            let m = copied(fs, ps, n);
            let w = without_destinations(m, ps, n);
            assert forall|p: Seq<char>| #[trigger] w.contains_key(p) == fs.contains_key(p) by {
                if exists|i: int| 0 <= i < n && ps[i].1 == p {
                    let i = choose|i: int| 0 <= i < n && ps[i].1 == p;
                    assert(!w.contains_key(ps[i].1));
                    assert(!fs.contains_key(ps[i].1));
                } else {
                    assert(w.contains_key(p) == m.contains_key(p));
                    assert(m.contains_key(p) == fs.contains_key(p));
                }
            }
            assert forall|p: Seq<char>| #[trigger] w.contains_key(p) implies w[p] == fs[p] by {
                if exists|i: int| 0 <= i < n && ps[i].1 == p {
                    let i = choose|i: int| 0 <= i < n && ps[i].1 == p;
                    assert(!w.contains_key(ps[i].1));
                } else {
                    assert(w[p] == m[p]);
                    assert(m[p] == fs[p]);
                }
            }
            assert(w =~= fs);
        },
        _ => {},
    }
}

/// Running `a` then `b` is running `a`, then `b` on its result.
proof fn lemma_run_concat(fs: Map<Seq<char>, int>, a: Seq<StepView>, b: Seq<StepView>)
    ensures
        run_transfer_steps(fs, a + b) == match run_transfer_steps(fs, a) {
            Some(g) => run_transfer_steps(g, b),
            None => None,
        },
    decreases b.len(),
{
    if b.len() == 0 {
        assert(a + b =~= a);
    } else {
        lemma_run_concat(fs, a, b.drop_last());
        assert((a + b).drop_last() =~= a + b.drop_last());
        assert((a + b).last() == b.last());
    }
}

/// Whenever `forward` runs, `back` run on its result gives back the state
/// before it.
spec fn undoes(forward: StepView, back: StepView) -> bool {
    forall|m: Map<Seq<char>, int>|
        #![trigger run_transfer_op(m, forward)]
        run_transfer_op(m, forward) is Some ==> run_transfer_op(
            run_transfer_op(m, forward)->0,
            back,
        ) == Some(m)
}

/// Steps that each undo the forward step mirrored across the sequence
/// restore the state the forward steps started from.
proof fn lemma_undo_inverse_run(fs: Map<Seq<char>, int>, fwd: Seq<StepView>, rev: Seq<StepView>)
    requires
        fwd.len() == rev.len(),
        forall|i: int| 0 <= i < fwd.len() ==> undoes(#[trigger] fwd[i], rev[fwd.len() - 1 - i]),
        run_transfer_steps(fs, fwd) is Some,
    ensures
        run_transfer_steps(run_transfer_steps(fs, fwd)->0, rev) == Some(fs),
    decreases fwd.len(),
{
    if fwd.len() > 0 {
        let n = fwd.len() as int;
        let front = fwd.drop_last();
        let b = run_transfer_steps(fs, front)->0;
        let a = run_transfer_steps(fs, fwd)->0;
        assert(run_transfer_op(b, fwd[n - 1]) == Some(a));
        assert(undoes(fwd[n - 1], rev[n - 1 - (n - 1)]));
        assert(run_transfer_op(a, rev[0]) == Some(b));
        let rest = rev.drop_first();
        assert forall|i: int| 0 <= i < front.len() implies undoes(
            #[trigger] front[i],
            rest[front.len() - 1 - i],
        ) by {
            assert(front[i] == fwd[i]);
            assert(rest[front.len() - 1 - i] == rev[n - 1 - i]);
        }
        lemma_undo_inverse_run(fs, front, rest);
        assert(rev =~= seq![rev[0]] + rest);
        let head = seq![rev[0]];
        assert(head.drop_last() =~= Seq::<StepView>::empty());
        assert(run_transfer_steps(a, head.drop_last()) == Some(a));
        assert(run_transfer_steps(a, head) == Some(b));
        lemma_run_concat(a, head, rest);
        assert(run_transfer_steps(a, head + rest) == Some(fs));
    }
}

/// Steps none of which is an error run to the end.
proof fn lemma_until_failure_id(s: Seq<StepView>)
    requires
        forall|i: int| #![trigger s[i]] 0 <= i < s.len() ==> s[i] is Run,
    ensures
        until_failure(s) == s,
    decreases s.len(),
{
    if s.len() > 0 {
        let t = s.drop_first();
        assert forall|i: int| #![trigger t[i]] 0 <= i < t.len() implies t[i] is Run by {
            assert(t[i] == s[i + 1]);
        }
        lemma_until_failure_id(t);
        assert(seq![s[0]] + t =~= s);
    }
}

/// Whether old path `p.0` and new path `p.1` both have final names and
/// each is the other renamed within their shared directory.
pub open spec fn rename_in_one_directory(p: (Seq<char>, Seq<char>)) -> bool {
    &&& file_name(p.0) is Some
    &&& file_name(p.1) is Some
    &&& renamed_path(p.0, file_name(p.1)->0) == p.1
    &&& renamed_path(p.1, file_name(p.0)->0) == p.0
}

/// The `(old, new)` pairs of a rename or batch rename, in application order.
pub open spec fn rename_pairs(e: UndoEntry) -> Seq<(Seq<char>, Seq<char>)> {
    match e {
        UndoEntry::Rename { old, new } => seq![(old@, new@)],
        UndoEntry::BatchRename { renames } => pairs_view(renames@),
        _ => seq![],
    }
}

/// Renaming the new path back to the old name undoes renaming the old path
/// to the new name.
proof fn lemma_rename_back_undoes(p: (Seq<char>, Seq<char>))
    requires
        rename_in_one_directory(p),
    ensures
        undoes(rename_step(p.0, p.1), rename_step(p.1, p.0)),
{
    assert forall|m: Map<Seq<char>, int>|
        #![trigger run_transfer_op(m, rename_step(p.0, p.1))]
        run_transfer_op(m, rename_step(p.0, p.1)) is Some implies run_transfer_op(
            run_transfer_op(m, rename_step(p.0, p.1))->0,
            rename_step(p.1, p.0),
        ) == Some(m) by {
        let m2 = m.remove(p.0).insert(p.1, m[p.0]);
        assert(run_transfer_op(m, rename_step(p.0, p.1)) == Some(m2));
        assert(m2.remove(p.1).insert(p.0, m2[p.1]) =~= m);
    }
}

/// Undoing a completed rename or batch rename restores the file system:
/// when each `(old, new)` pair renames within one directory and redoing
/// the entry runs on `fs`, running its undo steps on the result (the new
/// paths renamed back to the old names, last rename first) gives back
/// exactly `fs`.
pub proof fn law_rename_undo_restores(e: UndoEntry, fs: Map<Seq<char>, int>)
    requires
        e is Rename || e is BatchRename,
        forall|i: int|
            0 <= i < rename_pairs(e).len() ==> rename_in_one_directory(
                #[trigger] rename_pairs(e)[i],
            ),
        run_transfer_steps(fs, forward_steps(e)) is Some,
    ensures
        run_transfer_steps(run_transfer_steps(fs, forward_steps(e))->0, reverse_steps(e)) == Some(
            fs,
        ),
{
    match e {
        UndoEntry::Rename { old, new } => {
            let p = (old@, new@);
            assert(rename_pairs(e)[0] == p);
            lemma_rename_back_undoes(p);
            let fwd = seq![rename_step(old@, new@)];
            let rev = seq![rename_step(new@, old@)];
            assert(fwd[0] == rename_step(p.0, p.1));
            assert(rev[0] == rename_step(p.1, p.0));
            lemma_undo_inverse_run(fs, fwd, rev);
        },
        UndoEntry::BatchRename { renames } => {
            let ps = pairs_view(renames@);
            let n = ps.len() as int;
            let redo = batch_redo_renames(ps);
            let undo = batch_undo_renames(ps);
            assert forall|i: int| #![trigger redo[i]] 0 <= i < redo.len() implies redo[i] is Run by {
                assert(rename_in_one_directory(rename_pairs(e)[i]));
            }
            assert forall|i: int| #![trigger undo[i]] 0 <= i < undo.len() implies undo[i] is Run by {
                assert(ps.reverse()[i] == ps[n - 1 - i]);
                assert(rename_in_one_directory(rename_pairs(e)[n - 1 - i]));
            }
            lemma_until_failure_id(redo);
            lemma_until_failure_id(undo);
            assert forall|i: int| 0 <= i < redo.len() implies undoes(
                #[trigger] redo[i],
                undo[redo.len() - 1 - i],
            ) by {
                assert(rename_in_one_directory(rename_pairs(e)[i]));
                assert(ps.reverse()[n - 1 - i] == ps[i]);
                lemma_rename_back_undoes(ps[i]);
            }
            lemma_undo_inverse_run(fs, redo, undo);
        },
        _ => {},
    }
}

} // verus!
