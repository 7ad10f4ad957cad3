//! Paste/drop destination conflicts: which sources collide, the queue of
//! per-conflict user decisions (Skip / Rename / Overwrite / Cancel, with
//! "apply to all"), and the paused transfer that starts once every conflict
//! is decided.

use vstd::prelude::*;
use crate::paths::{file_name, path_file_name};
use crate::text::{decimal, decimal_padded, push_str};

verus! {

/// How one conflicting source is resolved by the transfer.
#[derive(Clone, Copy, Debug, PartialEq, Eq, Structural)]
pub enum ConflictResolution {
    /// Leave the existing destination alone; do not transfer this source.
    Skip,
    /// Transfer under a fresh unique name next to the existing entry.
    Rename,
    /// Replace the existing destination.
    Overwrite,
}

/// A user choice for one conflict. `Cancel` aborts the whole operation.
#[derive(Clone, Copy, Debug, PartialEq, Eq, Structural)]
pub enum ConflictChoice {
    Skip,
    Rename,
    Overwrite,
    Cancel,
}

/// Signal that the user cancelled the operation (nothing transfers).
#[derive(Clone, Copy, Debug, PartialEq, Eq, Structural)]
pub struct ConflictAborted;

/// The resolution a non-cancel choice records.
pub open spec fn resolution_of(c: ConflictChoice) -> ConflictResolution {
    match c {
        ConflictChoice::Skip => ConflictResolution::Skip,
        ConflictChoice::Rename => ConflictResolution::Rename,
        _ => ConflictResolution::Overwrite,
    }
}

/// One destination conflict presented to the user.
#[derive(Clone, Debug, PartialEq, Eq)]
pub struct ConflictItem {
    /// File name shown in the dialog (equals the colliding destination name).
    pub name: String,
    /// Destination directory display name (the destination's last segment).
    pub destination_dir: String,
    /// Source size in bytes.
    pub size: u64,
    /// Source modification time in unix seconds.
    pub modified: i64,
}

impl ConflictItem {
    /// A field-for-field copy.
    pub fn duplicate(&self) -> (r: ConflictItem)
        ensures
            r == *self,
    {
        ConflictItem {
            name: self.name.clone(),
            destination_dir: self.destination_dir.clone(),
            size: self.size,
            modified: self.modified,
        }
    }
}

/// What the filesystem reported about one source before a transfer: whether
/// the destination entry of that name is occupied, and the source's size and
/// modification time (zero when unreadable).
#[derive(Clone, Copy, Debug, PartialEq, Eq, Structural)]
pub struct SourceProbe {
    pub occupied: bool,
    pub size: u64,
    pub modified: i64,
}

/// The display name of a destination directory: its final name, or the
/// whole path when it has none.
pub open spec fn destination_label(destination: Seq<char>) -> Seq<char> {
    match file_name(destination) {
        Some(n) => n,
        None => destination,
    }
}

/// The conflicts among the first `n` sources, in source order.
pub open spec fn conflicts_upto(
    sources: Seq<Seq<char>>,
    destination: Seq<char>,
    probes: Seq<SourceProbe>,
    n: int,
) -> Seq<(usize, Seq<char>, u64, i64)>
    decreases n,
{
    if n <= 0 {
        seq![]
    } else {
        let prior = conflicts_upto(sources, destination, probes, n - 1);
        let i = n - 1;
        match file_name(sources[i]) {
            Some(name) => if probes[i].occupied {
                prior.push((i as usize, name, probes[i].size, probes[i].modified))
            } else {
                prior
            },
            None => prior,
        }
    }
}

/// The view of a detected conflict list: index, name, size, modified time.
pub open spec fn conflicts_view(cs: Seq<(usize, ConflictItem)>) -> Seq<(usize, Seq<char>, u64, i64)> {
    cs.map_values(|c: (usize, ConflictItem)| (c.0, c.1.name@, c.1.size, c.1.modified))
}

/// Finds every source whose destination entry is occupied, in transfer
/// order, from the per-source filesystem probes. Sources without a final
/// name never conflict.
pub fn detect_conflicts(sources: &Vec<String>, destination: &str, probes: &Vec<SourceProbe>) -> (r:
    Vec<(usize, ConflictItem)>)
    requires
        sources.len() == probes.len(),
    ensures
        conflicts_view(r@) == conflicts_upto(
            sources@.map_values(|s: String| s@),
            destination@,
            probes@,
            sources.len() as int,
        ),
        forall|k: int|
            0 <= k < r@.len() ==> #[trigger] r@[k].1.destination_dir@ == destination_label(
                destination@,
            ),
{
    let ghost sv = sources@.map_values(|s: String| s@);
    let destination_dir = match path_file_name(destination) {
        Some(n) => n,
        None => destination.to_owned(),
    };
    let mut r: Vec<(usize, ConflictItem)> = Vec::new();
    let mut i: usize = 0;
    while i < sources.len()
        invariant
            i <= sources.len() == probes.len(),
            sv == sources@.map_values(|s: String| s@),
            destination_dir@ == destination_label(destination@),
            conflicts_view(r@) == conflicts_upto(sv, destination@, probes@, i as int),
            forall|k: int|
                0 <= k < r@.len() ==> #[trigger] r@[k].1.destination_dir@ == destination_label(
                    destination@,
                ),
        decreases sources.len() - i,
    {
        let probe = probes[i];
        let ghost before = r@;
        match path_file_name(sources[i].as_str()) {
            Some(name) => {
                if probe.occupied {
                    let item = ConflictItem {
                        name,
                        destination_dir: destination_dir.clone(),
                        size: probe.size,
                        modified: probe.modified,
                    };
                    r.push((i, item));
                    proof {
                        assert(conflicts_view(r@) =~= conflicts_view(r@.drop_last()).push(
                            (i, r@.last().1.name@, probe.size, probe.modified),
                        ));
                        assert(r@.drop_last() =~= before);
                    }
                }
            },
            None => {},
        }
        i = i + 1;
    }
    r
}

/// The abstract state of a decision queue.
pub struct QueueModel {
    /// Source indices that conflict, in transfer order.
    pub indices: Seq<usize>,
    /// How many of them have been decided.
    pub cursor: nat,
    /// The resolution recorded for each source so far.
    pub resolutions: Seq<Option<ConflictResolution>>,
    /// The decision adopted for all remaining conflicts, once chosen.
    pub apply_all: Option<ConflictResolution>,
}

/// Whether a queue model is well formed: the cursor is within the conflict
/// list and every conflict index names a source.
pub open spec fn queue_wf(m: QueueModel) -> bool {
    &&& m.cursor <= m.indices.len()
    &&& forall|k: int| 0 <= k < m.indices.len() ==> #[trigger] m.indices[k] < m.resolutions.len()
}

/// `res` recorded for every source listed in `indices[from..]`.
pub open spec fn fill_from(
    resolutions: Seq<Option<ConflictResolution>>,
    indices: Seq<usize>,
    from: int,
    res: ConflictResolution,
) -> Seq<Option<ConflictResolution>> {
    Seq::new(
        resolutions.len(),
        |j: int|
            if exists|k: int| from <= k < indices.len() && indices[k] == j {
                Some(res)
            } else {
                resolutions[j]
            },
    )
}

/// The queue after one decision: a cancel changes nothing; otherwise the
/// current conflict records the resolution and the cursor advances, and with
/// `apply_to_all` every remaining conflict records it too.
pub open spec fn apply_model(m: QueueModel, decision: ConflictChoice, apply_to_all: bool) -> QueueModel {
    if decision == ConflictChoice::Cancel || m.cursor >= m.indices.len() {
        m
    } else {
        let res = resolution_of(decision);
        if apply_to_all {
            QueueModel {
                indices: m.indices,
                cursor: m.indices.len(),
                resolutions: fill_from(m.resolutions, m.indices, m.cursor as int, res),
                apply_all: Some(res),
            }
        } else {
            QueueModel {
                indices: m.indices,
                cursor: m.cursor + 1,
                resolutions: m.resolutions.update(m.indices[m.cursor as int] as int, Some(res)),
                apply_all: m.apply_all,
            }
        }
    }
}

/// Pure decision queue for one paste/drop operation.
#[derive(Clone, Debug)]
pub struct ConflictQueue {
    /// The source indices that conflict, in transfer order.
    pub conflict_indices: Vec<usize>,
    /// How many of them have been decided.
    pub cursor: usize,
    /// Resolutions decided so far, parallel to the original sources.
    /// `None` = no conflict (or no decision yet).
    pub resolutions: Vec<Option<ConflictResolution>>,
    /// Decision stored when the user checked "apply to all".
    pub apply_all: Option<ConflictResolution>,
}

impl ConflictQueue {
    /// The abstract state of this queue.
    pub open spec fn model(&self) -> QueueModel {
        QueueModel {
            indices: self.conflict_indices@,
            cursor: self.cursor as nat,
            resolutions: self.resolutions@,
            apply_all: self.apply_all,
        }
    }

    /// Builds a queue for `source_count` sources with conflicts at
    /// `conflict_indices`: nothing decided yet.
    pub fn new(source_count: usize, conflict_indices: Vec<usize>) -> (q: ConflictQueue)
        requires
            forall|k: int|
                0 <= k < conflict_indices@.len() ==> #[trigger] conflict_indices@[k]
                    < source_count,
        ensures
            q.model() == (QueueModel {
                indices: conflict_indices@,
                cursor: 0,
                resolutions: Seq::new(source_count as nat, |j: int| None),
                apply_all: None,
            }),
            queue_wf(q.model()),
    {
        let mut resolutions: Vec<Option<ConflictResolution>> = Vec::new();
        let mut i: usize = 0;
        while i < source_count
            invariant
                i <= source_count,
                resolutions@ == Seq::new(i as nat, |j: int| None::<ConflictResolution>),
            decreases source_count - i,
        {
            resolutions.push(None);
            i = i + 1;
            proof {
                assert(resolutions@ =~= Seq::new(i as nat, |j: int| None::<ConflictResolution>));
            }
        }
        ConflictQueue { conflict_indices, cursor: 0, resolutions, apply_all: None }
    }

    /// Conflicts still awaiting a decision (0 once apply-to-all fills them).
    pub fn remaining(&self) -> (r: usize)
        requires
            queue_wf(self.model()),
        ensures
            r == self.model().indices.len() - self.model().cursor,
    {
        self.conflict_indices.len() - self.cursor
    }

    /// The source index of the next conflict to present, if any.
    pub fn next_conflict_index(&self) -> (r: Option<usize>)
        ensures
            r == (if self.model().cursor < self.model().indices.len() {
                Some(self.model().indices[self.model().cursor as int])
            } else {
                None
            }),
    {
        if self.cursor < self.conflict_indices.len() {
            Some(self.conflict_indices[self.cursor])
        } else {
            None
        }
    }

    /// Records a user decision for the current conflict. With
    /// `apply_to_all` the same decision is adopted for every remaining
    /// conflict (never for non-conflicting sources). A cancel aborts the
    /// operation and records nothing.
    pub fn apply(&mut self, decision: ConflictChoice, apply_to_all: bool) -> (r: Result<
        (),
        ConflictAborted,
    >)
        requires
            queue_wf(old(self).model()),
        ensures
            final(self).model() == apply_model(old(self).model(), decision, apply_to_all),
            queue_wf(final(self).model()),
            r is Err <==> decision == ConflictChoice::Cancel,
    {
        let ghost m = self.model();
        if decision == ConflictChoice::Cancel {
            return Err(ConflictAborted);
        }
        let resolution = match decision {
            ConflictChoice::Skip => ConflictResolution::Skip,
            ConflictChoice::Rename => ConflictResolution::Rename,
            _ => ConflictResolution::Overwrite,
        };
        assert(resolution == resolution_of(decision));
        let index = match self.next_conflict_index() {
            Some(index) => index,
            None => {
                return Ok(());
            },
        };
        assert(self.cursor < self.conflict_indices.len());
        proof {
            assert(m.indices[m.cursor as int] < m.resolutions.len());
        }
        self.resolutions.set(index, Some(resolution));
        self.cursor = self.cursor + 1;
        proof {
            assert(self.resolutions@ =~= m.resolutions.update(
                m.indices[m.cursor as int] as int,
                Some(resolution),
            ));
        }
        if apply_to_all {
            self.apply_all = Some(resolution);
            let mut k: usize = self.cursor;
            while k < self.conflict_indices.len()
                invariant
                    m.cursor + 1 <= k <= m.indices.len(),
                    self.conflict_indices@ == m.indices,
                    self.cursor == m.cursor + 1,
                    self.apply_all == Some(resolution),
                    queue_wf(m),
                    self.resolutions@.len() == m.resolutions.len(),
                    forall|j: int|
                        0 <= j < m.resolutions.len() ==> #[trigger] self.resolutions@[j] == (
                        if exists|t: int| m.cursor <= t < k && m.indices[t] == j {
                            Some(resolution)
                        } else {
                            m.resolutions[j]
                        }),
                decreases m.indices.len() - k,
            {
                let target = self.conflict_indices[k];
                proof {
                    assert(m.indices[k as int] < m.resolutions.len());
                }
                self.resolutions.set(target, Some(resolution));
                proof {
                    assert forall|j: int| 0 <= j < m.resolutions.len() implies #[trigger] self.resolutions@[j] == (
                    if exists|t: int| m.cursor <= t < k + 1 && m.indices[t] == j {
                        Some(resolution)
                    } else {
                        m.resolutions[j]
                    }) by {
                        if j == target {
                            assert(m.indices[k as int] == j);
                        } else {
                            if exists|t: int| m.cursor <= t < k + 1 && m.indices[t] == j {
                                let t = choose|t: int| m.cursor <= t < k + 1 && m.indices[t] == j;
                                assert(t != k);
                            }
                        }
                    }
                }
                k = k + 1;
            }
            self.cursor = self.conflict_indices.len();
            proof {
                assert(self.resolutions@ =~= fill_from(
                    m.resolutions,
                    m.indices,
                    m.cursor as int,
                    resolution,
                ));
                let am = apply_model(m, decision, apply_to_all);
                assert(self.model().indices == am.indices);
                assert(self.model().cursor == am.cursor);
                assert(self.model().resolutions == am.resolutions);
                assert(self.model().apply_all == am.apply_all);
            }
        } else {
            assert(self.model() == apply_model(m, decision, apply_to_all));
        }
        Ok(())
    }
}

/// How a paste/drop proceeds after conflict detection: at once with an
/// all-unresolved plan when nothing collides, otherwise paused behind the
/// conflict dialog.
pub enum TransferStart {
    /// No collision: transfer now with this plan (one `None` per source).
    Now(Vec<Option<ConflictResolution>>),
    /// Some collisions: ask the user, one conflict at a time.
    Ask(PendingConflicts),
}

/// The paused paste/drop operation awaiting conflict decisions.
pub struct PendingConflicts {
    pub queue: ConflictQueue,
    /// Conflict items in queue order (parallel to the queue's indices).
    pub items: Vec<ConflictItem>,
    /// Position of the item currently shown (in lockstep with the queue).
    pub position: usize,
    /// Whether the next decision applies to every remaining conflict.
    pub apply_all: bool,
}

/// What follows one decision in the conflict dialog.
pub enum ConflictStep {
    /// The user cancelled: nothing transfers.
    Cancelled,
    /// Every conflict is decided: transfer with this plan.
    Start(Vec<Option<ConflictResolution>>),
    /// Show the next conflict, with how many follow it.
    Next { item: ConflictItem, remaining: usize },
}

/// Whether source `j` is one of the first `upto` conflicts.
pub open spec fn decided(indices: Seq<usize>, upto: int, j: int) -> bool {
    exists|k: int| 0 <= k < upto && indices[k] == j
}

/// The invariant of a paused transfer: a well-formed queue with at least
/// one undecided conflict, one item per conflict, the shown position equal
/// to the queue cursor, and a resolution recorded for exactly the sources
/// of the conflicts decided so far.
pub open spec fn pending_wf(p: PendingConflicts) -> bool {
    let m = p.queue.model();
    &&& queue_wf(m)
    &&& p.items@.len() == m.indices.len()
    &&& p.position == m.cursor
    &&& m.cursor < m.indices.len()
    &&& forall|j: int|
        0 <= j < m.resolutions.len() ==> (#[trigger] m.resolutions[j] is Some <==> decided(
            m.indices,
            m.cursor as int,
            j,
        ))
}

/// Decides how a transfer of `source_count` sources starts, given the
/// detected conflicts.
pub fn plan_transfer(source_count: usize, conflicts: Vec<(usize, ConflictItem)>) -> (r:
    TransferStart)
    requires
        forall|k: int| 0 <= k < conflicts@.len() ==> #[trigger] conflicts@[k].0 < source_count,
    ensures
        conflicts@.len() == 0 ==> (r matches TransferStart::Now(plan) && plan@ == Seq::new(
            source_count as nat,
            |j: int| None::<ConflictResolution>,
        )),
        conflicts@.len() > 0 ==> (r matches TransferStart::Ask(p) && pending_wf(p)
            && p.queue.model().indices == conflicts@.map_values(|c: (usize, ConflictItem)| c.0)
            && p.items@ == conflicts@.map_values(|c: (usize, ConflictItem)| c.1)
            && p.queue.model().resolutions.len() == source_count && !p.apply_all),
{
    let mut indices: Vec<usize> = Vec::new();
    let mut items: Vec<ConflictItem> = Vec::new();
    let mut i: usize = 0;
    while i < conflicts.len()
        invariant
            i <= conflicts@.len(),
            indices@ == conflicts@.take(i as int).map_values(|c: (usize, ConflictItem)| c.0),
            items@ == conflicts@.take(i as int).map_values(|c: (usize, ConflictItem)| c.1),
        decreases conflicts@.len() - i,
    {
        indices.push(conflicts[i].0);
        items.push(conflicts[i].1.duplicate());
        proof {
            assert(conflicts@.take(i as int + 1) == conflicts@.take(i as int).push(
                conflicts@[i as int],
            ));
            assert(indices@ =~= conflicts@.take(i as int + 1).map_values(
                |c: (usize, ConflictItem)| c.0,
            ));
            assert(items@ =~= conflicts@.take(i as int + 1).map_values(
                |c: (usize, ConflictItem)| c.1,
            ));
        }
        i = i + 1;
    }
    proof {
        assert(conflicts@.take(conflicts@.len() as int) == conflicts@);
    }
    let queue = ConflictQueue::new(source_count, indices);
    if conflicts.len() == 0 {
        return TransferStart::Now(queue.resolutions);
    }
    TransferStart::Ask(PendingConflicts { queue, items, position: 0, apply_all: false })
}

impl PendingConflicts {
    /// The conflict currently shown.
    pub fn current_item(&self) -> (r: ConflictItem)
        requires
            pending_wf(*self),
        ensures
            r == self.items@[self.position as int],
    {
        self.items[self.position].duplicate()
    }

    /// Conflicts following the one shown (the dialog's "(N more)").
    pub fn remaining_after_current(&self) -> (r: usize)
        requires
            pending_wf(*self),
        ensures
            r == self.queue.model().indices.len() - self.queue.model().cursor - 1,
    {
        self.queue.remaining() - 1
    }

    /// Toggles "apply to all remaining conflicts".
    pub fn toggle_apply_all(&mut self)
        ensures
            final(self).apply_all == !old(self).apply_all,
            final(self).queue == old(self).queue,
            final(self).items == old(self).items,
            final(self).position == old(self).position,
    {
        self.apply_all = !self.apply_all;
    }

    /// Records the user's decision for the current conflict. A cancel aborts
    /// the whole operation. When the last conflict is decided the transfer
    /// starts with a plan that resolves exactly the conflicting sources;
    /// otherwise the dialog moves on to the next conflict.
    pub fn decide(&mut self, choice: ConflictChoice) -> (r: ConflictStep)
        requires
            pending_wf(*old(self)),
        ensures
            choice == ConflictChoice::Cancel ==> r is Cancelled && final(self).queue.model()
                == old(self).queue.model(),
            choice != ConflictChoice::Cancel ==> {
                let m2 = apply_model(old(self).queue.model(), choice, old(self).apply_all);
                &&& final(self).queue.model() == m2
                &&& final(self).position == old(self).position + 1
                &&& (m2.cursor == m2.indices.len() ==> (r matches ConflictStep::Start(plan)
                    && plan@ == m2.resolutions && forall|j: int|
                    0 <= j < plan@.len() ==> (#[trigger] plan@[j] is Some <==> exists|k: int|
                        0 <= k < m2.indices.len() && m2.indices[k] == j)))
                &&& (m2.cursor < m2.indices.len() ==> (r matches ConflictStep::Next {
                    item,
                    remaining,
                } && item == old(self).items@[old(self).position + 1] && remaining
                    == m2.indices.len() - m2.cursor - 1 && pending_wf(*final(self))))
            },
    {
        let ghost m = self.queue.model();
        match self.queue.apply(choice, self.apply_all) {
            Err(_) => ConflictStep::Cancelled,
            Ok(()) => {
                self.position = self.position + 1;
                let ghost m2 = self.queue.model();
                proof {
                    let res = resolution_of(choice);
                    assert forall|j: int| 0 <= j < m2.resolutions.len() implies (
                    #[trigger] m2.resolutions[j] is Some <==> decided(m2.indices, m2.cursor as int, j))
                        by {
                        if self.apply_all {
                            if decided(m2.indices, m2.cursor as int, j) {
                                let k = choose|k: int| 0 <= k < m2.cursor && m2.indices[k] == j;
                                if k < m.cursor {
                                    assert(decided(m.indices, m.cursor as int, j));
                                }
                            } else {
                                assert(!decided(m.indices, m.cursor as int, j));
                            }
                        } else {
                            let cur = m.indices[m.cursor as int] as int;
                            if j == cur {
                                assert(decided(m2.indices, m2.cursor as int, j));
                            } else {
                                if decided(m2.indices, m2.cursor as int, j) {
                                    let k = choose|k: int| 0 <= k < m2.cursor && m2.indices[k] == j;
                                    assert(k != m.cursor);
                                    assert(decided(m.indices, m.cursor as int, j));
                                }
                                if decided(m.indices, m.cursor as int, j) {
                                    let k = choose|k: int| 0 <= k < m.cursor && m.indices[k] == j;
                                    assert(decided(m2.indices, m2.cursor as int, j));
                                }
                            }
                        }
                    }
                }
                if self.queue.remaining() == 0 {
                    let plan = self.queue.resolutions.clone();
                    proof {
                        assert(plan@ =~= m2.resolutions);
                        assert forall|j: int| 0 <= j < plan@.len() implies (#[trigger] plan@[j] is Some
                            <==> exists|k: int| 0 <= k < m2.indices.len() && m2.indices[k] == j) by {
                            assert(m2.resolutions[j] is Some <==> decided(m2.indices, m2.cursor as int, j));
                        }
                    }
                    ConflictStep::Start(plan)
                } else {
                    let item = self.current_item();
                    let remaining = self.remaining_after_current();
                    ConflictStep::Next { item, remaining }
                }
            },
        }
    }
}

/// A cancel leaves the queue exactly as it was.
pub proof fn law_cancel_records_nothing(m: QueueModel, apply_to_all: bool)
    ensures
        apply_model(m, ConflictChoice::Cancel, apply_to_all) == m,
{
}

/// A decision never records a resolution for a source that does not
/// conflict.
pub proof fn law_clean_sources_stay_unresolved(
    m: QueueModel,
    decision: ConflictChoice,
    apply_to_all: bool,
    j: int,
)
    requires
        queue_wf(m),
        0 <= j < m.resolutions.len(),
        forall|k: int| 0 <= k < m.indices.len() ==> #[trigger] m.indices[k] != j,
    ensures
        apply_model(m, decision, apply_to_all).resolutions[j] == m.resolutions[j],
{
}

/// A decision without "apply to all" resolves exactly the current conflict
/// and leaves one fewer to decide; with it, every remaining conflict is
/// resolved the same way and none remain.
pub proof fn law_decision_progress(m: QueueModel, decision: ConflictChoice, apply_to_all: bool)
    requires
        queue_wf(m),
        decision != ConflictChoice::Cancel,
        m.cursor < m.indices.len(),
    ensures
        ({
            let m2 = apply_model(m, decision, apply_to_all);
            &&& queue_wf(m2)
            &&& m2.resolutions[m.indices[m.cursor as int] as int] == Some(resolution_of(decision))
            &&& apply_to_all ==> m2.cursor == m.indices.len() && forall|k: int|
                m.cursor <= k < m.indices.len() ==> m2.resolutions[#[trigger] m.indices[k] as int]
                    == Some(resolution_of(decision))
            &&& !apply_to_all ==> m2.cursor == m.cursor + 1
        }),
{
    let m2 = apply_model(m, decision, apply_to_all);
    if apply_to_all {
        assert forall|k: int| m.cursor <= k < m.indices.len() implies m2.resolutions[
            #[trigger] m.indices[k] as int] == Some(resolution_of(decision)) by {
            assert(m.indices[k] < m.resolutions.len());
        }
        assert(m.indices[m.cursor as int] < m.resolutions.len());
    }
}

/// The queue after each decision of `ds` in turn.
pub open spec fn apply_seq(m: QueueModel, ds: Seq<(ConflictChoice, bool)>) -> QueueModel
    decreases ds.len(),
{
    if ds.len() == 0 {
        m
    } else {
        apply_seq(apply_model(m, ds[0].0, ds[0].1), ds.drop_first())
    }
}

/// The queue [`ConflictQueue::new`] builds for `n` sources with conflicts
/// at `indices`.
pub open spec fn fresh_queue(n: nat, indices: Seq<usize>) -> QueueModel {
    QueueModel {
        indices,
        cursor: 0,
        resolutions: Seq::new(n, |j: int| None),
        apply_all: None,
    }
}

/// No source is listed twice among the conflicts.
pub open spec fn distinct_indices(indices: Seq<usize>) -> bool {
    forall|a: int, b: int|
        0 <= a < b < indices.len() ==> #[trigger] indices[a] != #[trigger] indices[b]
}

/// One decision keeps the queue well formed, keeps its conflicts, never
/// moves the cursor back and never changes an already decided conflict
/// nor a source that does not conflict.
proof fn lemma_one_decision(m: QueueModel, decision: ConflictChoice, apply_to_all: bool)
    requires
        queue_wf(m),
        distinct_indices(m.indices),
    ensures
        ({
            let m2 = apply_model(m, decision, apply_to_all);
            &&& queue_wf(m2)
            &&& m2.indices == m.indices
            &&& m2.resolutions.len() == m.resolutions.len()
            &&& m2.cursor >= m.cursor
            &&& forall|k: int|
                0 <= k < m.cursor ==> m2.resolutions[#[trigger] m.indices[k] as int]
                    == m.resolutions[m.indices[k] as int]
            &&& forall|j: int|
                0 <= j < m.resolutions.len() && (forall|k: int|
                    0 <= k < m.indices.len() ==> #[trigger] m.indices[k] != j)
                    ==> m2.resolutions[j] == m.resolutions[j]
        }),
{
    let m2 = apply_model(m, decision, apply_to_all);
    if decision != ConflictChoice::Cancel && m.cursor < m.indices.len() {
        assert(m.indices[m.cursor as int] < m.resolutions.len());
        assert forall|k: int| 0 <= k < m.cursor implies m2.resolutions[#[trigger] m.indices[k] as int]
            == m.resolutions[m.indices[k] as int] by {
            assert(m.indices[k] < m.resolutions.len());
            assert(m.indices[k] != m.indices[m.cursor as int]);
            if apply_to_all {
                if exists|t: int| m.cursor <= t < m.indices.len() && m.indices[t] == m.indices[k] {
                    let t = choose|t: int|
                        m.cursor <= t < m.indices.len() && m.indices[t] == m.indices[k];
                    assert(m.indices[k] != m.indices[t]);
                }
            }
        }
    }
}

/// Once a conflict is decided, no later decision changes its resolution,
/// and the queue stays well formed throughout.
pub proof fn law_decisions_are_final(m: QueueModel, ds: Seq<(ConflictChoice, bool)>, k: int)
    requires
        queue_wf(m),
        distinct_indices(m.indices),
        0 <= k < m.cursor,
    ensures
        queue_wf(apply_seq(m, ds)),
        apply_seq(m, ds).resolutions[m.indices[k] as int] == m.resolutions[m.indices[k] as int],
    decreases ds.len(),
{
    if ds.len() > 0 {
        let m2 = apply_model(m, ds[0].0, ds[0].1);
        lemma_one_decision(m, ds[0].0, ds[0].1);
        assert(m2.resolutions[m.indices[k] as int] == m.resolutions[m.indices[k] as int]);
        law_decisions_are_final(m2, ds.drop_first(), k);
    }
}

/// A queue built by [`ConflictQueue::new`] stays well formed under any
/// run of decisions, and a source that does not conflict is never
/// resolved.
pub proof fn law_fresh_queue_runs(n: nat, indices: Seq<usize>, ds: Seq<(ConflictChoice, bool)>, j: int)
    requires
        forall|k: int| 0 <= k < indices.len() ==> #[trigger] indices[k] < n,
        distinct_indices(indices),
        0 <= j < n,
        forall|k: int| 0 <= k < indices.len() ==> #[trigger] indices[k] != j,
    ensures
        queue_wf(apply_seq(fresh_queue(n, indices), ds)),
        apply_seq(fresh_queue(n, indices), ds).resolutions[j] is None,
{
    lemma_run_keeps_clean(fresh_queue(n, indices), ds, j);
}

proof fn lemma_run_keeps_clean(m: QueueModel, ds: Seq<(ConflictChoice, bool)>, j: int)
    requires
        queue_wf(m),
        distinct_indices(m.indices),
        0 <= j < m.resolutions.len(),
        forall|k: int| 0 <= k < m.indices.len() ==> #[trigger] m.indices[k] != j,
    ensures
        queue_wf(apply_seq(m, ds)),
        apply_seq(m, ds).resolutions[j] == m.resolutions[j],
    decreases ds.len(),
{
    if ds.len() > 0 {
        let m2 = apply_model(m, ds[0].0, ds[0].1);
        lemma_one_decision(m, ds[0].0, ds[0].1);
        lemma_run_keeps_clean(m2, ds.drop_first(), j);
    }
}

/// The conflict dialog's headline: `"<name>" already exists in "<dir>"`.
pub fn conflict_headline(item: &ConflictItem) -> (r: String)
    ensures
        r@ == "\""@ + item.name@ + "\" already exists in \""@ + item.destination_dir@ + "\""@,
{
    let mut s = String::new();
    push_str(&mut s, "\"");
    push_str(&mut s, item.name.as_str());
    push_str(&mut s, "\" already exists in \"");
    push_str(&mut s, item.destination_dir.as_str());
    push_str(&mut s, "\"");
    s
}

/// The "apply to all" checkbox label for `remaining` conflicts after the
/// one shown: `Apply to all remaining conflicts (N more)`, or no checkbox
/// when none remain.
pub fn apply_all_label(remaining: usize) -> (r: Option<String>)
    ensures
        remaining == 0 ==> r is None,
        remaining > 0 ==> (r matches Some(t) && t@ == "Apply to all remaining conflicts ("@
            + decimal(remaining as nat) + " more)"@),
{
    if remaining == 0 {
        return None;
    }
    let mut s = String::new();
    push_str(&mut s, "Apply to all remaining conflicts (");
    push_str(&mut s, decimal_padded(remaining as u64, 0).as_str());
    push_str(&mut s, " more)");
    Some(s)
}

} // verus!
