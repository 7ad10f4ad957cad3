//! Row selection in a listing: single, toggle (Ctrl), range (Shift), all,
//! keyboard moves, and the live selection and anchor/active rows of an
//! empty-space marquee drag.

use vstd::prelude::*;
use std::collections::BTreeSet;

verus! {

broadcast use {vstd::std_specs::btree::group_btree_axioms, vstd::laws_cmp::group_laws_cmp};

/// The rows of `low..=high`.
pub open spec fn range_set(low: int, high: int) -> Set<usize> {
    Set::new(|i: usize| low <= i <= high)
}

/// Row selection state: the selected rows, the anchor of Shift ranges, and
/// the active row that drives the preview and keyboard navigation.
#[derive(Debug, Clone)]
pub struct Selection {
    /// Indices of all currently selected rows.
    pub selected: BTreeSet<usize>,
    /// Anchor row for Shift range selection.
    pub anchor: Option<usize>,
    /// The active/primary row.
    pub active: Option<usize>,
}

/// A set of `0..n` built by insertion.
fn set_of_range(low: usize, high: usize) -> (r: BTreeSet<usize>)
    ensures
        r@ == range_set(low as int, high as int),
{
    let mut r: BTreeSet<usize> = BTreeSet::new();
    if low > high {
        proof {
            assert(r@ =~= range_set(low as int, high as int));
        }
        return r;
    }
    let mut i: usize = low;
    while i < high
        invariant
            low <= i <= high,
            r@ == range_set(low as int, i as int - 1),
        decreases high - i,
    {
        r.insert(i);
        proof {
            assert(r@ =~= range_set(low as int, i as int));
        }
        i = i + 1;
    }
    r.insert(high);
    proof {
        assert(r@ =~= range_set(low as int, high as int));
    }
    r
}

/// The selected rows after toggling row `ix`.
pub open spec fn toggled(s: Set<usize>, ix: usize) -> Set<usize> {
    if s.contains(ix) {
        s.remove(ix)
    } else {
        s.insert(ix)
    }
}

/// Toggling the same row twice leaves the selected rows as they were.
pub proof fn law_toggle_twice_restores(s: Set<usize>, ix: usize)
    ensures
        toggled(toggled(s, ix), ix) == s,
{
    assert(toggled(toggled(s, ix), ix) =~= s);
}

impl Selection {
    /// Nothing selected, no anchor, no active row.
    pub fn new() -> (r: Selection)
        ensures
            r.selected@ == Set::<usize>::empty(),
            r.anchor is None,
            r.active is None,
    {
        Selection { selected: BTreeSet::new(), anchor: None, active: None }
    }

    /// Whether row `ix` is selected.
    pub fn is_selected(&self, ix: usize) -> (r: bool)
        ensures
            r == self.selected@.contains(ix),
    {
        self.selected.contains(&ix)
    }

    /// Replaces the selection with the single row `ix`, making it both the
    /// anchor and the active row (a plain click or arrow-key move).
    pub fn select_single(&mut self, ix: usize)
        ensures
            final(self).selected@ == set![ix],
            final(self).anchor == Some(ix),
            final(self).active == Some(ix),
    {
        self.selected.clear();
        self.selected.insert(ix);
        self.anchor = Some(ix);
        self.active = Some(ix);
        proof {
            assert(self.selected@ =~= set![ix]);
        }
    }

    /// Toggles row `ix` (Ctrl+click) and re-anchors there.
    pub fn toggle_select(&mut self, ix: usize)
        ensures
            final(self).selected@ == toggled(old(self).selected@, ix),
            final(self).anchor == Some(ix),
            final(self).active == Some(ix),
    {
        if !self.selected.remove(&ix) {
            self.selected.insert(ix);
        }
        self.anchor = Some(ix);
        self.active = Some(ix);
    }

    /// Selects the contiguous range between the anchor and `ix`
    /// (Shift+click / Shift+arrow), making `ix` active; without an anchor it
    /// is a single selection.
    pub fn select_range_to(&mut self, ix: usize)
        ensures
            match old(self).anchor {
                Some(a) => final(self).selected@ == range_set(
                    if a <= ix {
                        a as int
                    } else {
                        ix as int
                    },
                    if a <= ix {
                        ix as int
                    } else {
                        a as int
                    },
                ) && final(self).anchor == Some(a) && final(self).active == Some(ix),
                None => final(self).selected@ == set![ix] && final(self).anchor == Some(ix)
                    && final(self).active == Some(ix),
            },
    {
        let anchor = match self.anchor {
            Some(anchor) => anchor,
            None => {
                self.select_single(ix);
                return;
            },
        };
        let (low, high) = if anchor <= ix {
            (anchor, ix)
        } else {
            (ix, anchor)
        };
        self.selected = set_of_range(low, high);
        self.active = Some(ix);
    }

    /// Selects every row of a listing of `len` rows: anchored at the first,
    /// active on the last.
    pub fn select_all(&mut self, len: usize)
        ensures
            final(self).selected@ == range_set(0, len - 1),
            final(self).anchor == (if len > 0 {
                Some(0usize)
            } else {
                None
            }),
            final(self).active == (if len > 0 {
                Some((len - 1) as usize)
            } else {
                None
            }),
    {
        if len == 0 {
            self.selected = BTreeSet::new();
            proof {
                assert(self.selected@ =~= range_set(0, -1));
            }
            self.anchor = None;
            self.active = None;
        } else {
            self.selected = set_of_range(0, len - 1);
            self.anchor = Some(0);
            self.active = Some(len - 1);
        }
    }

    /// Clears the selection, anchor, and active row.
    pub fn clear(&mut self)
        ensures
            final(self).selected@ == Set::<usize>::empty(),
            final(self).anchor is None,
            final(self).active is None,
    {
        self.selected.clear();
        self.anchor = None;
        self.active = None;
    }

    /// Moves the active row by `delta` rows within a listing of `len` rows,
    /// clamped to the listing; from no active row it lands on the first.
    /// With `extend` (Shift) the selection grows from the anchor, otherwise
    /// the target becomes the sole selection. An empty listing is left
    /// untouched.
    pub fn move_active(&mut self, delta: isize, extend: bool, len: usize)
        requires
            len <= isize::MAX,
            old(self).active matches Some(c) ==> c <= isize::MAX && isize::MIN <= c + delta
                <= isize::MAX,
        ensures
            len == 0 ==> *final(self) == *old(self),
            len > 0 ==> {
                let next = move_target(old(self).active, delta as int, len as int);
                &&& final(self).active == Some(next as usize)
                &&& !extend ==> final(self).selected@ == set![next as usize] && final(self).anchor
                    == Some(next as usize)
                &&& extend ==> match old(self).anchor {
                    Some(a) => final(self).selected@ == range_set(
                        if a <= next {
                            a as int
                        } else {
                            next
                        },
                        if a <= next {
                            next
                        } else {
                            a as int
                        },
                    ) && final(self).anchor == Some(a),
                    None => final(self).selected@ == set![next as usize] && final(self).anchor
                        == Some(next as usize),
                }
            },
    {
        if len == 0 {
            return;
        }
        let next: usize = match self.active {
            Some(current) => {
                let target: i128 = current as i128 + delta as i128;
                let max: i128 = len as i128 - 1;
                if target < 0 {
                    0
                } else if target > max {
                    (len - 1) as usize
                } else {
                    target as usize
                }
            },
            None => 0,
        };
        if extend {
            self.select_range_to(next);
        } else {
            self.select_single(next);
        }
    }
}

/// The row a keyboard move lands on: `current + delta` clamped to
/// `0..len`, or the first row when nothing is active.
pub open spec fn move_target(active: Option<usize>, delta: int, len: int) -> int {
    match active {
        Some(c) => if c + delta < 0 {
            0
        } else if c + delta > len - 1 {
            len - 1
        } else {
            c + delta
        },
        None => 0,
    }
}

/// Computes the live selection of a marquee drag from the selection at the
/// press and the current hits: the hits alone, or added to the press
/// selection with Ctrl.
pub fn selection_for_hits(base_selection: &BTreeSet<usize>, hits: &[usize], additive: bool) -> (r:
    BTreeSet<usize>)
    ensures
        r@ == (if additive {
            base_selection@
        } else {
            Set::<usize>::empty()
        }).union(hits@.to_set()),
{
    let mut selection = if additive {
        base_selection.clone()
    } else {
        BTreeSet::new()
    };
    let ghost start = selection@;
    let mut i: usize = 0;
    while i < hits.len()
        invariant
            i <= hits@.len(),
            selection@ == start.union(hits@.take(i as int).to_set()),
        decreases hits@.len() - i,
    {
        selection.insert(hits[i]);
        proof {
            assert(hits@.take(i as int + 1) == hits@.take(i as int).push(hits@[i as int]));
            hits@.take(i as int).lemma_push_to_set_commute(hits@[i as int]);
            assert(selection@ =~= start.union(hits@.take(i as int + 1).to_set()));
        }
        i = i + 1;
    }
    proof {
        assert(hits@.take(hits@.len() as int) == hits@);
    }
    selection
}

/// Whether `m` is the least element of `s`.
pub open spec fn is_least(s: Set<usize>, m: usize) -> bool {
    s.contains(m) && forall|x: usize| #[trigger] s.contains(x) ==> m <= x
}

/// Whether `m` is the greatest element of `s`.
pub open spec fn is_greatest(s: Set<usize>, m: usize) -> bool {
    s.contains(m) && forall|x: usize| #[trigger] s.contains(x) ==> x <= m
}

/// The elements of a set, in increasing order.
fn elements_of(s: &BTreeSet<usize>) -> (v: Vec<usize>)
    ensures
        v@.to_set() == s@,
{
    let mut v: Vec<usize> = Vec::new();
    for h in it: s.iter()
        invariant
            it.seq().unref().to_set() == s@,
            forall|x: usize| #[trigger] v@.contains(x) ==> s@.contains(x),
            forall|x: usize|
                #[trigger] s@.contains(x) ==> v@.contains(x) || exists|k: int|
                    it.index() <= k < it.seq().len() && *it.seq()[k] == x,
    {
        let ghost before = v@;
        proof {
            assert(it.seq().unref().to_set().contains(*h)) by {
                assert(it.seq().unref()[it.index()] == *h);
            }
        }
        v.push(*h);
        proof {
            assert forall|x: usize| #[trigger] v@.contains(x) implies s@.contains(x) by {
                if x != *h {
                    assert(before.contains(x));
                }
            }
            assert forall|x: usize| #[trigger] s@.contains(x) implies v@.contains(x) || exists|k: int|
                it.index() + 1 <= k < it.seq().len() && *it.seq()[k] == x by {
                if !before.contains(x) && x != *h {
                    let k = choose|k: int| it.index() <= k < it.seq().len() && *it.seq()[k] == x;
                    assert(k != it.index());
                }
                if before.contains(x) {
                    let j = choose|j: int| 0 <= j < before.len() && before[j] == x;
                    assert(v@[j] == x);
                }
                if x == *h {
                    assert(v@[v@.len() - 1] == x);
                }
            }
        }
    }
    proof {
        assert(v@.to_set() =~= s@);
    }
    v
}

/// The least and greatest elements of a set, if it has any.
fn bounds_of(hits: &BTreeSet<usize>) -> (r: Option<(usize, usize)>)
    ensures
        hits@.len() == 0 <==> r is None,
        r matches Some(b) ==> is_least(hits@, b.0) && is_greatest(hits@, b.1),
{
    let v = elements_of(hits);
    proof {
        vstd::seq_lib::seq_to_set_is_finite(v@);
    }
    if v.len() == 0 {
        proof {
            assert(v@.to_set() =~= Set::<usize>::empty());
        }
        return None;
    }
    let mut lo: usize = v[0];
    let mut hi: usize = v[0];
    let mut i: usize = 1;
    while i < v.len()
        invariant
            1 <= i <= v@.len(),
            v@.contains(lo),
            v@.contains(hi),
            forall|k: int| 0 <= k < i ==> lo <= #[trigger] v@[k] <= hi,
        decreases v@.len() - i,
    {
        if v[i] < lo {
            lo = v[i];
        }
        if v[i] > hi {
            hi = v[i];
        }
        i = i + 1;
    }
    proof {
        assert(v@.to_set().contains(v@[0]));
        assert forall|x: usize| #[trigger] hits@.contains(x) implies lo <= x <= hi by {
            assert(v@.to_set().contains(x));
        }
    }
    Some((lo, hi))
}

/// The anchor and active rows applied when a marquee drag completes: the
/// lowest and highest hit for a plain drag; with Ctrl the prior anchor (else
/// the lowest hit) and the highest hit (else the prior active row).
pub fn completion_indices(
    hits: &BTreeSet<usize>,
    additive: bool,
    prior_anchor: Option<usize>,
    prior_active: Option<usize>,
) -> (r: (Option<usize>, Option<usize>))
    ensures
        hits@.len() == 0 ==> r == (if additive {
            (prior_anchor, prior_active)
        } else {
            (None::<usize>, None::<usize>)
        }),
        hits@.len() > 0 ==> {
            &&& (r.0 matches Some(a) && (if additive && prior_anchor is Some {
                a == prior_anchor->0
            } else {
                is_least(hits@, a)
            }))
            &&& (r.1 matches Some(b) && is_greatest(hits@, b))
        },
{
    let bounds = bounds_of(hits);
    if !additive {
        return match bounds {
            Some((lo, hi)) => (Some(lo), Some(hi)),
            None => (None, None),
        };
    }
    let anchor = match prior_anchor {
        Some(a) => Some(a),
        None => match bounds {
            Some((lo, _)) => Some(lo),
            None => None,
        },
    };
    let active = match bounds {
        Some((_, hi)) => Some(hi),
        None => prior_active,
    };
    (anchor, active)
}

} // verus!
