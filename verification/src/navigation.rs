//! Back/forward navigation history of an explorer pane.

use vstd::prelude::*;

verus! {

/// The abstract state of a pane's navigation: the current directory, the
/// visited directories, and the position of the current one among them.
pub struct NavModel {
    pub cwd: Seq<char>,
    pub history: Seq<Seq<char>>,
    pub index: nat,
}

/// Whether a navigation state is consistent: an empty history sits at
/// position 0; otherwise the position is inside the history and names the
/// current directory.
pub open spec fn nav_wf(m: NavModel) -> bool {
    &&& m.history.len() == 0 ==> m.index == 0
    &&& m.history.len() > 0 ==> m.index < m.history.len() && m.history[m.index as int] == m.cwd
}

/// Recording a forward navigation to `path`: the history is seeded with the
/// current directory on first use, entries after the current position are
/// dropped, and `path` becomes the newest entry and the current position.
pub open spec fn push_model(m: NavModel, path: Seq<char>) -> NavModel {
    let seeded = if m.history.len() == 0 {
        seq![m.cwd]
    } else {
        m.history
    };
    let index: nat = if m.history.len() == 0 {
        0
    } else {
        m.index
    };
    let kept = if index + 1 < seeded.len() {
        seeded.take((index + 1) as int)
    } else {
        seeded
    };
    NavModel { cwd: path, history: kept.push(path), index: index + 1 }
}

/// A step back, when there is an earlier entry.
pub open spec fn back_model(m: NavModel) -> NavModel {
    if m.index > 0 {
        NavModel {
            cwd: m.history[(m.index - 1) as int],
            history: m.history,
            index: (m.index - 1) as nat,
        }
    } else {
        m
    }
}

/// A step forward, when there is a later entry.
pub open spec fn forward_model(m: NavModel) -> NavModel {
    if m.index + 1 < m.history.len() {
        NavModel {
            cwd: m.history[(m.index + 1) as int],
            history: m.history,
            index: m.index + 1,
        }
    } else {
        m
    }
}

/// Navigation history of one explorer pane.
#[derive(Debug, Clone)]
pub struct NavHistory {
    /// Absolute path of the currently displayed directory.
    pub cwd: String,
    /// Visited directories, oldest first.
    pub history: Vec<String>,
    /// Position of the current directory within `history`.
    pub history_index: usize,
}

impl NavHistory {
    /// The abstract state.
    pub open spec fn model(&self) -> NavModel {
        NavModel {
            cwd: self.cwd@,
            history: self.history@.map_values(|s: String| s@),
            index: self.history_index as nat,
        }
    }

    /// A pane showing `cwd` with no history yet.
    pub fn new(cwd: String) -> (r: NavHistory)
        ensures
            r.model() == (NavModel { cwd: cwd@, history: seq![], index: 0 }),
            nav_wf(r.model()),
    {
        let r = NavHistory { cwd, history: Vec::new(), history_index: 0 };
        proof {
            assert(r.model().history =~= seq![]);
        }
        r
    }

    /// Records a forward navigation to `path` in the history.
    pub fn push_history(&mut self, path: String)
        requires
            nav_wf(old(self).model()),
        ensures
            final(self).model() == (NavModel {
                cwd: old(self).model().cwd,
                ..push_model(old(self).model(), path@)
            }),
    {
        let ghost m = self.model();
        if self.history.len() == 0 {
            let c = self.cwd.clone();
            self.history.push(c);
            self.history_index = 0;
            proof {
                assert(self.history@.map_values(|s: String| s@) =~= seq![m.cwd]);
            }
        }
        let ghost seeded = self.history@.map_values(|s: String| s@);
        if self.history_index + 1 < self.history.len() {
            self.history.truncate(self.history_index + 1);
            proof {
                assert(self.history@.map_values(|s: String| s@) =~= seeded.take(
                    (self.history_index + 1) as int,
                ));
            }
        }
        let ghost kept = self.history@.map_values(|s: String| s@);
        self.history.push(path);
        proof {
            assert(self.history@.map_values(|s: String| s@) =~= kept.push(path@));
        }
        self.history_index = self.history_index + 1;
    }

    /// Navigates to `path` unless it is already the current directory:
    /// records it in the history and makes it current. Returns whether the
    /// pane moved.
    pub fn navigate(&mut self, path: String) -> (moved: bool)
        requires
            nav_wf(old(self).model()),
        ensures
            moved == (path@ != old(self).model().cwd),
            moved ==> final(self).model() == push_model(old(self).model(), path@),
            !moved ==> final(self).model() == old(self).model(),
            nav_wf(final(self).model()),
    {
        if path == self.cwd {
            return false;
        }
        let c = path.clone();
        self.push_history(c);
        self.cwd = path;
        proof {
            let m = self.model();
            assert(m.history.last() == m.cwd);
        }
        true
    }

    /// Steps back one entry, if there is one. Returns whether the pane moved.
    pub fn go_back(&mut self) -> (moved: bool)
        requires
            nav_wf(old(self).model()),
        ensures
            moved == (old(self).model().index > 0),
            final(self).model() == back_model(old(self).model()),
            !moved ==> *final(self) == *old(self),
            nav_wf(final(self).model()),
    {
        if self.history_index > 0 {
            self.history_index = self.history_index - 1;
            self.cwd = self.history[self.history_index].clone();
            return true;
        }
        false
    }

    /// Steps forward one entry, if there is one. Returns whether the pane
    /// moved.
    pub fn go_forward(&mut self) -> (moved: bool)
        requires
            nav_wf(old(self).model()),
        ensures
            moved == (old(self).model().index + 1 < old(self).model().history.len()),
            final(self).model() == forward_model(old(self).model()),
            !moved ==> *final(self) == *old(self),
            nav_wf(final(self).model()),
    {
        proof {
            assert(self.history@.map_values(|s: String| s@).len() == self.history.len());
        }
        if self.history_index + 1 < self.history.len() {
            self.history_index = self.history_index + 1;
            self.cwd = self.history[self.history_index].clone();
            return true;
        }
        false
    }
}

/// Navigating somewhere new and then stepping back returns to the
/// directory the pane came from.
pub proof fn law_back_returns_to_origin(m: NavModel, path: Seq<char>)
    requires
        nav_wf(m),
    ensures
        back_model(push_model(m, path)).cwd == m.cwd,
{
}

/// After a navigation there is no forward history.
pub proof fn law_navigation_drops_forward(m: NavModel, path: Seq<char>)
    requires
        nav_wf(m),
    ensures
        forward_model(push_model(m, path)) == push_model(m, path),
        nav_wf(push_model(m, path)),
{
}

/// Stepping back and then forward restores the state exactly.
pub proof fn law_back_forward_round_trip(m: NavModel)
    requires
        nav_wf(m),
        m.index > 0,
    ensures
        forward_model(back_model(m)) == m,
{
}

} // verus!
