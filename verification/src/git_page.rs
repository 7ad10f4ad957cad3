//! The checks the Git page makes on its inputs before running a
//! repository operation, the messages it shows when one fails, pinning the
//! page to a repository, and the page's state as reads and operations
//! finish: a status read that a newer one has replaced is dropped, and so is
//! the detail of a commit that is no longer selected.

use vstd::prelude::*;
use crate::pages::{git_view_for_name, GitView};
use crate::text::{decimal, decimal_padded, lowercase, push_str, str_eq, trim_chars, trimmed};

verus! {

/// A repository operation started from the Git page, with what names it.
#[derive(Clone, Debug, PartialEq, Eq)]
pub enum GitAction {
    Stage(String),
    Unstage(String),
    Commit { amend: bool },
    Checkout(String),
    CreateBranch(String),
    Diff(String),
    CommitDetail(String),
    Fetch(String),
    RemoteDelete(String),
    AddRemote(String),
    Push,
    Pull,
    Stash,
    StashPop,
    StashDrop,
}

/// The prefix of an operation's failure message, before `: <error>`.
pub open spec fn action_prefix(a: GitAction) -> Seq<char> {
    match a {
        GitAction::Stage(p) => "stage "@ + p@,
        GitAction::Unstage(p) => "unstage "@ + p@,
        GitAction::Commit { amend } => if amend {
            "amend"@
        } else {
            "commit"@
        },
        GitAction::Checkout(n) => "checkout "@ + n@,
        GitAction::CreateBranch(n) => "create branch "@ + n@,
        GitAction::Diff(p) => "diff "@ + p@,
        GitAction::CommitDetail(h) => "commit detail "@ + h@,
        GitAction::Fetch(n) => "fetch "@ + n@,
        GitAction::RemoteDelete(n) => "remote delete "@ + n@,
        GitAction::AddRemote(n) => "add remote "@ + n@,
        GitAction::Push => "push"@,
        GitAction::Pull => "pull"@,
        GitAction::Stash => "stash"@,
        GitAction::StashPop => "stash pop"@,
        GitAction::StashDrop => "stash drop"@,
    }
}

fn named(prefix: &str, name: &String) -> (r: String)
    ensures
        r@ == prefix@ + name@,
{
    let mut s = prefix.to_string();
    push_str(&mut s, name.as_str());
    s
}

/// The error shown when an operation fails: `<operation>: <error>`, the
/// operation naming its path, branch, commit or remote where it has one.
pub fn failure_message(action: &GitAction, error: &str) -> (r: String)
    ensures
        r@ == action_prefix(*action) + ": "@ + error@,
{
    let mut s = match action {
        GitAction::Stage(p) => named("stage ", p),
        GitAction::Unstage(p) => named("unstage ", p),
        GitAction::Commit { amend } => if *amend {
            "amend".to_string()
        } else {
            "commit".to_string()
        },
        GitAction::Checkout(n) => named("checkout ", n),
        GitAction::CreateBranch(n) => named("create branch ", n),
        GitAction::Diff(p) => named("diff ", p),
        GitAction::CommitDetail(h) => named("commit detail ", h),
        GitAction::Fetch(n) => named("fetch ", n),
        GitAction::RemoteDelete(n) => named("remote delete ", n),
        GitAction::AddRemote(n) => named("add remote ", n),
        GitAction::Push => "push".to_string(),
        GitAction::Pull => "pull".to_string(),
        GitAction::Stash => "stash".to_string(),
        GitAction::StashPop => "stash pop".to_string(),
        GitAction::StashDrop => "stash drop".to_string(),
    };
    push_str(&mut s, ": ");
    push_str(&mut s, error);
    proof {
        reveal_strlit(": ");
    }
    s
}

/// Whether a typed value is blank: empty once surrounding whitespace is
/// trimmed.
pub open spec fn blank(s: Seq<char>) -> bool {
    trimmed(s).len() == 0
}

fn is_blank(s: &str) -> (r: bool)
    ensures
        r == blank(s@),
{
    trim_chars(s).len() == 0
}

/// The error that stops a commit before it runs: a blank message, unless
/// amending (which keeps the commit's message).
pub fn commit_message_error(message: &str, amend: bool) -> (r: Option<String>)
    ensures
        blank(message@) && !amend ==> (r matches Some(e) && e@ == "commit message is empty"@),
        !(blank(message@) && !amend) ==> r is None,
{
    if is_blank(message) && !amend {
        return Some("commit message is empty".to_string());
    }
    None
}

/// The error that stops a branch from being created: a blank name.
pub fn branch_name_error(name: &str) -> (r: Option<String>)
    ensures
        blank(name@) ==> (r matches Some(e) && e@ == "branch name is empty"@),
        !blank(name@) ==> r is None,
{
    if is_blank(name) {
        return Some("branch name is empty".to_string());
    }
    None
}

/// The error that stops a remote from being added: a blank name or URL.
pub fn remote_inputs_error(name: &str, url: &str) -> (r: Option<String>)
    ensures
        blank(name@) || blank(url@) ==> (r matches Some(e) && e@
            == "remote name and url are both required"@),
        !(blank(name@) || blank(url@)) ==> r is None,
{
    if is_blank(name) || is_blank(url) {
        return Some("remote name and url are both required".to_string());
    }
    None
}

/// The pinned repository after the pin button: a pinned page is unpinned;
/// an unpinned one is pinned to the repository it shows, if any.
pub fn toggle_pin(pinned: Option<String>, shown_workdir: Option<String>) -> (r: Option<String>)
    ensures
        pinned is Some ==> r is None,
        pinned is None ==> r == shown_workdir,
{
    if pinned.is_some() {
        None
    } else {
        shown_workdir
    }
}

/// Operations that the page runs one at a time: while one runs, another
/// request is refused.
pub open spec fn exclusive(a: GitAction) -> bool {
    match a {
        GitAction::Fetch(_) | GitAction::RemoteDelete(_) | GitAction::AddRemote(_)
        | GitAction::Push | GitAction::Pull | GitAction::Stash | GitAction::StashPop
        | GitAction::StashDrop => true,
        _ => false,
    }
}

/// Operations that, once done, empty the input they read (the commit
/// message, the new branch name, the remote form, the stash message).
pub open spec fn clears_input(a: GitAction) -> bool {
    match a {
        GitAction::Commit { .. } | GitAction::CreateBranch(_) | GitAction::AddRemote(_)
        | GitAction::Stash => true,
        _ => false,
    }
}

fn is_exclusive(a: &GitAction) -> (r: bool)
    ensures
        r == exclusive(*a),
{
    match a {
        GitAction::Fetch(_) | GitAction::RemoteDelete(_) | GitAction::AddRemote(_)
        | GitAction::Push | GitAction::Pull | GitAction::Stash | GitAction::StashPop
        | GitAction::StashDrop => true,
        _ => false,
    }
}

/// The diff shown in the Changes view.
#[derive(Clone, Debug, PartialEq, Eq)]
pub struct DiffSelection {
    /// The file diffed.
    pub path: String,
    /// Whether the staged side was diffed.
    pub staged: bool,
    /// The unified diff.
    pub text: String,
}

/// What a status read of the repository reported.
#[derive(Clone, Debug)]
pub enum RefreshResult {
    /// The repository was read; the full hashes of the commits in the
    /// bounded history, newest first.
    Read { history: Vec<String> },
    /// The directory is not inside a repository.
    NotARepository,
    /// The read failed with this error.
    Failed(String),
}

/// The state of the Git page that reads and operations change; `D` is the
/// detail of a commit.
#[derive(Clone, Debug)]
pub struct GitPanel<D> {
    /// The sub-view shown.
    pub view: GitView,
    /// Whether the directory shown is outside any repository.
    pub no_repo: bool,
    /// The error shown, if any.
    pub error: Option<String>,
    /// Whether a status read is in flight.
    pub refreshing: bool,
    /// How many status reads were started; only the latest one applies.
    pub refresh_generation: u64,
    /// Whether an exclusive operation runs.
    pub busy: bool,
    /// The diff shown, if any.
    pub selected_diff: Option<DiffSelection>,
    /// Full hashes of the commits in the history shown.
    pub history: Vec<String>,
    /// The commit selected in the History view.
    pub selected_commit: Option<String>,
    /// The detail of the selected commit, once read.
    pub commit_detail: Option<D>,
    /// Whether the commit box amends the last commit.
    pub amend: bool,
}

/// Whether `h` is among the hashes of `history`.
pub open spec fn in_history(history: Seq<String>, h: Seq<char>) -> bool {
    exists|i: int| 0 <= i < history.len() && (#[trigger] history[i])@ == h
}

fn contains_hash(history: &Vec<String>, h: &str) -> (r: bool)
    ensures
        r == in_history(history@, h@),
{
    let mut i: usize = 0;
    while i < history.len()
        invariant
            i <= history@.len(),
            forall|j: int| 0 <= j < i ==> (#[trigger] history@[j])@ != h@,
        decreases history@.len() - i,
    {
        if str_eq(history[i].as_str(), h) {
            return true;
        }
        i = i + 1;
    }
    false
}

impl<D> GitPanel<D> {
    /// A page showing `view`, before any read.
    pub fn new(view: GitView) -> (r: GitPanel<D>)
        ensures
            r.view == view,
            !r.no_repo,
            r.error is None,
            !r.refreshing,
            r.refresh_generation == 0,
            !r.busy,
            r.selected_diff is None,
            r.history@.len() == 0,
            r.selected_commit is None,
            r.commit_detail is None,
            !r.amend,
    {
        GitPanel {
            view,
            no_repo: false,
            error: None,
            refreshing: false,
            refresh_generation: 0,
            busy: false,
            selected_diff: None,
            history: Vec::new(),
            selected_commit: None,
            commit_detail: None,
            amend: false,
        }
    }

    /// Starts a status read when the page knows its directory, returning
    /// the read's generation; without a directory nothing happens.
    pub fn begin_refresh(&mut self, has_dir: bool) -> (g: Option<u64>)
        requires
            old(self).refresh_generation < u64::MAX,
        ensures
            !has_dir ==> g is None && *final(self) == *old(self),
            has_dir ==> {
                &&& g == Some((old(self).refresh_generation + 1) as u64)
                &&& final(self).refresh_generation == old(self).refresh_generation + 1
                &&& final(self).refreshing
                &&& *old(self) == (GitPanel {
                    refreshing: old(self).refreshing,
                    refresh_generation: old(self).refresh_generation,
                    ..*final(self)
                })
            },
    {
        if !has_dir {
            return None;
        }
        self.refreshing = true;
        self.refresh_generation = self.refresh_generation + 1;
        Some(self.refresh_generation)
    }

    /// Takes the result of the status read `generation`. A read that a
    /// newer one has replaced changes nothing. Otherwise the read is over;
    /// a repository read replaces the history, keeps the selected commit
    /// only while it is still in it, and clears the error; outside a
    /// repository everything read from one is cleared; a failure shows its
    /// error. Returns whether the result was applied.
    pub fn finish_refresh(&mut self, generation: u64, result: RefreshResult) -> (applied: bool)
        ensures
            applied == (generation == old(self).refresh_generation),
            !applied ==> *final(self) == *old(self),
            applied ==> {
                &&& !final(self).refreshing
                &&& final(self).refresh_generation == old(self).refresh_generation
                &&& final(self).busy == old(self).busy
                &&& final(self).amend == old(self).amend
                &&& final(self).view == old(self).view
            },
            applied ==> match result {
                RefreshResult::Read { history } => {
                    &&& final(self).history == history
                    &&& !final(self).no_repo
                    &&& final(self).error is None
                    &&& final(self).selected_diff == old(self).selected_diff
                    &&& match old(self).selected_commit {
                        Some(h) => if in_history(history@, h@) {
                            &&& final(self).selected_commit == old(self).selected_commit
                            &&& final(self).commit_detail == old(self).commit_detail
                        } else {
                            &&& final(self).selected_commit is None
                            &&& final(self).commit_detail is None
                        },
                        None => {
                            &&& final(self).selected_commit is None
                            &&& final(self).commit_detail == old(self).commit_detail
                        },
                    }
                },
                RefreshResult::NotARepository => {
                    &&& final(self).no_repo
                    &&& final(self).error is None
                    &&& final(self).history@.len() == 0
                    &&& final(self).selected_diff is None
                    &&& final(self).selected_commit is None
                    &&& final(self).commit_detail is None
                },
                RefreshResult::Failed(e) => {
                    &&& final(self).error == Some(e)
                    &&& final(self).no_repo == old(self).no_repo
                    &&& final(self).history == old(self).history
                    &&& final(self).selected_diff == old(self).selected_diff
                    &&& final(self).selected_commit == old(self).selected_commit
                    &&& final(self).commit_detail == old(self).commit_detail
                },
            },
    {
        if generation != self.refresh_generation {
            return false;
        }
        self.refreshing = false;
        match result {
            RefreshResult::Read { history } => {
                let keep = match &self.selected_commit {
                    Some(h) => contains_hash(&history, h.as_str()),
                    None => true,
                };
                if !keep {
                    self.selected_commit = None;
                    self.commit_detail = None;
                }
                self.history = history;
                self.no_repo = false;
                self.error = None;
            },
            RefreshResult::NotARepository => {
                self.history = Vec::new();
                self.selected_diff = None;
                self.selected_commit = None;
                self.commit_detail = None;
                self.no_repo = true;
                self.error = None;
            },
            RefreshResult::Failed(e) => {
                self.error = Some(e);
            },
        }
        true
    }

    /// Selects the commit `hash` in the History view; its detail is read
    /// afresh.
    pub fn select_commit(&mut self, hash: String)
        ensures
            final(self).selected_commit == Some(hash),
            final(self).commit_detail is None,
            *old(self) == (GitPanel {
                selected_commit: old(self).selected_commit,
                commit_detail: old(self).commit_detail,
                ..*final(self)
            }),
    {
        self.selected_commit = Some(hash);
        self.commit_detail = None;
    }

    /// Takes the detail read for commit `hash`. When another commit has
    /// been selected since, nothing changes; otherwise the detail is shown
    /// and the error cleared, or the failure is shown. Returns whether the
    /// result was applied.
    pub fn commit_detail_loaded(&mut self, hash: &str, result: Result<D, String>) -> (applied: bool)
        ensures
            applied == (old(self).selected_commit matches Some(h) && h@ == hash@),
            !applied ==> *final(self) == *old(self),
            applied ==> match result {
                Ok(d) => final(self).commit_detail == Some(d) && final(self).error is None,
                Err(e) => {
                    &&& final(self).commit_detail == old(self).commit_detail
                    &&& final(self).error matches Some(m) && m@ == "commit detail "@ + hash@
                        + ": "@ + e@
                },
            },
            applied ==> {
                &&& final(self).selected_commit == old(self).selected_commit
                &&& final(self).history == old(self).history
                &&& final(self).selected_diff == old(self).selected_diff
            },
    {
        let current = match &self.selected_commit {
            Some(h) => str_eq(h.as_str(), hash),
            None => false,
        };
        if !current {
            return false;
        }
        match result {
            Ok(d) => {
                self.commit_detail = Some(d);
                self.error = None;
            },
            Err(e) => {
                let msg = failure_message(&GitAction::CommitDetail(hash.to_string()), e.as_str());
                self.error = Some(msg);
            },
        }
        true
    }

    /// Takes the diff read for `path` (`staged` telling which side): it is
    /// shown and the error cleared, or the failure is shown.
    pub fn diff_loaded(&mut self, path: String, staged: bool, result: Result<String, String>)
        ensures
            match result {
                Ok(text) => {
                    &&& final(self).selected_diff == Some(DiffSelection { path, staged, text })
                    &&& final(self).error is None
                },
                Err(e) => {
                    &&& final(self).selected_diff == old(self).selected_diff
                    &&& final(self).error matches Some(m) && m@ == "diff "@ + path@ + ": "@ + e@
                },
            },
            final(self).history == old(self).history,
            final(self).selected_commit == old(self).selected_commit,
            final(self).commit_detail == old(self).commit_detail,
            final(self).busy == old(self).busy,
    {
        match result {
            Ok(text) => {
                self.selected_diff = Some(DiffSelection { path, staged, text });
                self.error = None;
            },
            Err(e) => {
                let msg = failure_message(&GitAction::Diff(path), e.as_str());
                self.error = Some(msg);
            },
        }
    }

    /// Asks to start `action`. An exclusive operation is refused while
    /// another runs, and otherwise marks the page busy; any other
    /// operation always starts. Returns whether it starts.
    pub fn try_start(&mut self, action: &GitAction) -> (started: bool)
        ensures
            started == !(exclusive(*action) && old(self).busy),
            final(self).busy == (old(self).busy || (started && exclusive(*action))),
            (GitPanel { busy: old(self).busy, ..*final(self) }) == *old(self),
            (started, *final(self)) == start_outcome(*old(self), *action),
    {
        if is_exclusive(action) {
            if self.busy {
                return false;
            }
            self.busy = true;
        }
        true
    }

    /// Records that `action` finished with `result`; the caller then
    /// reads the status again. An exclusive operation frees the page. A
    /// failure shows its error. A commit leaves amend mode, a checkout or a
    /// new branch drops the diff shown. Returns whether the input the
    /// operation read is emptied.
    pub fn action_finished(&mut self, action: &GitAction, result: Result<(), String>) -> (clear:
        bool)
        requires
            !(*action is Diff),
            !(*action is CommitDetail),
        ensures
            clear == (result is Ok && clears_input(*action)),
            final(self).busy == (old(self).busy && !exclusive(*action)),
            match result {
                Err(e) => {
                    &&& final(self).error matches Some(m) && m@ == action_prefix(*action) + ": "@
                        + e@
                    &&& final(self).amend == old(self).amend
                    &&& final(self).selected_diff == old(self).selected_diff
                },
                Ok(_) => {
                    &&& final(self).error == old(self).error
                    &&& final(self).amend == (old(self).amend && !(*action is Commit))
                    &&& final(self).selected_diff == if *action is Checkout
                        || *action is CreateBranch {
                        None
                    } else {
                        old(self).selected_diff
                    }
                },
            },
            final(self).history == old(self).history,
            final(self).selected_commit == old(self).selected_commit,
            final(self).commit_detail == old(self).commit_detail,
            final(self).refresh_generation == old(self).refresh_generation,
    {
        if is_exclusive(action) {
            self.busy = false;
        }
        match result {
            Err(e) => {
                let msg = failure_message(action, e.as_str());
                self.error = Some(msg);
                false
            },
            Ok(_) => match action {
                GitAction::Commit { .. } => {
                    self.amend = false;
                    true
                },
                GitAction::Checkout(_) => {
                    self.selected_diff = None;
                    false
                },
                GitAction::CreateBranch(_) => {
                    self.selected_diff = None;
                    true
                },
                GitAction::AddRemote(_) | GitAction::Stash => true,
                _ => false,
            },
        }
    }

    /// Switches the commit box between committing and amending.
    pub fn toggle_amend(&mut self)
        ensures
            *final(self) == (GitPanel { amend: !old(self).amend, ..*old(self) }),
    {
        self.amend = !self.amend;
    }

    /// Opens the sub-view named on the command line (`--page=git:<name>`);
    /// an unknown name changes nothing. Returns whether the name was known.
    pub fn set_initial_subview(&mut self, name: &str) -> (known: bool)
        ensures
            known == (git_view_for_name(lowercase(trimmed(name@))) is Some),
            match git_view_for_name(lowercase(trimmed(name@))) {
                Some(v) => *final(self) == (GitPanel { view: v, ..*old(self) }),
                None => *final(self) == *old(self),
            },
    {
        match GitView::from_cli_name(name) {
            Some(view) => {
                self.select_view(view);
                true
            },
            None => false,
        }
    }

    /// Shows the sub-view `view`.
    pub fn select_view(&mut self, view: GitView)
        ensures
            *final(self) == (GitPanel { view, ..*old(self) }),
    {
        self.view = view;
    }
}

/// `n` followed by `suffix`.
fn counted(n: usize, suffix: &str) -> (r: String)
    ensures
        r@ == decimal(n as nat) + suffix@,
{
    let mut s = decimal_padded(n as u64, 0);
    push_str(&mut s, suffix);
    s
}

/// The History view's count: `<n> commits`.
pub fn history_count_text(n: usize) -> (r: String)
    ensures
        r@ == decimal(n as nat) + " commits"@,
{
    counted(n, " commits")
}

/// The Remotes view's count: `<n> configured`.
pub fn remotes_count_text(n: usize) -> (r: String)
    ensures
        r@ == decimal(n as nat) + " configured"@,
{
    counted(n, " configured")
}

/// The Branches view's count: `<n> local`.
pub fn branches_count_text(n: usize) -> (r: String)
    ensures
        r@ == decimal(n as nat) + " local"@,
{
    counted(n, " local")
}

/// A file section's count: `1 file`, otherwise `<n> files`.
pub fn files_count_text(n: usize) -> (r: String)
    ensures
        r@ == decimal(n as nat) + (if n == 1 {
            " file"@
        } else {
            " files"@
        }),
{
    if n == 1 {
        counted(n, " file")
    } else {
        counted(n, " files")
    }
}

/// The Stashes view's count: `1 entry`, otherwise `<n> entries`.
pub fn stash_count_text(n: usize) -> (r: String)
    ensures
        r@ == decimal(n as nat) + (if n == 1 {
            " entry"@
        } else {
            " entries"@
        }),
{
    if n == 1 {
        counted(n, " entry")
    } else {
        counted(n, " entries")
    }
}

/// A stash row: `stash@{<index>}: <branch> -- <message>`.
pub fn stash_description(index: usize, branch: &str, message: &str) -> (r: String)
    ensures
        r@ == "stash@{"@ + decimal(index as nat) + "}: "@ + branch@ + " -- "@ + message@,
{
    let mut s = String::new();
    push_str(&mut s, "stash@{");
    push_str(&mut s, decimal_padded(index as u64, 0).as_str());
    push_str(&mut s, "}: ");
    push_str(&mut s, branch);
    push_str(&mut s, " -- ");
    push_str(&mut s, message);
    s
}

/// The diff panel's title: `Diff (staged) — <path>` or
/// `Diff (worktree) — <path>`.
pub fn diff_title(path: &str, staged: bool) -> (r: String)
    ensures
        r@ == (if staged {
            "Diff (staged) — "@
        } else {
            "Diff (worktree) — "@
        }) + path@,
{
    let mut s = if staged {
        "Diff (staged) — ".to_string()
    } else {
        "Diff (worktree) — ".to_string()
    };
    push_str(&mut s, path);
    s
}

/// A commit file's added and removed line counts: `+<n>` and `−<n>`.
pub fn line_stat_texts(added: usize, removed: usize) -> (r: (String, String))
    ensures
        r.0@ == "+"@ + decimal(added as nat),
        r.1@ == "−"@ + decimal(removed as nat),
{
    let mut a = "+".to_string();
    push_str(&mut a, decimal_padded(added as u64, 0).as_str());
    let mut b = "−".to_string();
    push_str(&mut b, decimal_padded(removed as u64, 0).as_str());
    (a, b)
}

/// What asking to start `a` on page `p` gives: whether it starts, and the
/// page afterwards.
pub open spec fn start_outcome<D>(p: GitPanel<D>, a: GitAction) -> (bool, GitPanel<D>) {
    let started = !(exclusive(a) && p.busy);
    (started, GitPanel { busy: p.busy || (started && exclusive(a)), ..p })
}

/// While an exclusive operation runs, asking to start fetch, remote
/// delete, add remote, push, pull, stash, stash pop or stash drop is
/// refused and leaves the page as it was.
pub proof fn law_busy_page_refuses_exclusive<D>(p: GitPanel<D>, a: GitAction)
    requires
        p.busy,
        a is Fetch || a is RemoteDelete || a is AddRemote || a is Push || a is Pull || a is Stash
            || a is StashPop || a is StashDrop,
    ensures
        start_outcome(p, a) == (false, p),
{
}

/// On an idle page, the first of two such operations starts and makes the
/// page busy, and the second, asked for while the first runs, is refused.
pub proof fn law_second_exclusive_refused<D>(p: GitPanel<D>, first: GitAction, second: GitAction)
    requires
        !p.busy,
        first is Fetch || first is RemoteDelete || first is AddRemote || first is Push
            || first is Pull || first is Stash || first is StashPop || first is StashDrop,
        second is Fetch || second is RemoteDelete || second is AddRemote || second is Push
            || second is Pull || second is Stash || second is StashPop || second is StashDrop,
    ensures
        start_outcome(p, first).0,
        start_outcome(p, first).1.busy,
        !start_outcome(start_outcome(p, first).1, second).0,
{
}

/// The operations that run one at a time are exactly fetch, remote delete,
/// add remote, push, pull, stash, stash pop and stash drop: while one of
/// them runs, `try_start` refuses each of them; every other operation
/// always starts.
pub proof fn law_exclusive_operations(a: GitAction)
    ensures
        exclusive(a) <==> (a is Fetch || a is RemoteDelete || a is AddRemote || a is Push
            || a is Pull || a is Stash || a is StashPop || a is StashDrop),
{
}

} // verus!
