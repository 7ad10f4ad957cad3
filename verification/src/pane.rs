//! The listing state of one explorer pane: the directory's entries, which
//! of them are shown (hidden files, name filter), the sort column, the
//! selection over the shown rows, and the footer status.

use vstd::prelude::*;
use std::collections::BTreeSet;
use crate::config::{join_path, push_component, SortOrder, UiSettings};
use crate::navigation::{back_model, forward_model, nav_wf, push_model, NavHistory};
use crate::entries::{is_sorting_of, sort_entries};
use crate::preview_panel::PreviewPanel;
use crate::paths::{components, file_name, path_components, path_file_name};
use crate::selection::{move_target, Selection};
use crate::text::{chars_of, lowercase, push_str, string_from_chars, to_lowercase};

verus! {

broadcast use {vstd::std_specs::btree::group_btree_axioms, vstd::laws_cmp::group_laws_cmp};

/// One entry of a directory listing.
#[derive(Debug, Clone, PartialEq)]
pub struct FileEntry {
    /// The entry's file name.
    pub name: String,
    /// The entry's absolute path.
    pub path: String,
    /// `"dir"` for a directory, otherwise the kind of file.
    pub kind: String,
    /// Size in bytes.
    pub size: u64,
    /// Modification time, in seconds since the Unix epoch.
    pub modified: i64,
}

impl FileEntry {
    /// A field-by-field copy.
    pub fn duplicate(&self) -> (r: FileEntry)
        ensures
            r == *self,
    {
        FileEntry {
            name: self.name.clone(),
            path: self.path.clone(),
            kind: self.kind.clone(),
            size: self.size,
            modified: self.modified,
        }
    }
}

/// The column a listing is sorted by.
#[derive(Clone, Copy, PartialEq, Eq, Debug, Structural)]
pub enum SortKey {
    Name,
    Modified,
    Size,
    Type,
}

/// Whether the listing shows rows or tiles.
#[derive(Clone, Copy, PartialEq, Eq, Debug, Structural)]
pub enum ViewMode {
    List,
    Grid,
}

/// Severity of a footer status message.
#[derive(Clone, Copy, PartialEq, Eq, Debug, Structural)]
pub enum StatusLevel {
    Info,
    Error,
}

/// A transient message shown in the footer status bar.
#[derive(Clone, Debug, PartialEq)]
pub struct StatusMessage {
    pub text: String,
    pub level: StatusLevel,
}

/// Whether a file name is a dotfile.
pub open spec fn hidden_name(name: Seq<char>) -> bool {
    name.len() > 0 && name[0] == '.'
}

/// Whether `name` is a dotfile, hidden unless `show_hidden` is on.
pub fn is_hidden(name: &str) -> (r: bool)
    ensures
        r == hidden_name(name@),
{
    if name.is_empty() {
        return false;
    }
    name.get_char(0) == '.'
}

/// The listing column a configured default sort order selects.
pub open spec fn sort_key_for(order: SortOrder) -> SortKey {
    match order {
        SortOrder::Name => SortKey::Name,
        SortOrder::Modified => SortKey::Modified,
        SortOrder::Size => SortKey::Size,
        SortOrder::Kind => SortKey::Type,
    }
}

/// The listing column that a configured default sort order selects.
pub fn sort_key_from_config(order: SortOrder) -> (r: SortKey)
    ensures
        r == sort_key_for(order),
{
    match order {
        SortOrder::Name => SortKey::Name,
        SortOrder::Modified => SortKey::Modified,
        SortOrder::Size => SortKey::Size,
        SortOrder::Kind => SortKey::Type,
    }
}

/// Whether `needle` occurs in `hay` as a contiguous run.
pub open spec fn seq_contains(hay: Seq<char>, needle: Seq<char>) -> bool {
    exists|i: int|
        0 <= i && i + needle.len() <= hay.len() && #[trigger] hay.subrange(i, i + needle.len())
            == needle
}

/// Whether `needle` occurs in `hay` (`str::contains` on the characters).
pub(crate) fn contains_chars(hay: &[char], needle: &[char]) -> (r: bool)
    ensures
        r == seq_contains(hay@, needle@),
{
    let n = needle.len();
    if n > hay.len() {
        return false;
    }
    let mut i: usize = 0;
    while i <= hay.len() - n
        invariant
            n == needle@.len(),
            n <= hay@.len(),
            i <= hay@.len() - n + 1,
            forall|j: int| 0 <= j < i ==> #[trigger] hay@.subrange(j, j + n) != needle@,
        decreases hay@.len() - i,
    {
        let mut k: usize = 0;
        let mut same = true;
        proof {
            assert(hay@.subrange(i as int, i as int) =~= needle@.take(0));
        }
        while k < n
            invariant
                n == needle@.len(),
                i + n <= hay.len(),
                k <= n,
                same == (hay@.subrange(i as int, i + k) == needle@.take(k as int)),
            decreases n - k,
        {
            if hay[i + k] != needle[k] {
                proof {
                    assert(hay@.subrange(i as int, i + n)[k as int] != needle@[k as int]);
                    assert(hay@.subrange(i as int, i + k + 1)[k as int] != needle@.take(
                        k + 1,
                    )[k as int]);
                }
                same = false;
            } else {
                proof {
                    if same {
                        assert(hay@.subrange(i as int, i + k + 1) =~= needle@.take(k + 1));
                    } else {
                        let a = hay@.subrange(i as int, i + k);
                        let b = needle@.take(k as int);
                        if hay@.subrange(i as int, i + k + 1) == needle@.take(k + 1) {
                            assert(a =~= hay@.subrange(i as int, i + k + 1).take(k as int));
                            assert(b =~= needle@.take(k + 1).take(k as int));
                        }
                    }
                }
            }
            k = k + 1;
        }
        proof {
            assert(needle@.take(n as int) =~= needle@);
        }
        if same {
            return true;
        }
        i = i + 1;
    }
    false
}

/// Whether an entry is listed: dotfiles only with `show_hidden`, and, with a
/// non-empty query, only names whose lowercase form contains the
/// lowercased query.
pub open spec fn entry_shown(e: FileEntry, show_hidden: bool, query: Seq<char>) -> bool {
    &&& show_hidden || !hidden_name(e.name@)
    &&& query.len() == 0 || seq_contains(lowercase(e.name@), lowercase(query))
}

/// The entries of `entries` that are listed, in their order.
pub fn filter_entries(entries: &[FileEntry], show_hidden: bool, query: &str) -> (r: Vec<
    FileEntry,
>)
    ensures
        r@ == entries@.filter(|e: FileEntry| entry_shown(e, show_hidden, query@)),
{
    let ql = to_lowercase(query);
    let qc = chars_of(ql.as_str());
    let mut out: Vec<FileEntry> = Vec::new();
    let mut i: usize = 0;
    while i < entries.len()
        invariant
            i <= entries@.len(),
            qc@ == lowercase(query@),
            out@ == entries@.take(i as int).filter(
                |e: FileEntry| entry_shown(e, show_hidden, query@),
            ),
        decreases entries@.len() - i,
    {
        let e = &entries[i];
        let visible = show_hidden || !is_hidden(e.name.as_str());
        let keep = visible && (query.is_empty() || {
            let nl = to_lowercase(e.name.as_str());
            let nc = chars_of(nl.as_str());
            contains_chars(nc.as_slice(), qc.as_slice())
        });
        proof {
            assert(entries@.take(i + 1) =~= entries@.take(i as int).push(*e));
            entries@.take(i as int).lemma_filter_push(
                *e,
                |e: FileEntry| entry_shown(e, show_hidden, query@),
            );
        }
        if keep {
            out.push(e.duplicate());
        }
        i = i + 1;
    }
    proof {
        assert(entries@.take(entries@.len() as int) =~= entries@);
    }
    out
}

/// The paths of a sequence of entries.
pub open spec fn entry_paths(s: Seq<FileEntry>) -> Seq<Seq<char>> {
    s.map_values(|e: FileEntry| e.path@)
}

/// Whether the shown rows changed order (or number) relative to the paths
/// previously shown, which invalidates anything addressed by row index.
pub fn filtered_entry_order_changed(entries: &[FileEntry], prior_paths: &[String]) -> (r: bool)
    ensures
        r == (entry_paths(entries@) != prior_paths@.map_values(|p: String| p@)),
{
    let ghost prior = prior_paths@.map_values(|p: String| p@);
    if entries.len() != prior_paths.len() {
        proof {
            assert(entry_paths(entries@).len() != prior.len());
        }
        return true;
    }
    let mut i: usize = 0;
    while i < entries.len()
        invariant
            entries@.len() == prior_paths@.len(),
            prior == prior_paths@.map_values(|p: String| p@),
            i <= entries@.len(),
            forall|j: int| 0 <= j < i ==> entry_paths(entries@)[j] == #[trigger] prior[j],
        decreases entries@.len() - i,
    {
        if entries[i].path != prior_paths[i] {
            proof {
                assert(entry_paths(entries@)[i as int] != prior[i as int]);
            }
            return true;
        }
        i = i + 1;
    }
    proof {
        assert(entry_paths(entries@) =~= prior);
    }
    false
}

/// Whether a sequence of row indices is strictly increasing.
pub open spec fn strictly_increasing(q: Seq<usize>) -> bool {
    forall|a: int, b: int| 0 <= a < b < q.len() ==> q[a] < q[b]
}

/// The selected rows that exist in a listing of `len` rows.
pub open spec fn rows_in_listing(sel: Set<usize>, len: nat) -> Set<usize> {
    sel.filter(|i: usize| i < len)
}

/// In an increasing sequence of row references, an earlier row is smaller.
proof fn lemma_increasing_rows(s: Seq<&usize>, a: int, b: int)
    requires
        vstd::std_specs::btree::increasing_seq(s),
        0 <= a < b < s.len(),
    ensures
        *s[a] < *s[b],
{
    assert(vstd::std_specs::cmp::OrdSpec::cmp_spec(&s[a], &s[b]) is Less);
}

/// The selected rows below `len`, in increasing order.
fn selected_rows(sel: &BTreeSet<usize>, len: usize) -> (r: Vec<usize>)
    ensures
        strictly_increasing(r@),
        r@.to_set() == rows_in_listing(sel@, len as nat),
{
    let mut out: Vec<usize> = Vec::new();
    for ix in it: sel.iter()
        invariant
            it.seq().unref().to_set() == sel@,
            vstd::std_specs::btree::increasing_seq(it.seq()),
            strictly_increasing(out@),
            forall|x: usize| #[trigger] out@.contains(x) ==> x < len && sel@.contains(x) && exists|k: int|
                0 <= k < it.index() && *it.seq()[k] == x,
            forall|x: usize|
                #[trigger] sel@.contains(x) && x < len ==> out@.contains(x) || exists|k: int|
                    it.index() <= k < it.seq().len() && *it.seq()[k] == x,
    {
        let ghost before = out@;
        let ghost k0 = it.index();
        proof {
            assert(*it.seq()[k0] == *ix);
            assert(it.seq().unref()[k0] == *ix);
            assert(sel@.contains(*ix));
        }
        if *ix < len {
            proof {
                assert forall|a: int| 0 <= a < before.len() implies before[a] < *ix by {
                    assert(before.contains(before[a]));
                    let k = choose|k: int| 0 <= k < k0 && *it.seq()[k] == before[a];
                    lemma_increasing_rows(it.seq(), k, k0);
                }
            }
            out.push(*ix);
        }
        proof {
            assert forall|x: usize| #[trigger] out@.contains(x) implies x < len && sel@.contains(x)
                && exists|k: int| 0 <= k < k0 + 1 && *it.seq()[k] == x by {
                if before.contains(x) {
                    let k = choose|k: int| 0 <= k < k0 && *it.seq()[k] == x;
                } else {
                    assert(x == *ix);
                }
            }
            assert forall|x: usize| #[trigger] sel@.contains(x) && x < len implies out@.contains(x)
                || exists|k: int| k0 + 1 <= k < it.seq().len() && *it.seq()[k] == x by {
                if !before.contains(x) {
                    let k = choose|k: int| k0 <= k < it.seq().len() && *it.seq()[k] == x;
                    if k == k0 {
                        assert(out@[out@.len() - 1] == x);
                    }
                } else {
                    let j = choose|j: int| 0 <= j < before.len() && before[j] == x;
                    assert(out@[j] == x);
                }
            }
        }
    }
    proof {
        assert(out@.to_set() =~= rows_in_listing(sel@, len as nat));
    }
    out
}

/// The paths of the rows `rows` of `entries`.
pub open spec fn paths_of_rows(entries: Seq<FileEntry>, rows: Seq<usize>) -> Seq<Seq<char>> {
    rows.map_values(|k: usize| entries[k as int].path@)
}

/// The user folders offered for quick access under the home directory,
/// each with its label.
pub open spec fn shortcut_names() -> Seq<Seq<char>> {
    seq!["Desktop"@, "Documents"@, "Downloads"@, "Music"@, "Pictures"@, "Videos"@]
}

/// `home` joined with `sub` as a path: `sub` alone when `home` is empty.
pub open spec fn under_home(home: Seq<char>, sub: Seq<char>) -> Seq<char> {
    if home.len() == 0 {
        sub
    } else {
        join_path(home, sub)
    }
}

/// The quick-access folders for the home directory `home`, as (label,
/// path): Home itself, then each user folder joined under it. Which of
/// the user folders exist is for the caller to check; Home is always
/// offered.
pub fn shortcut_folders(home: &str) -> (r: Vec<(String, String)>)
    ensures
        r@.len() == 7,
        r@[0].0@ == "Home"@,
        r@[0].1@ == home@,
        forall|i: int|
            #![trigger r@[i]]
            1 <= i < 7 ==> r@[i].0@ == shortcut_names()[i - 1] && r@[i].1@ == under_home(
                home@,
                shortcut_names()[i - 1],
            ),
{
    let names: [&str; 6] = ["Desktop", "Documents", "Downloads", "Music", "Pictures", "Videos"];
    proof {
        reveal_strlit("Desktop");
        reveal_strlit("Documents");
        reveal_strlit("Downloads");
        reveal_strlit("Music");
        reveal_strlit("Pictures");
        reveal_strlit("Videos");
        assert(names@.map_values(|n: &str| n@) =~= shortcut_names());
    }
    let mut out: Vec<(String, String)> = Vec::new();
    out.push(("Home".to_string(), home.to_string()));
    let mut i: usize = 0;
    while i < 6
        invariant
            i <= 6,
            names@.map_values(|n: &str| n@) == shortcut_names(),
            out@.len() == i + 1,
            out@[0].0@ == "Home"@,
            out@[0].1@ == home@,
            forall|k: int|
                #![trigger out@[k]]
                1 <= k < i + 1 ==> out@[k].0@ == shortcut_names()[k - 1] && out@[k].1@
                    == under_home(home@, shortcut_names()[k - 1]),
        decreases 6 - i,
    {
        let name = names[i];
        proof {
            assert(name@ == names@.map_values(|n: &str| n@)[i as int]);
        }
        let mut path = home.to_string();
        if home.unicode_len() == 0 {
            path = name.to_string();
        } else {
            push_component(&mut path, name);
        }
        out.push((name.to_string(), path));
        i = i + 1;
    }
    out
}

/// What showing a pane requires before its listing can be drawn.
#[derive(Clone, Copy, PartialEq, Eq, Debug, Structural)]
pub enum LoadAction {
    /// The directory has been read already.
    Nothing,
    /// The pane lists a virtual file system, read asynchronously.
    ReadProvider,
    /// The local directory is read.
    ReadLocal,
}

/// What activating (double-clicking) an entry does.
#[derive(Clone, Debug, PartialEq, Eq)]
pub enum Activation {
    /// Open the directory at this path.
    ChangeDir(String),
    /// Preview the file at this path.
    OpenPreview(String),
}

/// A directory entry is opened; any other entry is previewed.
pub fn activation_for(entry: &FileEntry) -> (r: Activation)
    ensures
        entry.kind@ == "dir"@ ==> (r matches Activation::ChangeDir(p) && p@ == entry.path@),
        entry.kind@ != "dir"@ ==> (r matches Activation::OpenPreview(p) && p@ == entry.path@),
{
    if crate::text::str_eq(entry.kind.as_str(), "dir") {
        Activation::ChangeDir(entry.path.clone())
    } else {
        Activation::OpenPreview(entry.path.clone())
    }
}

/// The listing state of one explorer pane.
#[derive(Debug, Clone)]
pub struct ExplorerPane {
    /// The current directory and the back/forward history.
    pub nav: NavHistory,
    /// All entries read from the current directory, before filtering.
    pub entries: Vec<FileEntry>,
    /// The entries currently shown, after the hidden-file and name filters.
    pub filtered_entries: Vec<FileEntry>,
    /// The column the listing is sorted by.
    pub sort_key: SortKey,
    /// Whether the sort is ascending.
    pub sort_asc: bool,
    /// Whether dotfiles are listed.
    pub show_hidden: bool,
    /// Identifier of the active icon pack.
    pub icon_pack: String,
    /// The name filter typed into the search bar.
    pub search_query: String,
    /// Whether the search bar is visible.
    pub search_visible: bool,
    /// Whether the shown rows are full-text search results, which the
    /// search owns rather than the name filter.
    pub showing_search_results: bool,
    /// The selected rows, indices into `filtered_entries`.
    pub selection: Selection,
    /// The row being renamed inline, if any.
    pub renaming: Option<usize>,
    /// The footer status message, if any.
    pub status_message: Option<StatusMessage>,
    /// Generation of the shown rows' order; bumped whenever it changes.
    pub entries_revision: u64,
    /// Rows or tiles.
    pub view_mode: ViewMode,
    /// Whether the quick-access sidebar is shown.
    pub sidebar_visible: bool,
    /// Whether the pane lists a virtual file system (such as an S3
    /// bucket) rather than the local one.
    pub provider_backed: bool,
    /// Whether a file drop onto this pane awaits completion.
    pub drop_pending: bool,
    /// Whether the current directory has been read at least once.
    pub loaded: bool,
    /// What the preview pane shows.
    pub preview: PreviewPanel,
}

/// The breadcrumb segments of a directory: its path components, or the
/// whole path when it has none.
pub open spec fn crumb_parts(cwd: Seq<char>) -> Seq<Seq<char>> {
    if components(cwd).len() == 0 {
        seq![cwd]
    } else {
        components(cwd)
    }
}

/// The text of a breadcrumb segment; an empty one shows as `/`.
pub open spec fn crumb_label(p: Seq<char>) -> Seq<char> {
    if p.len() == 0 {
        "/"@
    } else {
        p
    }
}

/// The directory a click on segment `i` opens: the first segment (as
/// labelled), then each further one appended after a `/`.
pub open spec fn crumb_target(parts: Seq<Seq<char>>, i: int) -> Seq<char>
    decreases i,
{
    if i <= 0 {
        crumb_label(parts[0])
    } else {
        crumb_target(parts, i - 1) + "/"@ + parts[i]
    }
}

/// The first segment shown: with more than five segments only the last
/// five are shown, behind an ellipsis.
pub open spec fn crumb_start(n: int) -> int {
    if n > 5 {
        n - 5
    } else {
        0
    }
}

/// One clickable breadcrumb segment.
#[derive(Clone, Debug, PartialEq, Eq)]
pub struct Crumb {
    /// The text shown.
    pub label: String,
    /// The directory opened on click.
    pub target: String,
}

/// The breadcrumb bar of a directory: whether leading segments are elided
/// and the segments shown, each with the directory it opens.
pub fn breadcrumbs(cwd: &str) -> (r: (bool, Vec<Crumb>))
    ensures
        ({
            let parts = crumb_parts(cwd@);
            let start = crumb_start(parts.len() as int);
            &&& r.0 == (parts.len() > 5)
            &&& r.1@.len() == parts.len() - start
            &&& forall|m: int|
                #![trigger r.1@[m]]
                0 <= m < r.1@.len() ==> r.1@[m].label@ == crumb_label(parts[start + m])
                    && r.1@[m].target@ == crumb_target(parts, start + m)
        }),
{
    let comps = path_components(cwd);
    let parts: Vec<Vec<char>> = if comps.len() == 0 {
        let mut v: Vec<Vec<char>> = Vec::new();
        v.push(chars_of(cwd));
        v
    } else {
        comps
    };
    let ghost ps = parts@.map_values(|p: Vec<char>| p@);
    proof {
        assert(ps =~= crumb_parts(cwd@));
    }
    let n = parts.len();
    let truncated = n > 5;
    let start: usize = if truncated { n - 5 } else { 0 };
    let mut items: Vec<Crumb> = Vec::new();
    let mut target = String::new();
    let mut j: usize = 0;
    while j < n
        invariant
            n == parts@.len() == ps.len(),
            n > 0,
            ps == parts@.map_values(|p: Vec<char>| p@),
            start == crumb_start(n as int),
            j <= n,
            j > 0 ==> target@ == crumb_target(ps, j - 1),
            items@.len() == (if j > start { j - start } else { 0 }),
            forall|m: int|
                #![trigger items@[m]]
                0 <= m < items@.len() ==> items@[m].label@ == crumb_label(ps[start + m])
                    && items@[m].target@ == crumb_target(ps, start + m),
        decreases n - j,
    {
        let part = &parts[j];
        proof {
            assert(part@ == ps[j as int]);
        }
        if j == 0 {
            target = if part.len() == 0 {
                "/".to_string()
            } else {
                string_from_chars(part.as_slice())
            };
        } else {
            push_str(&mut target, "/");
            push_str(&mut target, string_from_chars(part.as_slice()).as_str());
            proof {
                reveal_strlit("/");
            }
        }
        if j >= start {
            let label = if part.len() == 0 {
                "/".to_string()
            } else {
                string_from_chars(part.as_slice())
            };
            items.push(Crumb { label, target: target.clone() });
        }
        j = j + 1;
    }
    (truncated, items)
}

/// The entries at rows `rows`.
pub open spec fn entries_at_rows(entries: Seq<FileEntry>, rows: Seq<usize>) -> Seq<FileEntry> {
    rows.map_values(|k: usize| entries[k as int])
}

/// What renaming the selection does.
#[derive(Debug)]
pub enum RenameAction {
    /// Nothing is selected.
    Nothing,
    /// One row: an inline rename.
    Inline,
    /// Several rows: the batch rename dialog, for these entries in row order.
    Batch(Vec<FileEntry>),
}

/// A strictly increasing sequence has no repeated element.
proof fn lemma_increasing_no_duplicates(q: Seq<usize>)
    requires
        strictly_increasing(q),
    ensures
        q.no_duplicates(),
{
    assert forall|a: int, b: int| 0 <= a < q.len() && 0 <= b < q.len() && a != b implies q[a]
        != q[b] by {
        if a < b {
            assert(q[a] < q[b]);
        } else {
            assert(q[b] < q[a]);
        }
    }
}

impl ExplorerPane {
    /// A pane showing `cwd` with default view settings: sorted by name
    /// ascending, dotfiles hidden, the default icon pack, list view, the
    /// sidebar shown, nothing listed, selected or searched yet.
    pub fn new(cwd: String) -> (r: ExplorerPane)
        ensures
            r.nav.model().cwd == cwd@,
            r.nav.model().history.len() == 0,
            nav_wf(r.nav.model()),
            r.entries@.len() == 0,
            r.filtered_entries@.len() == 0,
            r.sort_key == SortKey::Name,
            r.sort_asc,
            !r.show_hidden,
            r.icon_pack@ == "default"@,
            r.search_query@.len() == 0,
            !r.search_visible,
            !r.showing_search_results,
            r.selection.selected@.is_empty(),
            r.selection.anchor is None,
            r.selection.active is None,
            r.renaming is None,
            r.status_message is None,
            r.entries_revision == 0,
            r.view_mode == ViewMode::List,
            r.sidebar_visible,
            !r.provider_backed,
            !r.drop_pending,
            !r.loaded,
            r.preview.path is None,
            r.preview.text is None,
            r.preview.image_path is None,
            r.preview.image_data is None,
            r.preview.message is None,
            !r.preview.html_active,
    {
        ExplorerPane {
            nav: NavHistory::new(cwd),
            entries: Vec::new(),
            filtered_entries: Vec::new(),
            sort_key: SortKey::Name,
            sort_asc: true,
            show_hidden: false,
            icon_pack: "default".to_string(),
            search_query: String::new(),
            search_visible: false,
            showing_search_results: false,
            selection: Selection::new(),
            renaming: None,
            status_message: None,
            entries_revision: 0,
            view_mode: ViewMode::List,
            sidebar_visible: true,
            provider_backed: false,
            drop_pending: false,
            loaded: false,
            preview: PreviewPanel::new(),
        }
    }

    /// Shows `text` in the footer at `level`.
    pub fn set_status(&mut self, level: StatusLevel, text: String)
        ensures
            *final(self) == (ExplorerPane {
                status_message: Some(StatusMessage { text, level }),
                ..*old(self)
            }),
    {
        self.status_message = Some(StatusMessage { text, level });
    }

    /// Clears the footer status.
    pub fn clear_status(&mut self)
        ensures
            *final(self) == (ExplorerPane { status_message: None, ..*old(self) }),
    {
        self.status_message = None;
    }

    /// The footer status text and whether it is an error.
    pub fn status_for_footer(&self) -> (r: Option<(String, bool)>)
        ensures
            match self.status_message {
                Some(m) => r matches Some((t, e)) && t@ == m.text@ && e == (m.level
                    == StatusLevel::Error),
                None => r is None,
            },
    {
        match &self.status_message {
            Some(status) => Some((status.text.clone(), status.level == StatusLevel::Error)),
            None => None,
        }
    }

    /// Shows or hides the quick-access sidebar.
    pub fn toggle_sidebar(&mut self)
        ensures
            *final(self) == (ExplorerPane {
                sidebar_visible: !old(self).sidebar_visible,
                ..*old(self)
            }),
    {
        self.sidebar_visible = !self.sidebar_visible;
    }

    /// Switches between rows and tiles; returns whether the mode changed.
    pub fn set_view_mode(&mut self, mode: ViewMode) -> (changed: bool)
        ensures
            changed == (old(self).view_mode != mode),
            *final(self) == (ExplorerPane { view_mode: mode, ..*old(self) }),
    {
        if self.view_mode != mode {
            self.view_mode = mode;
            return true;
        }
        false
    }

    /// Whether row `ix` is selected.
    pub fn is_selected(&self, ix: usize) -> (r: bool)
        ensures
            r == self.selection.selected@.contains(ix),
    {
        self.selection.is_selected(ix)
    }

    /// Selects every shown row: the first anchors, the last is active.
    pub fn select_all(&mut self)
        ensures
            final(self).selection.selected@ == Set::new(
                |i: usize| i < old(self).filtered_entries@.len(),
            ),
            final(self).selection.anchor == (if old(self).filtered_entries@.len() > 0 {
                Some(0usize)
            } else {
                None
            }),
            final(self).selection.active == (if old(self).filtered_entries@.len() > 0 {
                Some((old(self).filtered_entries@.len() - 1) as usize)
            } else {
                None
            }),
            *final(self) == (ExplorerPane { selection: final(self).selection, ..*old(self) }),
    {
        let len = self.filtered_entries.len();
        self.selection.select_all(len);
    }

    /// Paths of the selected rows that are shown, in row order.
    pub fn selected_paths(&self) -> (r: Vec<String>)
        ensures
            exists|rows: Seq<usize>|
                strictly_increasing(rows) && rows.to_set() == rows_in_listing(
                    self.selection.selected@,
                    self.filtered_entries@.len(),
                ) && r@.map_values(|p: String| p@) == #[trigger] paths_of_rows(
                    self.filtered_entries@,
                    rows,
                ),
    {
        let rows = selected_rows(&self.selection.selected, self.filtered_entries.len());
        let mut out: Vec<String> = Vec::new();
        let mut i: usize = 0;
        while i < rows.len()
            invariant
                i <= rows@.len(),
                rows@.to_set() == rows_in_listing(
                    self.selection.selected@,
                    self.filtered_entries@.len(),
                ),
                out@.map_values(|p: String| p@) == paths_of_rows(
                    self.filtered_entries@,
                    rows@.take(i as int),
                ),
            decreases rows@.len() - i,
        {
            proof {
                assert(rows@.to_set().contains(rows@[i as int]));
            }
            let k = rows[i];
            let ghost before = out@;
            out.push(self.filtered_entries[k].path.clone());
            proof {
                assert(rows@.take(i + 1) =~= rows@.take(i as int).push(k));
                assert(out@.map_values(|p: String| p@) =~= before.map_values(|p: String| p@).push(
                    self.filtered_entries@[k as int].path@,
                ));
                assert(out@.map_values(|p: String| p@) =~= paths_of_rows(
                    self.filtered_entries@,
                    rows@.take(i + 1),
                ));
            }
            i = i + 1;
        }
        proof {
            assert(rows@.take(rows@.len() as int) =~= rows@);
        }
        out
    }

    /// Replaces the shown rows. When their order (by path) changed, the
    /// revision moves on (wrapping), since row-addressed state is stale.
    pub fn replace_filtered_entries(&mut self, entries: Vec<FileEntry>)
        ensures
            final(self).filtered_entries@ == entries@,
            final(self).entries_revision == (if entry_paths(entries@) != entry_paths(
                old(self).filtered_entries@,
            ) {
                old(self).entries_revision.wrapping_add(1)
            } else {
                old(self).entries_revision
            }),
            *final(self) == (ExplorerPane {
                filtered_entries: final(self).filtered_entries,
                entries_revision: final(self).entries_revision,
                ..*old(self)
            }),
    {
        let mut prior_paths: Vec<String> = Vec::new();
        let mut i: usize = 0;
        while i < self.filtered_entries.len()
            invariant
                i <= self.filtered_entries@.len(),
                prior_paths@.map_values(|p: String| p@) == entry_paths(
                    self.filtered_entries@.take(i as int),
                ),
            decreases self.filtered_entries@.len() - i,
        {
            let ghost before = prior_paths@;
            prior_paths.push(self.filtered_entries[i].path.clone());
            proof {
                assert(self.filtered_entries@.take(i + 1) =~= self.filtered_entries@.take(
                    i as int,
                ).push(self.filtered_entries@[i as int]));
                assert(prior_paths@.map_values(|p: String| p@) =~= before.map_values(
                    |p: String| p@,
                ).push(self.filtered_entries@[i as int].path@));
                assert(prior_paths@.map_values(|p: String| p@) =~= entry_paths(
                    self.filtered_entries@.take(i + 1),
                ));
            }
            i = i + 1;
        }
        proof {
            assert(self.filtered_entries@.take(self.filtered_entries@.len() as int)
                =~= self.filtered_entries@);
        }
        let order_changed = filtered_entry_order_changed(entries.as_slice(), prior_paths.as_slice());
        self.filtered_entries = entries;
        if order_changed {
            self.entries_revision = self.entries_revision.wrapping_add(1);
        }
    }

    /// Rebuilds the shown rows from `entries`: the selection, its anchor and
    /// active row and any inline rename are dropped (row indices no longer
    /// mean the same rows); unless full-text search results are shown, the
    /// rows become the entries that pass the hidden-file and name filters,
    /// put in the order of the sort column and direction.
    pub fn apply_filter(&mut self)
        ensures
            final(self).selection.selected@.is_empty(),
            final(self).selection.anchor is None,
            final(self).selection.active is None,
            final(self).renaming is None,
            old(self).showing_search_results ==> final(self).filtered_entries
                == old(self).filtered_entries && final(self).entries_revision == old(
                self,
            ).entries_revision,
            !old(self).showing_search_results ==> is_sorting_of(
                final(self).filtered_entries@,
                old(self).entries@.filter(
                    |e: FileEntry| entry_shown(e, old(self).show_hidden, old(self).search_query@),
                ),
                old(self).sort_key,
                old(self).sort_asc,
            ) && final(self).entries_revision == (if entry_paths(final(self).filtered_entries@)
                != entry_paths(old(self).filtered_entries@) {
                old(self).entries_revision.wrapping_add(1)
            } else {
                old(self).entries_revision
            }),
            *final(self) == (ExplorerPane {
                selection: final(self).selection,
                renaming: None,
                filtered_entries: final(self).filtered_entries,
                entries_revision: final(self).entries_revision,
                ..*old(self)
            }),
    {
        self.selection.clear();
        self.renaming = None;
        if self.showing_search_results {
            return;
        }
        let mut shown = filter_entries(
            self.entries.as_slice(),
            self.show_hidden,
            self.search_query.as_str(),
        );
        sort_entries(&mut shown, self.sort_key, self.sort_asc);
        self.replace_filtered_entries(shown);
    }

    /// Sorts by `key`: the same column again flips the direction, a new
    /// column starts ascending; the entries are put in that order and the
    /// rows rebuilt from them.
    pub fn set_sort_key(&mut self, key: SortKey)
        ensures
            final(self).sort_key == key,
            final(self).sort_asc == (if old(self).sort_key == key {
                !old(self).sort_asc
            } else {
                true
            }),
            final(self).selection.selected@.is_empty(),
            final(self).renaming is None,
            is_sorting_of(final(self).entries@, old(self).entries@, key, final(self).sort_asc),
            !old(self).showing_search_results ==> is_sorting_of(
                final(self).filtered_entries@,
                final(self).entries@.filter(
                    |e: FileEntry| entry_shown(e, old(self).show_hidden, old(self).search_query@),
                ),
                key,
                final(self).sort_asc,
            ),
    {
        if self.sort_key == key {
            self.sort_asc = !self.sort_asc;
        } else {
            self.sort_key = key;
            self.sort_asc = true;
        }
        sort_entries(&mut self.entries, self.sort_key, self.sort_asc);
        self.apply_filter();
    }

    /// Applies the `[ui]` settings: a new default sort resets the column
    /// (ascending), and the hidden-file switch and icon pack are taken over.
    /// When anything changed the rows are rebuilt. Returns whether anything
    /// changed.
    pub fn apply_config_ui(&mut self, ui: &UiSettings) -> (changed: bool)
        ensures
            changed == (old(self).sort_key != sort_key_for(ui.default_sort)
                || old(self).show_hidden != ui.show_hidden || old(self).icon_pack@
                != ui.icon_pack@),
            final(self).sort_key == sort_key_for(ui.default_sort),
            final(self).sort_asc == (if old(self).sort_key != sort_key_for(
                ui.default_sort,
            ) {
                true
            } else {
                old(self).sort_asc
            }),
            final(self).show_hidden == ui.show_hidden,
            final(self).icon_pack@ == ui.icon_pack@,
            !changed ==> *final(self) == *old(self),
            changed ==> is_sorting_of(
                final(self).entries@,
                old(self).entries@,
                final(self).sort_key,
                final(self).sort_asc,
            ),
            changed && !old(self).showing_search_results ==> is_sorting_of(
                final(self).filtered_entries@,
                final(self).entries@.filter(
                    |e: FileEntry| entry_shown(e, ui.show_hidden, old(self).search_query@),
                ),
                final(self).sort_key,
                final(self).sort_asc,
            ),
            changed ==> final(self).selection.selected@.is_empty() && final(self).renaming is None,
    {
        let sort_key = sort_key_from_config(ui.default_sort);
        let mut changed = false;
        if self.sort_key != sort_key {
            self.sort_key = sort_key;
            self.sort_asc = true;
            changed = true;
        }
        if self.show_hidden != ui.show_hidden {
            self.show_hidden = ui.show_hidden;
            changed = true;
        }
        if self.icon_pack != ui.icon_pack {
            self.icon_pack = ui.icon_pack.clone();
            changed = true;
        }
        if changed {
            sort_entries(&mut self.entries, self.sort_key, self.sort_asc);
            self.apply_filter();
        }
        changed
    }

    /// The tab title: the current directory's final name, or the whole path
    /// when it has none (the root, or a path ending in `..`).
    pub fn tab_title(&self) -> (r: String)
        ensures
            match file_name(self.nav.cwd@) {
                Some(n) => r@ == n,
                None => r@ == self.nav.cwd@,
            },
    {
        match path_file_name(self.nav.cwd.as_str()) {
            Some(n) => n,
            None => self.nav.cwd.clone(),
        }
    }
    /// Moves the active row by `delta` within the shown rows (see
    /// [`Selection::move_active`]).
    pub fn move_active(&mut self, delta: isize, extend: bool)
        requires
            old(self).filtered_entries@.len() <= isize::MAX,
            old(self).selection.active matches Some(c) ==> c <= isize::MAX && isize::MIN <= c
                + delta <= isize::MAX,
        ensures
            old(self).filtered_entries@.len() == 0 ==> *final(self) == *old(self),
            old(self).filtered_entries@.len() > 0 ==> final(self).selection.active == Some(
                move_target(
                    old(self).selection.active,
                    delta as int,
                    old(self).filtered_entries@.len() as int,
                ) as usize,
            ),
            *final(self) == (ExplorerPane { selection: final(self).selection, ..*old(self) }),
    {
        let len = self.filtered_entries.len();
        self.selection.move_active(delta, extend, len);
    }

    /// Navigates to `path` unless it is already the current directory:
    /// the search bar closes and its query and results are dropped, the
    /// move is recorded in the history, and the old listing is discarded
    /// until the new directory is read. Returns whether the pane moved.
    pub fn navigate_to(&mut self, path: String) -> (moved: bool)
        requires
            nav_wf(old(self).nav.model()),
        ensures
            moved == (path@ != old(self).nav.model().cwd),
            nav_wf(final(self).nav.model()),
            moved ==> final(self).nav.model() == push_model(old(self).nav.model(), path@)
                && !final(self).search_visible && !final(self).showing_search_results
                && final(self).search_query@.len() == 0 && final(self).entries@.len() == 0,
            !moved ==> *final(self) == *old(self),
    {
        if path == self.nav.cwd {
            return false;
        }
        self.search_visible = false;
        self.showing_search_results = false;
        self.search_query = String::new();
        let moved = self.nav.navigate(path);
        self.entries = Vec::new();
        moved
    }

    /// Steps back in the history, if possible, discarding the old listing.
    /// Returns whether the pane moved.
    pub fn go_back(&mut self) -> (moved: bool)
        requires
            nav_wf(old(self).nav.model()),
        ensures
            moved == (old(self).nav.model().index > 0),
            final(self).nav.model() == back_model(old(self).nav.model()),
            nav_wf(final(self).nav.model()),
            moved ==> final(self).entries@.len() == 0 && !final(self).search_visible,
            !moved ==> *final(self) == *old(self),
    {
        let moved = self.nav.go_back();
        if moved {
            self.entries = Vec::new();
            self.search_visible = false;
            self.showing_search_results = false;
        }
        moved
    }

    /// Steps forward in the history, if possible, discarding the old
    /// listing. Returns whether the pane moved.
    pub fn go_forward(&mut self) -> (moved: bool)
        requires
            nav_wf(old(self).nav.model()),
        ensures
            moved == (old(self).nav.model().index + 1 < old(self).nav.model().history.len()),
            final(self).nav.model() == forward_model(old(self).nav.model()),
            nav_wf(final(self).nav.model()),
            moved ==> final(self).entries@.len() == 0 && !final(self).search_visible,
            !moved ==> *final(self) == *old(self),
    {
        let moved = self.nav.go_forward();
        if moved {
            self.entries = Vec::new();
            self.search_visible = false;
            self.showing_search_results = false;
        }
        moved
    }

    /// The selected rows that are shown, in row order.
    pub fn filtered_entries_for_selection(&self) -> (r: Vec<FileEntry>)
        ensures
            exists|rows: Seq<usize>|
                strictly_increasing(rows) && rows.to_set() == rows_in_listing(
                    self.selection.selected@,
                    self.filtered_entries@.len(),
                ) && r@ == #[trigger] entries_at_rows(self.filtered_entries@, rows),
    {
        let rows = selected_rows(&self.selection.selected, self.filtered_entries.len());
        let mut out: Vec<FileEntry> = Vec::new();
        let mut i: usize = 0;
        while i < rows.len()
            invariant
                i <= rows@.len(),
                rows@.to_set() == rows_in_listing(
                    self.selection.selected@,
                    self.filtered_entries@.len(),
                ),
                out@ == entries_at_rows(self.filtered_entries@, rows@.take(i as int)),
            decreases rows@.len() - i,
        {
            proof {
                assert(rows@.to_set().contains(rows@[i as int]));
            }
            let k = rows[i];
            out.push(self.filtered_entries[k].duplicate());
            proof {
                assert(rows@.take(i + 1) =~= rows@.take(i as int).push(k));
                assert(out@ =~= entries_at_rows(self.filtered_entries@, rows@.take(i + 1)));
            }
            i = i + 1;
        }
        proof {
            assert(rows@.take(rows@.len() as int) =~= rows@);
        }
        out
    }

    /// Starts renaming row `ix` inline, unless a rename is already under
    /// way or there is no such row. Returns whether it started.
    pub fn begin_rename(&mut self, ix: usize) -> (started: bool)
        ensures
            started == (old(self).renaming is None && ix < old(self).filtered_entries@.len()),
            started ==> *final(self) == (ExplorerPane { renaming: Some(ix), ..*old(self) }),
            !started ==> *final(self) == *old(self),
    {
        if self.renaming.is_some() || ix >= self.filtered_entries.len() {
            return false;
        }
        self.renaming = Some(ix);
        true
    }

    /// Cancels an inline rename.
    pub fn cancel_rename(&mut self)
        ensures
            *final(self) == (ExplorerPane { renaming: None, ..*old(self) }),
    {
        self.renaming = None;
    }

    /// Renames the selection (F2 or the context menu): nothing without a
    /// selection, the batch dialog for several rows (which are returned),
    /// otherwise an inline rename of row `index`.
    pub fn rename_selection(&mut self, index: usize) -> (r: RenameAction)
        ensures
            rows_in_listing(old(self).selection.selected@, old(self).filtered_entries@.len()).len()
                == 0 ==> r is Nothing && *final(self) == *old(self),
            rows_in_listing(old(self).selection.selected@, old(self).filtered_entries@.len()).len()
                > 1 ==> (r matches RenameAction::Batch(v) && exists|rows: Seq<usize>|
                strictly_increasing(rows) && rows.to_set() == rows_in_listing(
                    old(self).selection.selected@,
                    old(self).filtered_entries@.len(),
                ) && v@ == #[trigger] entries_at_rows(old(self).filtered_entries@, rows))
                && *final(self) == *old(self),
            rows_in_listing(old(self).selection.selected@, old(self).filtered_entries@.len()).len()
                == 1 ==> r is Inline && (old(self).renaming is None && index < old(
                self,
            ).filtered_entries@.len() ==> *final(self) == (ExplorerPane {
                renaming: Some(index),
                ..*old(self)
            })) && (!(old(self).renaming is None && index < old(self).filtered_entries@.len())
                ==> *final(self) == *old(self)),
    {
        let selected = self.filtered_entries_for_selection();
        proof {
            let rows = choose|rows: Seq<usize>|
                strictly_increasing(rows) && rows.to_set() == rows_in_listing(
                    self.selection.selected@,
                    self.filtered_entries@.len(),
                ) && selected@ == #[trigger] entries_at_rows(self.filtered_entries@, rows);
            lemma_increasing_no_duplicates(rows);
            rows.unique_seq_to_set();
        }
        if selected.len() == 0 {
            RenameAction::Nothing
        } else if selected.len() > 1 {
            RenameAction::Batch(selected)
        } else {
            self.begin_rename(index);
            RenameAction::Inline
        }
    }

    /// Commits an inline rename with the typed `new_name`: the rename ends
    /// either way; an empty or unchanged name, or a row that no longer
    /// exists, renames nothing. Otherwise returns the path to rename and
    /// its new name.
    pub fn commit_rename(&mut self, new_name: &str) -> (r: Option<(String, String)>)
        ensures
            *final(self) == (ExplorerPane { renaming: None, ..*old(self) }),
            match old(self).renaming {
                None => r is None,
                Some(ix) => if ix < old(self).filtered_entries@.len() && new_name@.len() > 0
                    && new_name@ != old(self).filtered_entries@[ix as int].name@ {
                    r matches Some((p, n)) && p@ == old(self).filtered_entries@[ix as int].path@
                        && n@ == new_name@
                } else {
                    r is None
                },
            },
    {
        let ix = match self.renaming {
            Some(ix) => ix,
            None => {
                return None;
            },
        };
        self.renaming = None;
        if ix >= self.filtered_entries.len() {
            return None;
        }
        let entry = &self.filtered_entries[ix];
        if new_name.is_empty() || crate::text::str_eq(new_name, entry.name.as_str()) {
            return None;
        }
        Some((entry.path.clone(), new_name.to_string()))
    }

    /// What must happen before the pane's listing can be drawn: nothing
    /// once the directory has been read, otherwise a read through the
    /// virtual file system when the pane has one, else a local read.
    pub fn load_action(&self) -> (r: LoadAction)
        ensures
            r == (if self.loaded {
                LoadAction::Nothing
            } else if self.provider_backed {
                LoadAction::ReadProvider
            } else {
                LoadAction::ReadLocal
            }),
    {
        if self.loaded {
            LoadAction::Nothing
        } else if self.provider_backed {
            LoadAction::ReadProvider
        } else {
            LoadAction::ReadLocal
        }
    }

    /// The entry whose properties are shown: the active row, when it is a
    /// shown row.
    pub fn properties_target(&self) -> (r: Option<FileEntry>)
        ensures
            match self.selection.active {
                Some(ix) => if ix < self.filtered_entries@.len() {
                    r == Some(self.filtered_entries@[ix as int])
                } else {
                    r is None
                },
                None => r is None,
            },
    {
        match self.selection.active {
            Some(ix) => if ix < self.filtered_entries.len() {
                Some(self.filtered_entries[ix].duplicate())
            } else {
                None
            },
            None => None,
        }
    }

    /// The shown entry at `path` whose properties are shown from its
    /// context menu: the first shown row with that path, if any.
    pub fn properties_target_for(&self, path: &str) -> (r: Option<FileEntry>)
        ensures
            match r {
                Some(e) => exists|ix: int|
                    0 <= ix < self.filtered_entries@.len() && e == self.filtered_entries@[ix]
                        && e.path@ == path@ && forall|j: int|
                        0 <= j < ix ==> #[trigger] self.filtered_entries@[j].path@ != path@,
                None => forall|j: int|
                    0 <= j < self.filtered_entries@.len()
                        ==> #[trigger] self.filtered_entries@[j].path@ != path@,
            },
    {
        match crate::file_ops::row_of_path(self.filtered_entries.as_slice(), path) {
            Some(ix) => Some(self.filtered_entries[ix].duplicate()),
            None => None,
        }
    }

    /// Takes the entries read from the current directory: they are put in
    /// the sort order, the rows rebuilt from them, the preview emptied and the
    /// status cleared; the directory counts as loaded.
    pub fn listing_loaded(&mut self, entries: Vec<FileEntry>)
        ensures
            is_sorting_of(final(self).entries@, entries@, old(self).sort_key, old(self).sort_asc),
            final(self).loaded,
            final(self).status_message is None,
            final(self).preview.path is None,
            final(self).preview.text is None,
            final(self).preview.editor_language is None,
            final(self).preview.image_path is None,
            final(self).preview.image_data is None,
            final(self).preview.message is None,
            !final(self).preview.html_active,
            final(self).selection.selected@.is_empty(),
            !old(self).showing_search_results ==> is_sorting_of(
                final(self).filtered_entries@,
                final(self).entries@.filter(
                    |e: FileEntry| entry_shown(e, old(self).show_hidden, old(self).search_query@),
                ),
                old(self).sort_key,
                old(self).sort_asc,
            ),
            final(self).nav == old(self).nav,
    {
        self.loaded = true;
        let mut entries = entries;
        sort_entries(&mut entries, self.sort_key, self.sort_asc);
        self.entries = entries;
        self.apply_filter();
        self.preview = PreviewPanel::new();
        self.clear_status();
    }

    /// Records that the current directory could not be read: nothing is
    /// listed and the footer shows `Cannot open '<dir>': <error>`; the
    /// directory still counts as loaded, so it is not re-read on every
    /// render.
    pub fn listing_failed(&mut self, error: &str)
        ensures
            final(self).entries@.len() == 0,
            final(self).filtered_entries@.len() == 0,
            final(self).loaded,
            final(self).status_message matches Some(m) && m.level == StatusLevel::Error && m.text@
                == "Cannot open '"@ + old(self).nav.cwd@ + "': "@ + error@,
            final(self).nav == old(self).nav,
    {
        self.loaded = true;
        self.entries = Vec::new();
        self.replace_filtered_entries(Vec::new());
        let mut text = String::new();
        push_str(&mut text, "Cannot open '");
        push_str(&mut text, self.nav.cwd.as_str());
        push_str(&mut text, "': ");
        push_str(&mut text, error);
        proof {
            reveal_strlit("Cannot open '");
            reveal_strlit("': ");
        }
        self.set_status(StatusLevel::Error, text);
    }
}

} // verus!
