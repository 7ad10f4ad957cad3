//! The application's top-level pages and the sub-views of the Git and
//! Extensions pages: their labels, icons, display order and the
//! case-insensitive names accepted on the command line; which configured
//! plugins the Extensions page lists under a search.

use vstd::prelude::*;
use crate::pane::{contains_chars, seq_contains};
use crate::paths::{components, path_eq};
use vstd::utf8::is_ascii_chars;
use crate::text::{ascii_lower, lowercase, opt_chars, str_eq, string_from_chars, to_lowercase, trim_chars, trimmed};

verus! {

/// Identifies which top-level page is currently selected.
#[derive(Clone, Copy, PartialEq, Eq, Debug, Structural)]
pub enum PageKind {
    /// The file explorer page.
    Explorer,
    /// The git page.
    Git,
    /// The S3 page.
    S3,
    /// The extensions page.
    Extensions,
    /// The settings page.
    Settings,
}

/// The page a normalized (trimmed, lowercased) command-line name selects.
pub open spec fn page_for_name(n: Seq<char>) -> Option<PageKind> {
    if n == "explorer"@ || n == "fs"@ || n == "files"@ {
        Some(PageKind::Explorer)
    } else if n == "git"@ {
        Some(PageKind::Git)
    } else if n == "s3"@ {
        Some(PageKind::S3)
    } else if n == "extensions"@ || n == "plugins"@ {
        Some(PageKind::Extensions)
    } else if n == "settings"@ {
        Some(PageKind::Settings)
    } else {
        None
    }
}

/// The human-readable label of a page.
pub open spec fn page_label(k: PageKind) -> Seq<char> {
    match k {
        PageKind::Explorer => "Explorer"@,
        PageKind::Git => "Git"@,
        PageKind::S3 => "S3"@,
        PageKind::Extensions => "Extensions"@,
        PageKind::Settings => "Settings"@,
    }
}

/// The icon asset path of a page.
pub open spec fn page_icon(k: PageKind) -> Seq<char> {
    match k {
        PageKind::Explorer => "icons/folder.svg"@,
        PageKind::Git => "icons/git-branch.svg"@,
        PageKind::S3 => "icons/cloud.svg"@,
        PageKind::Extensions => "icons/puzzle.svg"@,
        PageKind::Settings => "icons/settings.svg"@,
    }
}

/// The characters of `name`, trimmed and lowercased, as command-line names
/// are compared.
fn normalized_name(name: &str) -> (r: String)
    ensures
        r@ == lowercase(trimmed(name@)),
        is_ascii_chars(trimmed(name@)) ==> r@ == ascii_lower(trimmed(name@)),
{
    let t = trim_chars(name);
    let s = string_from_chars(t.as_slice());
    to_lowercase(s.as_str())
}

impl PageKind {
    /// Parses a page name from the `--page` command-line flag:
    /// case-insensitive after trimming, accepting the labels and the
    /// aliases `fs`, `files` and `plugins`; `None` for anything else.
    pub fn from_cli_name(name: &str) -> (r: Option<PageKind>)
        ensures
            r == page_for_name(lowercase(trimmed(name@))),
            is_ascii_chars(trimmed(name@)) ==> r == page_for_name(ascii_lower(trimmed(name@))),
    {
        let n = normalized_name(name);
        let n = n.as_str();
        if str_eq(n, "explorer") || str_eq(n, "fs") || str_eq(n, "files") {
            Some(PageKind::Explorer)
        } else if str_eq(n, "git") {
            Some(PageKind::Git)
        } else if str_eq(n, "s3") {
            Some(PageKind::S3)
        } else if str_eq(n, "extensions") || str_eq(n, "plugins") {
            Some(PageKind::Extensions)
        } else if str_eq(n, "settings") {
            Some(PageKind::Settings)
        } else {
            None
        }
    }

    /// Returns the human-readable label for this page.
    pub fn label(&self) -> (r: &'static str)
        ensures
            r@ == page_label(*self),
    {
        match self {
            PageKind::Explorer => "Explorer",
            PageKind::Git => "Git",
            PageKind::S3 => "S3",
            PageKind::Extensions => "Extensions",
            PageKind::Settings => "Settings",
        }
    }

    /// Returns the asset path of the icon representing this page.
    pub fn icon_path(&self) -> (r: &'static str)
        ensures
            r@ == page_icon(*self),
    {
        match self {
            PageKind::Explorer => "icons/folder.svg",
            PageKind::Git => "icons/git-branch.svg",
            PageKind::S3 => "icons/cloud.svg",
            PageKind::Extensions => "icons/puzzle.svg",
            PageKind::Settings => "icons/settings.svg",
        }
    }

    /// Returns all page kinds in display order.
    pub fn all() -> (r: Vec<PageKind>)
        ensures
            r@ == seq![
                PageKind::Explorer,
                PageKind::Git,
                PageKind::S3,
                PageKind::Extensions,
                PageKind::Settings,
            ],
    {
        let r = vec![
            PageKind::Explorer,
            PageKind::Git,
            PageKind::S3,
            PageKind::Extensions,
            PageKind::Settings,
        ];
        proof {
            assert(r@ =~= seq![
                PageKind::Explorer,
                PageKind::Git,
                PageKind::S3,
                PageKind::Extensions,
                PageKind::Settings,
            ]);
        }
        r
    }
}

/// Which of the Git page's sub-views is active.
#[derive(Clone, Copy, Debug, PartialEq, Eq, Structural)]
pub enum GitView {
    /// Staged/unstaged/untracked file groups, commit box and diff pane.
    Changes,
    /// Bounded commit log and the selected commit's detail.
    History,
    /// Local branch list, create and checkout.
    Branches,
    /// Stash push/pop/apply/drop.
    Stashes,
    /// Configured remotes.
    Remotes,
}

impl Default for GitView {
    fn default() -> (r: GitView)
        ensures
            r == GitView::Changes,
    {
        GitView::Changes
    }
}

/// The Git sub-view a normalized command-line name selects.
pub open spec fn git_view_for_name(n: Seq<char>) -> Option<GitView> {
    if n == "changes"@ {
        Some(GitView::Changes)
    } else if n == "history"@ {
        Some(GitView::History)
    } else if n == "branches"@ {
        Some(GitView::Branches)
    } else if n == "stashes"@ {
        Some(GitView::Stashes)
    } else if n == "remotes"@ {
        Some(GitView::Remotes)
    } else {
        None
    }
}

/// The label of a Git sub-view.
pub open spec fn git_view_label(v: GitView) -> Seq<char> {
    match v {
        GitView::Changes => "Changes"@,
        GitView::History => "History"@,
        GitView::Branches => "Branches"@,
        GitView::Stashes => "Stashes"@,
        GitView::Remotes => "Remotes"@,
    }
}

impl GitView {
    /// The label shown in the sub-navigation.
    pub fn label(self) -> (r: &'static str)
        ensures
            r@ == git_view_label(self),
    {
        match self {
            GitView::Changes => "Changes",
            GitView::History => "History",
            GitView::Branches => "Branches",
            GitView::Stashes => "Stashes",
            GitView::Remotes => "Remotes",
        }
    }

    /// Parses a sub-view name from `--page=git:<name>`, case-insensitively.
    pub fn from_cli_name(name: &str) -> (r: Option<GitView>)
        ensures
            r == git_view_for_name(lowercase(trimmed(name@))),
            is_ascii_chars(trimmed(name@)) ==> r == git_view_for_name(ascii_lower(trimmed(name@))),
    {
        let n = normalized_name(name);
        let n = n.as_str();
        if str_eq(n, "changes") {
            Some(GitView::Changes)
        } else if str_eq(n, "history") {
            Some(GitView::History)
        } else if str_eq(n, "branches") {
            Some(GitView::Branches)
        } else if str_eq(n, "stashes") {
            Some(GitView::Stashes)
        } else if str_eq(n, "remotes") {
            Some(GitView::Remotes)
        } else {
            None
        }
    }
}

/// The Extensions page's sub-views.
#[derive(Clone, Copy, Debug, PartialEq, Eq, Structural)]
pub enum ExtensionsView {
    /// Plugins listed in the configuration.
    Installed,
    /// The (offline) marketplace.
    Available,
    /// Plugin permissions policy.
    Permissions,
    /// Plugin host and runtime.
    Host,
}

impl Default for ExtensionsView {
    fn default() -> (r: ExtensionsView)
        ensures
            r == ExtensionsView::Installed,
    {
        ExtensionsView::Installed
    }
}

/// The label of an Extensions sub-view.
pub open spec fn extensions_view_label(v: ExtensionsView) -> Seq<char> {
    match v {
        ExtensionsView::Installed => "Installed"@,
        ExtensionsView::Available => "Available"@,
        ExtensionsView::Permissions => "Permissions"@,
        ExtensionsView::Host => "Host / Runtime"@,
    }
}

/// The icon asset path of an Extensions sub-view.
pub open spec fn extensions_view_icon(v: ExtensionsView) -> Seq<char> {
    match v {
        ExtensionsView::Installed => "icons/puzzle.svg"@,
        ExtensionsView::Available => "icons/download.svg"@,
        ExtensionsView::Permissions => "icons/database.svg"@,
        ExtensionsView::Host => "icons/square-terminal.svg"@,
    }
}

/// The Extensions sub-view a normalized command-line name selects.
pub open spec fn extensions_view_for_name(n: Seq<char>) -> Option<ExtensionsView> {
    if n == "installed"@ {
        Some(ExtensionsView::Installed)
    } else if n == "available"@ {
        Some(ExtensionsView::Available)
    } else if n == "permissions"@ {
        Some(ExtensionsView::Permissions)
    } else if n == "host"@ || n == "runtime"@ {
        Some(ExtensionsView::Host)
    } else {
        None
    }
}

impl ExtensionsView {
    /// The four sub-views in display order.
    pub fn all() -> (r: [ExtensionsView; 4])
        ensures
            r@ == seq![
                ExtensionsView::Installed,
                ExtensionsView::Available,
                ExtensionsView::Permissions,
                ExtensionsView::Host,
            ],
    {
        let r = [
            ExtensionsView::Installed,
            ExtensionsView::Available,
            ExtensionsView::Permissions,
            ExtensionsView::Host,
        ];
        proof {
            assert(r@ =~= seq![
                ExtensionsView::Installed,
                ExtensionsView::Available,
                ExtensionsView::Permissions,
                ExtensionsView::Host,
            ]);
        }
        r
    }

    /// The label shown in the sub-navigation.
    pub fn label(self) -> (r: &'static str)
        ensures
            r@ == extensions_view_label(self),
    {
        match self {
            ExtensionsView::Installed => "Installed",
            ExtensionsView::Available => "Available",
            ExtensionsView::Permissions => "Permissions",
            ExtensionsView::Host => "Host / Runtime",
        }
    }

    /// The icon asset path of the sub-view.
    pub fn icon_path(self) -> (r: &'static str)
        ensures
            r@ == extensions_view_icon(self),
    {
        match self {
            ExtensionsView::Installed => "icons/puzzle.svg",
            ExtensionsView::Available => "icons/download.svg",
            ExtensionsView::Permissions => "icons/database.svg",
            ExtensionsView::Host => "icons/square-terminal.svg",
        }
    }

    /// Parses a sub-view name from `--page=extensions:<name>`,
    /// case-insensitively; `runtime` is an alias of `host`.
    pub fn from_cli_name(name: &str) -> (r: Option<ExtensionsView>)
        ensures
            r == extensions_view_for_name(lowercase(trimmed(name@))),
            is_ascii_chars(trimmed(name@)) ==> r == extensions_view_for_name(
                ascii_lower(trimmed(name@)),
            ),
    {
        let n = normalized_name(name);
        let n = n.as_str();
        if str_eq(n, "installed") {
            Some(ExtensionsView::Installed)
        } else if str_eq(n, "available") {
            Some(ExtensionsView::Available)
        } else if str_eq(n, "permissions") {
            Some(ExtensionsView::Permissions)
        } else if str_eq(n, "host") || str_eq(n, "runtime") {
            Some(ExtensionsView::Host)
        } else {
            None
        }
    }
}

/// The directory the Git page shows: the pinned path when set, otherwise
/// the active explorer directory (follow mode), otherwise none.
pub fn resolve_follow_dir(pinned_path: Option<&str>, explorer_path: Option<&str>) -> (r: Option<
    String,
>)
    ensures
        match (pinned_path, explorer_path) {
            (Some(p), _) => r matches Some(d) && d@ == p@,
            (None, Some(e)) => r matches Some(d) && d@ == e@,
            (None, None) => r is None,
        },
{
    if let Some(p) = pinned_path {
        return Some(p.to_owned());
    }
    match explorer_path {
        Some(e) => Some(e.to_owned()),
        None => None,
    }
}

/// Whether two optional paths differ, paths compared component by component.
pub open spec fn optional_paths_differ(a: Option<Seq<char>>, b: Option<Seq<char>>) -> bool {
    match (a, b) {
        (Some(x), Some(y)) => components(x) != components(y),
        (None, None) => false,
        _ => true,
    }
}

/// Whether the Git page's refresh loop reloads: a change signal arrived, or
/// the followed directory moved since the last refresh.
pub fn should_refresh(changed: bool, follow_dir: Option<&str>, last_dir: Option<&str>) -> (r: bool)
    ensures
        r == (changed || optional_paths_differ(opt_chars(follow_dir), opt_chars(last_dir))),
{
    if changed {
        return true;
    }
    match (follow_dir, last_dir) {
        (Some(a), Some(b)) => !path_eq(a, b),
        (None, None) => false,
        _ => true,
    }
}

/// Whether `s` spells `label` up to ASCII case.
pub open spec fn ascii_case_variant(s: Seq<char>, label: Seq<char>) -> bool {
    &&& s.len() == label.len()
    &&& forall|i: int| 0 <= i < s.len() ==> '\0' <= #[trigger] s[i] <= '\u{7f}'
    &&& ascii_lower(s) == ascii_lower(label)
}

proof fn lemma_trim_letters(s: Seq<char>)
    requires
        s.len() > 0,
        'A' <= s[0] <= 'z',
        'A' <= s.last() <= 'z' || '0' <= s.last() <= '9',
    ensures
        trimmed(s) == s,
{
    assert(crate::text::trim_start(s) == s);
}

/// Every page's label, in any ASCII letter case, parses back to that page:
/// the command-line names match the labels case-insensitively.
pub proof fn law_page_label_round_trip(k: PageKind, s: Seq<char>)
    requires
        ascii_case_variant(s, page_label(k)),
    ensures
        is_ascii_chars(trimmed(s)),
        page_for_name(ascii_lower(trimmed(s))) == Some(k),
{
    reveal_strlit("Explorer");
    reveal_strlit("Git");
    reveal_strlit("S3");
    reveal_strlit("Extensions");
    reveal_strlit("Settings");
    reveal_strlit("explorer");
    reveal_strlit("git");
    reveal_strlit("s3");
    reveal_strlit("extensions");
    reveal_strlit("settings");
    reveal_strlit("fs");
    reveal_strlit("files");
    reveal_strlit("plugins");
    let l = page_label(k);
    assert(ascii_lower(s)[0] == ascii_lower(l)[0]);
    assert(ascii_lower(s)[s.len() - 1] == ascii_lower(l)[l.len() - 1]);
    lemma_trim_letters(s);
    assert(is_ascii_chars(s));
    let low = ascii_lower(s);
    match k {
        PageKind::Explorer => {
            assert(low =~= "explorer"@);
        },
        PageKind::Git => {
            assert(low =~= "git"@);
        },
        PageKind::S3 => {
            assert(low =~= "s3"@);
        },
        PageKind::Extensions => {
            assert(low =~= "extensions"@);
        },
        PageKind::Settings => {
            assert(low =~= "settings"@);
        },
    }
}

/// Whether a plugin id is listed under the search `query`: every id with
/// an empty query, otherwise those whose lowercase form contains the
/// lowercased query.
pub open spec fn plugin_listed(id: Seq<char>, query: Seq<char>) -> bool {
    lowercase(query).len() == 0 || seq_contains(lowercase(id), lowercase(query))
}

/// The configured plugin ids listed under `query`, in their order.
pub open spec fn listed_plugins(ids: Seq<String>, query: Seq<char>) -> Seq<String> {
    ids.filter(|id: String| plugin_listed(id@, query))
}

/// What the Installed view of the Extensions page lists.
#[derive(Debug, PartialEq, Eq)]
pub enum InstalledPlugins {
    /// No plugin is configured at all.
    NoneConfigured,
    /// Plugins are configured but none matches the search.
    NoMatches,
    /// The core and community plugins that match, in configuration order.
    Listed { core: Vec<String>, community: Vec<String> },
}

fn filter_plugins(ids: &[String], query_lower: &[char], query: Ghost<Seq<char>>) -> (r: Vec<String>)
    requires
        query_lower@ == lowercase(query@),
    ensures
        r@ == listed_plugins(ids@, query@),
{
    let mut out: Vec<String> = Vec::new();
    let mut i: usize = 0;
    while i < ids.len()
        invariant
            i <= ids@.len(),
            query_lower@ == lowercase(query@),
            out@ == listed_plugins(ids@.take(i as int), query@),
        decreases ids@.len() - i,
    {
        let id = &ids[i];
        let keep = query_lower.len() == 0 || {
            let l = to_lowercase(id.as_str());
            let lc = crate::text::chars_of(l.as_str());
            contains_chars(lc.as_slice(), query_lower)
        };
        proof {
            assert(ids@.take(i + 1) =~= ids@.take(i as int).push(*id));
            ids@.take(i as int).lemma_filter_push(*id, |x: String| plugin_listed(x@, query@));
        }
        if keep {
            out.push(id.clone());
        }
        i = i + 1;
    }
    proof {
        assert(ids@.take(ids@.len() as int) =~= ids@);
    }
    out
}

/// The Installed view's contents for the configured `core` and
/// `community` plugin ids under the search `query`.
pub fn installed_plugins(core: &[String], community: &[String], query: &str) -> (r:
    InstalledPlugins)
    ensures
        ({
            let c = listed_plugins(core@, query@);
            let m = listed_plugins(community@, query@);
            &&& (c.len() == 0 && m.len() == 0 && core@.len() == 0 && community@.len() == 0)
                ==> r is NoneConfigured
            &&& (c.len() == 0 && m.len() == 0 && (core@.len() > 0 || community@.len() > 0))
                ==> r is NoMatches
            &&& (c.len() > 0 || m.len() > 0) ==> (r matches InstalledPlugins::Listed {
                core: a,
                community: b,
            } && a@ == c && b@ == m)
        }),
{
    let ql = to_lowercase(query);
    let qc = crate::text::chars_of(ql.as_str());
    let c = filter_plugins(core, qc.as_slice(), Ghost(query@));
    let m = filter_plugins(community, qc.as_slice(), Ghost(query@));
    if c.len() == 0 && m.len() == 0 {
        if core.len() == 0 && community.len() == 0 {
            InstalledPlugins::NoneConfigured
        } else {
            InstalledPlugins::NoMatches
        }
    } else {
        InstalledPlugins::Listed { core: c, community: m }
    }
}

} // verus!
