use chronos_fm::pages::{
    installed_plugins, resolve_follow_dir, should_refresh, ExtensionsView, GitView, InstalledPlugins,
    PageKind,
};

#[test]
fn from_cli_name_matches_every_label_case_insensitively() {
    for kind in PageKind::all() {
        let lower = kind.label().to_lowercase();
        assert_eq!(PageKind::from_cli_name(&lower), Some(kind));
        assert_eq!(PageKind::from_cli_name(&kind.label().to_uppercase()), Some(kind));
    }
}

#[test]
fn from_cli_name_accepts_short_aliases() {
    assert_eq!(PageKind::from_cli_name("fs"), Some(PageKind::Explorer));
    assert_eq!(PageKind::from_cli_name("files"), Some(PageKind::Explorer));
    assert_eq!(PageKind::from_cli_name("plugins"), Some(PageKind::Extensions));
}

#[test]
fn from_cli_name_trims_whitespace() {
    assert_eq!(PageKind::from_cli_name("  git  "), Some(PageKind::Git));
}

#[test]
fn from_cli_name_rejects_unknown() {
    assert_eq!(PageKind::from_cli_name("nonexistent"), None);
    assert_eq!(PageKind::from_cli_name(""), None);
}

#[test]
fn every_view_has_a_label_and_icon() {
    for view in ExtensionsView::all() {
        assert!(!view.label().is_empty());
        assert!(view.icon_path().starts_with("icons/"));
    }
}

#[test]
fn all_four_views_are_distinct() {
    let mut labels: Vec<&str> = ExtensionsView::all().iter().map(|v| v.label()).collect();
    let before = labels.len();
    labels.sort_unstable();
    labels.dedup();
    assert_eq!(labels.len(), before, "no two views share a label");
}

#[test]
fn pinned_path_takes_precedence_over_explorer_path() {
    let pinned = "/repo/pinned".to_string();
    assert_eq!(
        resolve_follow_dir(Some(&pinned), Some("/explorer/cwd")),
        Some(pinned)
    );
}

#[test]
fn follow_mode_uses_active_explorer_directory() {
    assert_eq!(
        resolve_follow_dir(None, Some("/explorer/cwd")),
        Some("/explorer/cwd".to_string())
    );
}

#[test]
fn follow_mode_without_explorer_resolves_to_none() {
    assert_eq!(resolve_follow_dir(None, None), None);
}

#[test]
fn refresh_loop_triggers_on_watcher_signal() {
    assert!(should_refresh(true, Some("/a"), Some("/a")));
}

#[test]
fn refresh_loop_triggers_on_directory_change() {
    assert!(should_refresh(false, Some("/b"), Some("/a")));
}

#[test]
fn refresh_loop_idles_without_signal_or_navigation() {
    assert!(!should_refresh(false, Some("/a"), Some("/a")));
    // First tick after construction: no last dir yet, so refresh.
    assert!(should_refresh(false, Some("/a"), None));
}

#[test]
fn refresh_compares_paths_by_component() {
    assert!(!should_refresh(false, Some("/a/b/"), Some("/a//b")));
    assert!(should_refresh(false, None, Some("/a")));
    assert!(!should_refresh(false, None, None));
}

#[test]
fn page_labels_and_icons() {
    assert_eq!(PageKind::Explorer.label(), "Explorer");
    assert_eq!(PageKind::S3.icon_path(), "icons/cloud.svg");
    assert_eq!(PageKind::all().len(), 5);
    assert_eq!(PageKind::from_cli_name("\tSETTINGS\n"), Some(PageKind::Settings));
}

#[test]
fn git_and_extension_views_parse_their_names() {
    for view in &ExtensionsView::all()[..3] {
        assert_eq!(ExtensionsView::from_cli_name(&view.label().to_uppercase()), Some(*view));
    }
    assert_eq!(ExtensionsView::from_cli_name(" Runtime "), Some(ExtensionsView::Host));
    assert_eq!(ExtensionsView::from_cli_name("HOST"), Some(ExtensionsView::Host));
    assert_eq!(ExtensionsView::from_cli_name("nope"), None);
    assert_eq!(GitView::from_cli_name("nope"), None);
    let changes = GitView::from_cli_name(&GitView::default().label().to_lowercase());
    assert_eq!(changes, Some(GitView::default()));
}

fn ids(list: &[&str]) -> Vec<String> {
    list.iter().map(|s| s.to_string()).collect()
}

#[test]
fn installed_plugins_filter_by_search() {
    assert_eq!(installed_plugins(&[], &[], ""), InstalledPlugins::NoneConfigured);
    assert_eq!(installed_plugins(&[], &[], "git"), InstalledPlugins::NoneConfigured);
    let core = ids(&["git", "Calculator"]);
    let community = ids(&["user/GitLens", "user/notes"]);
    assert_eq!(
        installed_plugins(&core, &community, ""),
        InstalledPlugins::Listed { core: core.clone(), community: community.clone() }
    );
    assert_eq!(
        installed_plugins(&core, &community, "GIT"),
        InstalledPlugins::Listed { core: ids(&["git"]), community: ids(&["user/GitLens"]) }
    );
    assert_eq!(
        installed_plugins(&core, &community, "calc"),
        InstalledPlugins::Listed { core: ids(&["Calculator"]), community: vec![] }
    );
    assert_eq!(installed_plugins(&core, &community, "zzz"), InstalledPlugins::NoMatches);
}
