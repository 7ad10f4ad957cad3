use chronos_fm::config::{SortOrder, UiSettings};
use chronos_fm::pane::{
    activation_for, breadcrumbs, shortcut_folders, filter_entries, filtered_entry_order_changed, is_hidden,
    sort_key_from_config, Activation, Crumb, ExplorerPane, FileEntry, LoadAction, RenameAction,
    SortKey, StatusLevel, ViewMode,
};

fn file(name: &str, kind: &str, size: u64) -> FileEntry {
    FileEntry {
        name: name.to_string(),
        path: format!("/tmp/{name}"),
        kind: kind.to_string(),
        size,
        modified: 0,
    }
}

#[test]
fn is_hidden_matches_dotfiles_only() {
    assert!(is_hidden(".gitignore"));
    assert!(is_hidden("..git"));
    assert!(!is_hidden("visible.txt"));
    assert!(!is_hidden(""));
}

#[test]
fn sort_key_from_config_maps_every_order() {
    assert!(sort_key_from_config(SortOrder::Name) == SortKey::Name);
    assert!(sort_key_from_config(SortOrder::Modified) == SortKey::Modified);
    assert!(sort_key_from_config(SortOrder::Size) == SortKey::Size);
    assert!(sort_key_from_config(SortOrder::Kind) == SortKey::Type);
}

#[test]
fn explorer_starts_with_default_view_state() {
    let page = ExplorerPane::new("/tmp".to_string());
    assert!(page.sort_key == SortKey::Name);
    assert!(page.sort_asc);
    assert!(!page.show_hidden);
    assert_eq!(page.icon_pack, "default");
    assert_eq!(page.view_mode, ViewMode::List);
    assert!(page.sidebar_visible);
    assert!(page.status_for_footer().is_none());
}

#[test]
fn apply_filter_hides_dotfiles_until_enabled() {
    let mut page = ExplorerPane::new("/tmp".to_string());
    page.entries = vec![file(".hidden", "file", 1), file("shown.txt", "file", 1)];
    page.apply_filter();
    let names: Vec<_> = page.filtered_entries.iter().map(|e| e.name.clone()).collect();
    assert_eq!(names, vec!["shown.txt"]);
    page.show_hidden = true;
    page.apply_filter();
    assert_eq!(page.filtered_entries.len(), 2);
}

#[test]
fn name_filter_is_case_insensitive_substring() {
    let entries = vec![
        file("Report.PDF", "file", 1),
        file("notes.txt", "file", 1),
        file(".report", "file", 1),
    ];
    let shown = filter_entries(&entries, false, "rEpO");
    assert_eq!(shown, vec![entries[0].clone()]);
    let shown = filter_entries(&entries, true, "report");
    assert_eq!(shown, vec![entries[0].clone(), entries[2].clone()]);
    assert_eq!(filter_entries(&entries, true, "").len(), 3);
    assert!(filter_entries(&entries, true, "zzz").is_empty());
}

#[test]
fn apply_filter_resets_stale_selection() {
    let mut page = ExplorerPane::new("/tmp".to_string());
    page.entries = vec![file("a", "file", 1), file("b", "file", 1)];
    page.apply_filter();
    page.select_all();
    page.renaming = Some(1);
    page.apply_filter();
    assert!(page.selected_paths().is_empty());
    assert_eq!(page.selection.anchor, None);
    assert_eq!(page.selection.active, None);
    assert_eq!(page.renaming, None);
}

#[test]
fn set_sort_key_toggles_direction_then_resets() {
    let mut page = ExplorerPane::new("/tmp".to_string());
    page.set_sort_key(SortKey::Name);
    assert!(!page.sort_asc);
    page.set_sort_key(SortKey::Name);
    assert!(page.sort_asc);
    page.set_sort_key(SortKey::Name);
    page.set_sort_key(SortKey::Size);
    assert!(page.sort_key == SortKey::Size);
    assert!(page.sort_asc);
}

#[test]
fn apply_config_ui_reflects_ui_section() {
    let mut page = ExplorerPane::new("/tmp".to_string());
    page.entries = vec![file(".h", "file", 1), file("v", "file", 1)];
    page.apply_filter();
    let ui = UiSettings {
        default_sort: SortOrder::Size,
        show_hidden: true,
        icon_pack: "mono".to_string(),
    };
    assert!(page.apply_config_ui(&ui));
    assert!(page.sort_key == SortKey::Size);
    assert!(page.show_hidden);
    assert_eq!(page.icon_pack, "mono");
    assert_eq!(page.filtered_entries.len(), 2);
    assert!(!page.apply_config_ui(&ui), "a second identical apply changes nothing");
}

#[test]
fn status_message_set_and_clear() {
    let mut page = ExplorerPane::new("/tmp".to_string());
    page.set_status(StatusLevel::Error, "boom".to_string());
    assert_eq!(page.status_for_footer(), Some(("boom".to_string(), true)));
    page.set_status(StatusLevel::Info, "ok".to_string());
    assert_eq!(page.status_for_footer(), Some(("ok".to_string(), false)));
    page.clear_status();
    assert_eq!(page.status_for_footer(), None);
}

#[test]
fn selection_single_toggle_range_and_paths() {
    let mut page = ExplorerPane::new("/tmp".to_string());
    page.entries = vec![file("a", "file", 1), file("b", "file", 1), file("c", "file", 1)];
    page.apply_filter();
    page.selection.select_single(2);
    page.selection.toggle_select(0);
    assert_eq!(page.selected_paths(), vec!["/tmp/a", "/tmp/c"]);
    page.selection.select_range_to(1);
    assert_eq!(page.selected_paths(), vec!["/tmp/a", "/tmp/b"]);
    // Rows beyond the listing are never reported.
    page.selection.select_single(7);
    assert!(page.selected_paths().is_empty());
}

#[test]
fn selection_all_clear_and_arrow_navigation() {
    let mut page = ExplorerPane::new("/tmp".to_string());
    page.entries = vec![file("a", "file", 1), file("b", "file", 1), file("c", "file", 1)];
    page.apply_filter();
    page.select_all();
    assert_eq!(page.selection.anchor, Some(0));
    assert_eq!(page.selection.active, Some(2));
    page.selection.clear();
    page.move_active(1, false);
    assert_eq!(page.selection.active, Some(0), "an empty state lands on the first row");
    page.move_active(5, false);
    assert_eq!(page.selection.active, Some(2), "moves clamp to the last row");
    page.move_active(-1, true);
    assert_eq!(page.selected_paths(), vec!["/tmp/b", "/tmp/c"]);
}

#[test]
fn replacing_rows_bumps_the_revision_only_when_order_changes() {
    let mut page = ExplorerPane::new("/tmp".to_string());
    page.replace_filtered_entries(vec![file("a", "file", 1)]);
    assert_eq!(page.entries_revision, 1);
    page.replace_filtered_entries(vec![file("a", "file", 9)]);
    assert_eq!(page.entries_revision, 1, "same paths, same order");
    page.replace_filtered_entries(vec![file("b", "file", 1)]);
    assert_eq!(page.entries_revision, 2);
    page.entries_revision = u64::MAX;
    page.replace_filtered_entries(Vec::new());
    assert_eq!(page.entries_revision, 0, "the revision wraps");
    assert!(filtered_entry_order_changed(&[file("a", "file", 1)], &[]));
    assert!(!filtered_entry_order_changed(&[], &[]));
}

#[test]
fn tab_title_is_the_directory_name() {
    assert_eq!(ExplorerPane::new("/home/me/docs".to_string()).tab_title(), "docs");
    assert_eq!(ExplorerPane::new("/".to_string()).tab_title(), "/");
    assert_eq!(ExplorerPane::new("/a/..".to_string()).tab_title(), "/a/..");
}

#[test]
fn navigation_history_supports_back_forward_and_truncation() {
    let mut page = ExplorerPane::new("/a".to_string());
    assert!(page.navigate_to("/b".to_string()));
    assert!(page.navigate_to("/c".to_string()));
    assert!(!page.navigate_to("/c".to_string()), "navigating to the current dir is a no-op");
    assert!(page.go_back());
    assert_eq!(page.nav.cwd, "/b");
    assert!(page.go_back());
    assert_eq!(page.nav.cwd, "/a");
    assert!(!page.go_back());
    assert!(page.go_forward());
    assert_eq!(page.nav.cwd, "/b");
    assert!(page.navigate_to("/d".to_string()));
    assert!(!page.go_forward(), "a new navigation drops the forward entries");
    assert_eq!(page.nav.history, vec!["/a", "/b", "/d"]);
}

#[test]
fn breadcrumbs_show_the_last_five_segments() {
    let (truncated, crumbs) = breadcrumbs("/home/me");
    assert!(!truncated);
    assert_eq!(
        crumbs,
        vec![
            Crumb { label: "/".into(), target: "/".into() },
            Crumb { label: "home".into(), target: "//home".into() },
            Crumb { label: "me".into(), target: "//home/me".into() },
        ]
    );
    let (truncated, crumbs) = breadcrumbs("/a/b/c/d/e/f");
    assert!(truncated);
    assert_eq!(crumbs.len(), 5);
    assert_eq!(crumbs[0].label, "b");
    assert_eq!(crumbs[4].target, "//a/b/c/d/e/f");
    let (_, crumbs) = breadcrumbs("");
    assert_eq!(crumbs, vec![Crumb { label: "/".into(), target: "/".into() }]);
}

#[test]
fn rename_selection_routes_by_selection_size() {
    let mut page = ExplorerPane::new("/tmp".to_string());
    page.entries = vec![file("a", "file", 1), file("b", "file", 1)];
    page.apply_filter();
    assert!(matches!(page.rename_selection(0), RenameAction::Nothing));
    page.selection.select_single(1);
    assert!(matches!(page.rename_selection(1), RenameAction::Inline));
    assert_eq!(page.renaming, Some(1));
    page.cancel_rename();
    page.select_all();
    match page.rename_selection(0) {
        RenameAction::Batch(entries) => assert_eq!(entries.len(), 2),
        other => panic!("expected the batch dialog, got {other:?}"),
    }
    assert_eq!(page.renaming, None);
}

#[test]
fn commit_rename_skips_blank_and_unchanged_names() {
    let mut page = ExplorerPane::new("/tmp".to_string());
    page.entries = vec![file("a", "file", 1)];
    page.apply_filter();
    assert!(page.begin_rename(0));
    assert!(!page.begin_rename(0), "a rename in flight is not replaced");
    assert_eq!(page.commit_rename("a"), None);
    assert_eq!(page.renaming, None);
    page.begin_rename(0);
    assert_eq!(page.commit_rename(""), None);
    page.begin_rename(0);
    assert_eq!(
        page.commit_rename("b"),
        Some(("/tmp/a".to_string(), "b".to_string()))
    );
    assert!(!page.begin_rename(3));
}

#[test]
fn listing_results_update_rows_and_status() {
    let mut page = ExplorerPane::new("/tmp".to_string());
    page.listing_failed("permission denied");
    assert_eq!(
        page.status_for_footer(),
        Some(("Cannot open '/tmp': permission denied".to_string(), true))
    );
    assert!(page.loaded);
    page.listing_loaded(vec![file("x", "file", 1)]);
    assert_eq!(page.filtered_entries.len(), 1);
    assert_eq!(page.status_for_footer(), None);
}

#[test]
fn activation_opens_directories_and_previews_files() {
    assert_eq!(
        activation_for(&file("docs", "dir", 0)),
        Activation::ChangeDir("/tmp/docs".to_string())
    );
    assert_eq!(
        activation_for(&file("a.txt", "file", 3)),
        Activation::OpenPreview("/tmp/a.txt".to_string())
    );
    assert_eq!(
        activation_for(&file("link", "symlink", 0)),
        Activation::OpenPreview("/tmp/link".to_string())
    );
}

#[test]
fn load_action_reads_once_and_routes_provider_panes() {
    let mut page = ExplorerPane::new("/tmp".to_string());
    assert_eq!(page.load_action(), LoadAction::ReadLocal);
    page.provider_backed = true;
    assert_eq!(page.load_action(), LoadAction::ReadProvider);
    page.listing_loaded(vec![file("a.txt", "file", 1)]);
    assert_eq!(page.load_action(), LoadAction::Nothing);
}

#[test]
fn properties_target_follows_the_active_row() {
    let mut page = ExplorerPane::new("/tmp".to_string());
    assert!(page.properties_target().is_none());
    page.listing_loaded(vec![file("a.txt", "file", 1), file("b.txt", "file", 2)]);
    page.selection.select_single(1);
    assert_eq!(page.properties_target().map(|e| e.name), Some("b.txt".to_string()));
    page.selection.select_single(5);
    assert!(page.properties_target().is_none());
    assert_eq!(
        page.properties_target_for("/tmp/a.txt").map(|e| e.size),
        Some(1)
    );
    assert!(page.properties_target_for("/tmp/missing").is_none());
}

#[test]
fn shortcut_folders_list_home_then_user_folders() {
    let folders = shortcut_folders("/home/ana");
    assert_eq!(folders.len(), 7);
    assert_eq!(folders[0], ("Home".to_string(), "/home/ana".to_string()));
    assert_eq!(folders[1], ("Desktop".to_string(), "/home/ana/Desktop".to_string()));
    assert_eq!(folders[6], ("Videos".to_string(), "/home/ana/Videos".to_string()));
    let slash = shortcut_folders("/home/ana/");
    assert_eq!(slash[3].1, "/home/ana/Downloads");
    let empty = shortcut_folders("");
    assert_eq!(empty[2].1, "Documents");
}
