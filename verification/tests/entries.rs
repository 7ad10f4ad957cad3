use chronos_fm::entries::sort_entries;
use chronos_fm::pane::{ExplorerPane, FileEntry, SortKey};

fn entry(name: &str, kind: &str, size: u64, modified: i64) -> FileEntry {
    FileEntry {
        name: name.to_string(),
        path: format!("/w/{name}"),
        kind: kind.to_string(),
        size,
        modified,
    }
}

fn names(entries: &[FileEntry]) -> Vec<&str> {
    entries.iter().map(|e| e.name.as_str()).collect()
}

#[test]
fn name_sort_puts_directories_first_and_ignores_case() {
    let mut v = vec![
        entry("beta.txt", "file", 3, 5),
        entry("Alpha.txt", "file", 1, 9),
        entry("zeta", "dir", 0, 1),
        entry("docs", "dir", 0, 2),
    ];
    sort_entries(&mut v, SortKey::Name, true);
    assert_eq!(names(&v), vec!["docs", "zeta", "Alpha.txt", "beta.txt"]);
    sort_entries(&mut v, SortKey::Name, false);
    assert_eq!(names(&v), vec!["zeta", "docs", "beta.txt", "Alpha.txt"]);
}

#[test]
fn size_modified_and_type_sorts() {
    let mut v = vec![
        entry("a", "file", 30, 1),
        entry("b", "symlink", 10, 3),
        entry("c", "file", 20, 2),
    ];
    sort_entries(&mut v, SortKey::Size, true);
    assert_eq!(names(&v), vec!["b", "c", "a"]);
    sort_entries(&mut v, SortKey::Modified, false);
    assert_eq!(names(&v), vec!["b", "c", "a"]);
    sort_entries(&mut v, SortKey::Modified, true);
    assert_eq!(names(&v), vec!["a", "c", "b"]);
    sort_entries(&mut v, SortKey::Type, true);
    assert_eq!(v.len(), 3);
    assert_eq!(v[2].name, "b");
}

#[test]
fn set_sort_key_reorders_the_listing() {
    let mut pane = ExplorerPane::new("/w".to_string());
    pane.listing_loaded(vec![
        entry("b", "file", 1, 0),
        entry("a", "file", 3, 0),
        entry("c", "file", 2, 0),
    ]);
    assert_eq!(names(&pane.filtered_entries), vec!["a", "b", "c"]);
    pane.set_sort_key(SortKey::Name);
    assert!(!pane.sort_asc);
    assert_eq!(names(&pane.filtered_entries), vec!["c", "b", "a"]);
    pane.set_sort_key(SortKey::Size);
    assert_eq!(names(&pane.filtered_entries), vec!["b", "c", "a"]);
    assert_eq!(names(&pane.entries), vec!["b", "c", "a"]);
}
