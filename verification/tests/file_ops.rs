use chronos_fm::file_ops::{
    delete_confirmation, delete_failure_status, new_folder_failure_status, rename_failure_status,
    row_of_path,
};
use chronos_fm::pane::{ExplorerPane, FileEntry};

#[test]
fn operation_statuses() {
    assert_eq!(rename_failure_status("exists"), "Rename failed: exists");
    assert_eq!(new_folder_failure_status("denied"), "Could not create folder: denied");
    assert_eq!(delete_failure_status(&Vec::new()), None);
    assert_eq!(
        delete_failure_status(&vec![
            ("/a".to_string(), "busy".to_string()),
            ("/b".to_string(), "gone".to_string())
        ]),
        Some("Could not delete: /a: busy, /b: gone".to_string())
    );
    assert_eq!(delete_confirmation(3), "3 item(s) will be moved to Trash.");
}

#[test]
fn new_folder_row_is_found_by_path() {
    let entries = vec![
        FileEntry { name: "x".into(), path: "/d/x".into(), kind: "dir".into(), size: 0, modified: 0 },
        FileEntry { name: "New Folder".into(), path: "/d/New Folder".into(), kind: "dir".into(), size: 0, modified: 0 },
    ];
    assert_eq!(row_of_path(&entries, "/d/New Folder"), Some(1));
    assert_eq!(row_of_path(&entries, "/d/none"), None);
}

#[test]
fn new_folder_row_enters_rename() {
    let mut pane = ExplorerPane::new("/w".to_string());
    let entry = |name: &str, kind: &str| FileEntry {
        name: name.to_string(),
        path: format!("/w/{name}"),
        kind: kind.to_string(),
        size: 0,
        modified: 0,
    };
    pane.listing_loaded(vec![entry("a.txt", "file"), entry("New Folder (2)", "dir")]);
    assert!(!pane.rename_new_folder("/w/missing"));
    assert!(pane.renaming.is_none());
    // Directories are listed first, so the new folder is row 0.
    assert!(pane.rename_new_folder("/w/New Folder (2)"));
    assert_eq!(pane.renaming, Some(0));
    assert!(!pane.rename_new_folder("/w/a.txt"));
    assert_eq!(pane.renaming, Some(0));
}

#[test]
fn delete_request_asks_for_the_selection() {
    let mut pane = ExplorerPane::new("/w".to_string());
    let entry = |name: &str| FileEntry {
        name: name.to_string(),
        path: format!("/w/{name}"),
        kind: "file".to_string(),
        size: 0,
        modified: 0,
    };
    pane.listing_loaded(vec![entry("a"), entry("b"), entry("c")]);
    assert_eq!(pane.delete_request(false), None);
    pane.selection.select_single(2);
    pane.selection.toggle_select(0);
    assert_eq!(pane.delete_request(true), None);
    assert_eq!(
        pane.delete_request(false),
        Some((
            vec!["/w/a".to_string(), "/w/c".to_string()],
            "2 item(s) will be moved to Trash.".to_string()
        ))
    );
}
