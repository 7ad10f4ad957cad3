use chronos_fm::clipboard::{init, set_copy};
use chronos_fm::context_menu::{directory_menu_rows, file_menu_rows, MenuRow};

#[test]
fn file_menu_lists_apps_between_open_and_file_operations() {
    let rows = file_menu_rows(&["Gedit".to_string(), "Vim".to_string()]);
    assert_eq!(
        rows,
        vec![
            MenuRow::Open,
            MenuRow::Separator,
            MenuRow::OpenWithHeader,
            MenuRow::App("Gedit".to_string()),
            MenuRow::App("Vim".to_string()),
            MenuRow::Separator,
            MenuRow::Rename,
            MenuRow::Copy,
            MenuRow::Cut,
            MenuRow::CopyPath,
            MenuRow::Separator,
            MenuRow::Delete,
            MenuRow::Separator,
            MenuRow::Properties,
        ]
    );
    assert_eq!(rows[3].label(), "Gedit");
    assert_eq!(rows[9].label(), "Copy Path");
    assert_eq!(file_menu_rows(&[]).len(), 12);
}

#[test]
fn directory_menu_enables_paste_only_with_a_clipboard() {
    let mut clip = init();
    assert_eq!(
        directory_menu_rows(&clip),
        vec![MenuRow::NewFolder, MenuRow::Paste { enabled: false }, MenuRow::Refresh]
    );
    set_copy(vec!["/a".to_string()], &mut clip);
    assert_eq!(directory_menu_rows(&clip)[1], MenuRow::Paste { enabled: true });
    assert_eq!(directory_menu_rows(&clip)[1].label(), "Paste");
}
