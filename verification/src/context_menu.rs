//! The rows of the listing's right-click menu: for a file or directory row
//! (open, the applications that can open it, the file operations and
//! Properties), and for the empty space of the listing (new folder, paste
//! and refresh).

use vstd::prelude::*;
use crate::clipboard::FileClipboard;

verus! {

/// One row of the context menu.
#[derive(Clone, Debug, PartialEq, Eq)]
pub enum MenuRow {
    /// Open with the system's default application.
    Open,
    /// A dividing line.
    Separator,
    /// The "Open With" heading above the applications.
    OpenWithHeader,
    /// Open with the named application (with its "Set as default" action).
    App(String),
    Rename,
    Copy,
    Cut,
    /// Copy the entry's absolute path as text.
    CopyPath,
    /// Move the selection to the trash.
    Delete,
    Properties,
    NewFolder,
    /// Paste the clipboard here; shown disabled when the clipboard is empty.
    Paste { enabled: bool },
    Refresh,
}

/// The label a row shows (empty for a separator).
pub open spec fn row_label(row: MenuRow) -> Seq<char> {
    match row {
        MenuRow::Open => "Open"@,
        MenuRow::Separator => Seq::empty(),
        MenuRow::OpenWithHeader => "Open With"@,
        MenuRow::App(name) => name@,
        MenuRow::Rename => "Rename"@,
        MenuRow::Copy => "Copy"@,
        MenuRow::Cut => "Cut"@,
        MenuRow::CopyPath => "Copy Path"@,
        MenuRow::Delete => "Delete"@,
        MenuRow::Properties => "Properties"@,
        MenuRow::NewFolder => "New Folder"@,
        MenuRow::Paste { .. } => "Paste"@,
        MenuRow::Refresh => "Refresh"@,
    }
}

impl MenuRow {
    /// The label the row shows (empty for a separator).
    pub fn label(&self) -> (r: String)
        ensures
            r@ == row_label(*self),
    {
        match self {
            MenuRow::Open => "Open".to_string(),
            MenuRow::Separator => String::new(),
            MenuRow::OpenWithHeader => "Open With".to_string(),
            MenuRow::App(name) => name.clone(),
            MenuRow::Rename => "Rename".to_string(),
            MenuRow::Copy => "Copy".to_string(),
            MenuRow::Cut => "Cut".to_string(),
            MenuRow::CopyPath => "Copy Path".to_string(),
            MenuRow::Delete => "Delete".to_string(),
            MenuRow::Properties => "Properties".to_string(),
            MenuRow::NewFolder => "New Folder".to_string(),
            MenuRow::Paste { .. } => "Paste".to_string(),
            MenuRow::Refresh => "Refresh".to_string(),
        }
    }
}

/// The rows after the applications in a file's menu.
pub open spec fn file_menu_tail() -> Seq<MenuRow> {
    seq![
        MenuRow::Separator,
        MenuRow::Rename,
        MenuRow::Copy,
        MenuRow::Cut,
        MenuRow::CopyPath,
        MenuRow::Separator,
        MenuRow::Delete,
        MenuRow::Separator,
        MenuRow::Properties,
    ]
}

/// The menu of a file or directory row whose type the applications named
/// `app_names` can open, in that order: Open, a separator, the "Open With"
/// heading and one row per application, then a separator, Rename, Copy,
/// Cut and Copy Path, a separator, Delete, a separator and Properties.
pub fn file_menu_rows(app_names: &[String]) -> (r: Vec<MenuRow>)
    ensures
        r@.len() == app_names@.len() + 12,
        r@[0] == MenuRow::Open,
        r@[1] == MenuRow::Separator,
        r@[2] == MenuRow::OpenWithHeader,
        forall|i: int|
            #![trigger r@[3 + i]]
            0 <= i < app_names@.len() ==> (r@[3 + i] matches MenuRow::App(n) && n@
                == app_names@[i]@),
        r@.subrange(3 + app_names@.len() as int, r@.len() as int) == file_menu_tail(),
{
    let mut rows: Vec<MenuRow> = Vec::new();
    rows.push(MenuRow::Open);
    rows.push(MenuRow::Separator);
    rows.push(MenuRow::OpenWithHeader);
    let mut i: usize = 0;
    while i < app_names.len()
        invariant
            i <= app_names@.len(),
            rows@.len() == 3 + i,
            rows@[0] == MenuRow::Open,
            rows@[1] == MenuRow::Separator,
            rows@[2] == MenuRow::OpenWithHeader,
            forall|k: int|
                #![trigger rows@[3 + k]]
                0 <= k < i ==> (rows@[3 + k] matches MenuRow::App(n) && n@ == app_names@[k]@),
        decreases app_names@.len() - i,
    {
        rows.push(MenuRow::App(app_names[i].clone()));
        i = i + 1;
    }
    let ghost head = rows@;
    rows.push(MenuRow::Separator);
    rows.push(MenuRow::Rename);
    rows.push(MenuRow::Copy);
    rows.push(MenuRow::Cut);
    rows.push(MenuRow::CopyPath);
    rows.push(MenuRow::Separator);
    rows.push(MenuRow::Delete);
    rows.push(MenuRow::Separator);
    rows.push(MenuRow::Properties);
    proof {
        assert(rows@.subrange(0, head.len() as int) =~= head);
        assert(rows@.subrange(3 + app_names@.len() as int, rows@.len() as int) =~= file_menu_tail());
        assert forall|k: int| 0 <= k < app_names@.len() implies (#[trigger] rows@[3 + k] matches MenuRow::App(
            n,
        ) && n@ == app_names@[k]@) by {
            assert(rows@[3 + k] == head[3 + k]);
        }
    }
    rows
}

/// The menu of the listing's empty space: New Folder, Paste (enabled only
/// when something is on the clipboard) and Refresh.
pub fn directory_menu_rows(clipboard: &FileClipboard) -> (r: Vec<MenuRow>)
    ensures
        r@ == seq![
            MenuRow::NewFolder,
            MenuRow::Paste { enabled: clipboard.mode is Some },
            MenuRow::Refresh,
        ],
{
    let mut rows: Vec<MenuRow> = Vec::new();
    rows.push(MenuRow::NewFolder);
    rows.push(MenuRow::Paste { enabled: clipboard.mode.is_some() });
    rows.push(MenuRow::Refresh);
    proof {
        assert(rows@ =~= seq![
            MenuRow::NewFolder,
            MenuRow::Paste { enabled: clipboard.mode is Some },
            MenuRow::Refresh,
        ]);
    }
    rows
}

} // verus!
