# chronos_fm

The decision logic of a desktop file manager, written in Verus and proved
against its contracts: navigation history, selection, filtering and
breadcrumbs of an explorer pane; drag-and-drop validation and completion;
the clipboard and paste planning; conflict resolution for transfers; the
undo/redo stack; preview classification and the preview pane's state;
properties formatting; batch-rename helpers; the Git page's state; the
settings file's location and the in-place patching of its TOML; and the
stored S3 credentials format.

Layout:

- `src/` — the verified library, one module per concern (`pane`, `entries`,
  `navigation`, `selection`, `dnd`, `clipboard`, `context_menu`, `conflict`, `undo`,
  `preview`, `preview_panel`, `listing`, `properties`, `batch`, `file_ops`,
  `git_page`, `pages`, `config`, `patch`, `credentials`, with `text` and
  `paths` holding the string and path helpers they share). Calls into
  `toml_edit`, `time`, `url` and `serde_json` stand behind small trusted
  wrappers whose contracts say what those crates document.
- `tests/` — tests of the library on concrete values.
- `app/` — the unverified glue: reading directories and files, the system
  keyring, user and group lookups, directory-size walks, and human-readable
  sizes.
