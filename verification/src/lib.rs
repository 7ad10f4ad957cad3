//! Decision logic of a file manager's explorer, settings and side pages.

pub mod text;
pub mod paths;
pub mod pages;
pub mod conflict;
pub mod undo;
pub mod selection;
pub mod navigation;
pub mod config;
pub mod patch;
pub mod pane;
pub mod entries;
pub mod preview;
pub mod preview_panel;
pub mod listing;
pub mod properties;
pub mod dnd;
pub mod clipboard;
pub mod context_menu;
pub mod credentials;
pub mod file_ops;
pub mod batch;
pub mod git_page;
