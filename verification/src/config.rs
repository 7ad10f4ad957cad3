//! Settings that the explorer reads from `config.toml`, the one-key edits
//! the Settings tab writes back into that file without disturbing the rest
//! of its text, and where the file lives.

use vstd::prelude::*;
use crate::text::{opt_chars, push_str};

verus! {

/// Colour scheme selection, `[theme].mode`.
#[derive(Clone, Copy, PartialEq, Eq, Debug, Structural)]
pub enum ThemeMode {
    /// Follow the operating system.
    System,
    /// Always light.
    Light,
    /// Always dark.
    Dark,
}

/// Default listing order, `[ui].default_sort`.
#[derive(Clone, Copy, PartialEq, Eq, Debug, Structural)]
pub enum SortOrder {
    /// By name.
    Name,
    /// By modification time.
    Modified,
    /// By size.
    Size,
    /// By kind.
    Kind,
}

/// Orientation of a split explorer, `[explorer].split_direction`.
#[derive(Clone, Copy, PartialEq, Eq, Debug, Structural)]
pub enum SplitDirection {
    /// Panes side by side.
    Vertical,
    /// Panes stacked.
    Horizontal,
}

/// The `[ui]` section as the explorer applies it to an open view.
#[derive(Clone, Debug)]
pub struct UiSettings {
    /// `[ui].default_sort`.
    pub default_sort: SortOrder,
    /// `[ui].show_hidden`.
    pub show_hidden: bool,
    /// `[ui].icon_pack`.
    pub icon_pack: String,
}

/// One editable Settings-tab field and its new value. Each variant maps to
/// exactly one `config.toml` key path.
#[derive(Clone, Debug, PartialEq)]
pub enum ConfigField {
    /// `[theme].mode`.
    ThemeMode(ThemeMode),
    /// `[theme].accent`.
    ThemeAccent(String),
    /// `[ui].default_sort`.
    UiDefaultSort(SortOrder),
    /// `[ui].show_hidden`.
    UiShowHidden(bool),
    /// `[ui].icon_pack`.
    UiIconPack(String),
    /// `[explorer].split_direction`.
    ExplorerSplitDirection(SplitDirection),
    /// `[explorer].synced_panes`.
    ExplorerSyncedPanes(bool),
    /// `[explorer].restore_tabs`.
    ExplorerRestoreTabs(bool),
    /// `[s3].default_profile`.
    S3DefaultProfile(String),
    /// `[s3.profiles.<profile>].endpoint`.
    S3ProfileEndpoint { profile: String, endpoint: String },
    /// `[s3.profiles.<profile>].region`.
    S3ProfileRegion { profile: String, region: String },
    /// `[s3.profiles.<profile>].force_path_style`.
    S3ProfileForcePathStyle { profile: String, value: bool },
}

/// A scalar written into `config.toml`: a string or a boolean.
#[derive(Clone, Debug, PartialEq)]
pub enum ConfigValue {
    /// A TOML string.
    Text(String),
    /// A TOML boolean.
    Flag(bool),
}

/// The abstract form of a [`ConfigValue`].
pub enum ConfigValueView {
    Text(Seq<char>),
    Flag(bool),
}

impl ConfigValue {
    pub open spec fn view(&self) -> ConfigValueView {
        match self {
            ConfigValue::Text(s) => ConfigValueView::Text(s@),
            ConfigValue::Flag(b) => ConfigValueView::Flag(*b),
        }
    }
}

/// Whether a field is one of a named S3 profile's settings, which live in
/// a sub-table of `[s3]`.
pub open spec fn is_profile_field(f: ConfigField) -> bool {
    ||| f is S3ProfileEndpoint
    ||| f is S3ProfileRegion
    ||| f is S3ProfileForcePathStyle
}

/// The section table a field lives under.
pub open spec fn field_section(f: ConfigField) -> Seq<char> {
    match f {
        ConfigField::ThemeMode(_) | ConfigField::ThemeAccent(_) => "theme"@,
        ConfigField::UiDefaultSort(_) | ConfigField::UiShowHidden(_) | ConfigField::UiIconPack(
            _,
        ) => "ui"@,
        ConfigField::ExplorerSplitDirection(_)
        | ConfigField::ExplorerSyncedPanes(_)
        | ConfigField::ExplorerRestoreTabs(_) => "explorer"@,
        _ => "s3"@,
    }
}

/// The key of a field within its section.
pub open spec fn field_key(f: ConfigField) -> Seq<char> {
    match f {
        ConfigField::ThemeMode(_) => "mode"@,
        ConfigField::ThemeAccent(_) => "accent"@,
        ConfigField::UiDefaultSort(_) => "default_sort"@,
        ConfigField::UiShowHidden(_) => "show_hidden"@,
        ConfigField::UiIconPack(_) => "icon_pack"@,
        ConfigField::ExplorerSplitDirection(_) => "split_direction"@,
        ConfigField::ExplorerSyncedPanes(_) => "synced_panes"@,
        ConfigField::ExplorerRestoreTabs(_) => "restore_tabs"@,
        ConfigField::S3DefaultProfile(_) => "default_profile"@,
        _ => "profiles"@,
    }
}

/// How a theme mode is spelled in `config.toml`.
pub open spec fn theme_mode_text(m: ThemeMode) -> Seq<char> {
    match m {
        ThemeMode::System => "system"@,
        ThemeMode::Light => "light"@,
        ThemeMode::Dark => "dark"@,
    }
}

/// How a sort order is spelled in `config.toml`.
pub open spec fn sort_order_text(s: SortOrder) -> Seq<char> {
    match s {
        SortOrder::Name => "name"@,
        SortOrder::Modified => "modified"@,
        SortOrder::Size => "size"@,
        SortOrder::Kind => "kind"@,
    }
}

/// How a split direction is spelled in `config.toml`.
pub open spec fn split_direction_text(d: SplitDirection) -> Seq<char> {
    match d {
        SplitDirection::Vertical => "vertical"@,
        SplitDirection::Horizontal => "horizontal"@,
    }
}

/// The value a field writes.
pub open spec fn field_value(f: ConfigField) -> ConfigValueView {
    match f {
        ConfigField::ThemeMode(m) => ConfigValueView::Text(theme_mode_text(m)),
        ConfigField::ThemeAccent(s) => ConfigValueView::Text(s@),
        ConfigField::UiDefaultSort(o) => ConfigValueView::Text(sort_order_text(o)),
        ConfigField::UiShowHidden(b) => ConfigValueView::Flag(b),
        ConfigField::UiIconPack(s) => ConfigValueView::Text(s@),
        ConfigField::ExplorerSplitDirection(d) => ConfigValueView::Text(split_direction_text(d)),
        ConfigField::ExplorerSyncedPanes(b) => ConfigValueView::Flag(b),
        ConfigField::ExplorerRestoreTabs(b) => ConfigValueView::Flag(b),
        ConfigField::S3DefaultProfile(s) => ConfigValueView::Text(s@),
        ConfigField::S3ProfileEndpoint { endpoint, .. } => ConfigValueView::Text(endpoint@),
        ConfigField::S3ProfileRegion { region, .. } => ConfigValueView::Text(region@),
        ConfigField::S3ProfileForcePathStyle { value, .. } => ConfigValueView::Flag(value),
    }
}

/// The profile a profile field belongs to.
pub open spec fn field_profile(f: ConfigField) -> Seq<char> {
    match f {
        ConfigField::S3ProfileEndpoint { profile, .. } => profile@,
        ConfigField::S3ProfileRegion { profile, .. } => profile@,
        ConfigField::S3ProfileForcePathStyle { profile, .. } => profile@,
        _ => Seq::empty(),
    }
}

/// The key of a profile field inside its profile table.
pub open spec fn profile_field_key(f: ConfigField) -> Seq<char> {
    match f {
        ConfigField::S3ProfileEndpoint { .. } => "endpoint"@,
        ConfigField::S3ProfileRegion { .. } => "region"@,
        _ => "force_path_style"@,
    }
}

impl ConfigField {
    /// For a named S3 profile's setting, the profile and the key of the
    /// setting inside the profile's table.
    pub fn profile_target(&self) -> (r: Option<(&String, &'static str)>)
        ensures
            r is Some <==> is_profile_field(*self),
            r matches Some((p, k)) ==> p@ == field_profile(*self) && k@ == profile_field_key(
                *self,
            ),
    {
        match self {
            ConfigField::S3ProfileEndpoint { profile, .. } => Some((profile, "endpoint")),
            ConfigField::S3ProfileRegion { profile, .. } => Some((profile, "region")),
            ConfigField::S3ProfileForcePathStyle { profile, .. } => Some(
                (profile, "force_path_style"),
            ),
            _ => None,
        }
    }

    /// The `config.toml` section table this field lives under.
    pub fn section(&self) -> (r: &'static str)
        ensures
            r@ == field_section(*self),
    {
        match self {
            ConfigField::ThemeMode(_) | ConfigField::ThemeAccent(_) => "theme",
            ConfigField::UiDefaultSort(_)
            | ConfigField::UiShowHidden(_)
            | ConfigField::UiIconPack(_) => "ui",
            ConfigField::ExplorerSplitDirection(_)
            | ConfigField::ExplorerSyncedPanes(_)
            | ConfigField::ExplorerRestoreTabs(_) => "explorer",
            ConfigField::S3DefaultProfile(_) => "s3",
            ConfigField::S3ProfileEndpoint { .. }
            | ConfigField::S3ProfileRegion { .. }
            | ConfigField::S3ProfileForcePathStyle { .. } => "s3",
        }
    }

    /// The `config.toml` key within the section.
    pub fn key(&self) -> (r: &'static str)
        ensures
            r@ == field_key(*self),
    {
        match self {
            ConfigField::ThemeMode(_) => "mode",
            ConfigField::ThemeAccent(_) => "accent",
            ConfigField::UiDefaultSort(_) => "default_sort",
            ConfigField::UiShowHidden(_) => "show_hidden",
            ConfigField::UiIconPack(_) => "icon_pack",
            ConfigField::ExplorerSplitDirection(_) => "split_direction",
            ConfigField::ExplorerSyncedPanes(_) => "synced_panes",
            ConfigField::ExplorerRestoreTabs(_) => "restore_tabs",
            ConfigField::S3DefaultProfile(_) => "default_profile",
            ConfigField::S3ProfileEndpoint { .. }
            | ConfigField::S3ProfileRegion { .. }
            | ConfigField::S3ProfileForcePathStyle { .. } => "profiles",
        }
    }

    /// The value this field writes, in `config.toml` spelling.
    pub fn toml_value(&self) -> (r: ConfigValue)
        ensures
            r.view() == field_value(*self),
    {
        match self {
            ConfigField::ThemeMode(mode) => ConfigValue::Text(
                match mode {
                    ThemeMode::System => "system",
                    ThemeMode::Light => "light",
                    ThemeMode::Dark => "dark",
                }.to_string(),
            ),
            ConfigField::ThemeAccent(s) | ConfigField::UiIconPack(s)
            | ConfigField::S3DefaultProfile(s) => ConfigValue::Text(s.clone()),
            ConfigField::UiDefaultSort(sort) => ConfigValue::Text(
                match sort {
                    SortOrder::Name => "name",
                    SortOrder::Modified => "modified",
                    SortOrder::Size => "size",
                    SortOrder::Kind => "kind",
                }.to_string(),
            ),
            ConfigField::UiShowHidden(b)
            | ConfigField::ExplorerSyncedPanes(b)
            | ConfigField::ExplorerRestoreTabs(b) => ConfigValue::Flag(*b),
            ConfigField::ExplorerSplitDirection(dir) => ConfigValue::Text(
                match dir {
                    SplitDirection::Vertical => "vertical",
                    SplitDirection::Horizontal => "horizontal",
                }.to_string(),
            ),
            ConfigField::S3ProfileEndpoint { endpoint, .. } => ConfigValue::Text(endpoint.clone()),
            ConfigField::S3ProfileRegion { region, .. } => ConfigValue::Text(region.clone()),
            ConfigField::S3ProfileForcePathStyle { value, .. } => ConfigValue::Flag(*value),
        }
    }
}

/// `base` joined with the relative path `rest`, with one `/` between them.
pub open spec fn join_path(base: Seq<char>, rest: Seq<char>) -> Seq<char> {
    if base.len() > 0 && base.last() == '/' {
        base + rest
    } else {
        base + "/"@ + rest
    }
}

/// The per-user configuration directory: `$XDG_CONFIG_HOME` when it is set
/// and not empty, else `$HOME/.config`, else (neither set) the working
/// directory `.`.
pub open spec fn config_home(xdg_config_home: Option<Seq<char>>, home: Option<Seq<char>>) -> Seq<
    char,
> {
    match xdg_config_home {
        Some(x) if x.len() > 0 => x,
        _ => match home {
            Some(h) if h.len() > 0 => join_path(h, ".config"@),
            _ => "."@,
        },
    }
}

/// Appends `rest` to `path` as a further component.
pub fn push_component(path: &mut String, rest: &str)
    ensures
        final(path)@ == join_path(old(path)@, rest@),
{
    let n = path.as_str().unicode_len();
    let ends_with_slash = n > 0 && path.as_str().get_char(n - 1) == '/';
    if !ends_with_slash {
        push_str(path, "/");
        proof {
            reveal_strlit("/");
        }
    }
    push_str(path, rest);
}

/// The `config.toml` the Settings tab writes to and the loader reads:
/// `chronos-fm/config.toml` under the per-user configuration directory,
/// given the values of `XDG_CONFIG_HOME` and `HOME`. There is always a
/// path: with neither variable set, the directory is the working one.
pub fn default_config_path(xdg_config_home: Option<&str>, home: Option<&str>) -> (r: Result<
    String,
    String,
>)
    ensures
        r matches Ok(p) && p@ == join_path(
            join_path(config_home(opt_chars(xdg_config_home), opt_chars(home)), "chronos-fm"@),
            "config.toml"@,
        ),
{
    let mut dir = String::new();
    match xdg_config_home {
        Some(x) if !x.is_empty() => {
            push_str(&mut dir, x);
        },
        _ => match home {
            Some(h) if !h.is_empty() => {
                push_str(&mut dir, h);
                push_component(&mut dir, ".config");
            },
            _ => {
                push_str(&mut dir, ".");
                proof {
                    reveal_strlit(".");
                }
            },
        },
    }
    push_component(&mut dir, "chronos-fm");
    push_component(&mut dir, "config.toml");
    Ok(dir)
}

} // verus!
