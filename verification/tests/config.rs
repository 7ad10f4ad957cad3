use chronos_fm::config::{
    default_config_path, ConfigField, ConfigValue, SortOrder, SplitDirection,
    ThemeMode,
};
use chronos_fm::patch::patch_config_text;

const SAMPLE: &str = r#"#:schema https://chronos-fm.app/schema/config.schema.json
schema_version = 1

[theme]
mode = "system"   # "system" | "light" | "dark"
accent = "blue"   # named colour or hex (full customization in P5)

[ui]
default_sort = "name"   # "name" | "modified" | "size" | "kind"
show_hidden = false
icon_pack = "default"
"#;

#[test]
fn patches_theme_mode_preserving_comments() {
    let patched = patch_config_text(SAMPLE, &ConfigField::ThemeMode(ThemeMode::Dark)).unwrap();

    assert!(patched.contains(r#"mode = "dark""#));
    // The inline comment on that same line must survive.
    assert!(patched.contains(r#"mode = "dark"   # "system" | "light" | "dark""#));
    // An untouched line elsewhere must be byte-identical.
    assert!(patched.contains(r#"accent = "blue"   # named colour or hex (full customization in P5)"#));
    // Only one line changed.
    let before_lines: Vec<&str> = SAMPLE.lines().collect();
    let after_lines: Vec<&str> = patched.lines().collect();
    assert_eq!(before_lines.len(), after_lines.len());
    let diff_count = before_lines
        .iter()
        .zip(after_lines.iter())
        .filter(|(a, b)| a != b)
        .count();
    assert_eq!(diff_count, 1, "exactly one line should differ");
}

#[test]
fn patches_ui_show_hidden_bool() {
    let patched = patch_config_text(SAMPLE, &ConfigField::UiShowHidden(true)).unwrap();
    assert!(patched.contains("show_hidden = true"));
}

#[test]
fn default_config_path_ends_with_expected_filename() {
    let path = default_config_path(Some("/home/u/.config"), Some("/home/u")).unwrap();
    assert_eq!(std::path::Path::new(&path).file_name().unwrap(), "config.toml");
    assert!(path.contains("chronos-fm"));
}

#[test]
fn patches_non_table_section_by_replacing_it() {
    // A hand-edited top-level `theme = "dark"` string (malformed but
    // loadable) must not panic: the section is replaced with a table.
    let malformed = "schema_version = 1\ntheme = \"dark\"\n";
    let patched = patch_config_text(malformed, &ConfigField::ThemeMode(ThemeMode::Light)).unwrap();
    assert!(patched.contains("[theme]"));
    assert!(patched.contains("mode = \"light\""));
}

#[test]
fn patches_explorer_split_direction() {
    let base = "schema_version = 1\n[explorer]\n";
    let vertical = patch_config_text(
        base,
        &ConfigField::ExplorerSplitDirection(SplitDirection::Vertical),
    )
    .unwrap();
    assert!(vertical.contains("split_direction = \"vertical\""));

    let horizontal = patch_config_text(
        base,
        &ConfigField::ExplorerSplitDirection(SplitDirection::Horizontal),
    )
    .unwrap();
    assert!(horizontal.contains("split_direction = \"horizontal\""));
}

#[test]
fn patches_missing_section_by_creating_it() {
    let minimal = "schema_version = 1\n";
    let patched = patch_config_text(minimal, &ConfigField::ExplorerSyncedPanes(true)).unwrap();
    assert!(patched.contains("[explorer]"));
    assert!(patched.contains("synced_panes = true"));
}

#[test]
fn invalid_toml_is_refused() {
    assert!(patch_config_text("this is [not toml", &ConfigField::UiShowHidden(true)).is_err());
    let error = patch_config_text("this is [not toml", &ConfigField::UiShowHidden(true)).unwrap_err();
    assert_eq!(error.context(), "parsing config.toml");
}

#[test]
fn s3_profile_fields_land_in_the_profile_table() {
    let patched = patch_config_text(
        "schema_version = 1\n",
        &ConfigField::S3ProfileRegion {
            profile: "work".to_string(),
            region: "eu-west-1".to_string(),
        },
    )
    .unwrap();
    assert!(patched.contains("region = \"eu-west-1\""), "{patched}");
    assert!(patched.contains("s3"), "{patched}");
    let again = patch_config_text(
        &patched,
        &ConfigField::S3ProfileForcePathStyle {
            profile: "work".to_string(),
            value: true,
        },
    )
    .unwrap();
    assert!(again.contains("region = \"eu-west-1\""), "{again}");
    assert!(again.contains("force_path_style = true"), "{again}");
}

#[test]
fn field_sections_keys_and_values() {
    let f = ConfigField::UiDefaultSort(SortOrder::Kind);
    assert_eq!(f.section(), "ui");
    assert_eq!(f.key(), "default_sort");
    assert_eq!(f.toml_value(), ConfigValue::Text("kind".to_string()));
    let f = ConfigField::S3ProfileEndpoint {
        profile: "p".to_string(),
        endpoint: "http://x".to_string(),
    };
    assert_eq!(f.section(), "s3");
    assert_eq!(f.key(), "profiles");
    assert_eq!(f.toml_value(), ConfigValue::Text("http://x".to_string()));
    assert_eq!(ConfigField::ExplorerRestoreTabs(false).toml_value(), ConfigValue::Flag(false));
}

#[test]
fn config_path_prefers_xdg_then_home() {
    assert_eq!(
        default_config_path(Some("/x/"), Some("/h")),
        Ok("/x/chronos-fm/config.toml".to_string())
    );
    assert_eq!(
        default_config_path(Some(""), Some("/h")),
        Ok("/h/.config/chronos-fm/config.toml".to_string())
    );
    assert_eq!(
        default_config_path(None, None),
        Ok("./chronos-fm/config.toml".to_string())
    );
    assert_eq!(
        default_config_path(Some(""), Some("")),
        Ok("./chronos-fm/config.toml".to_string())
    );
}

#[test]
fn s3_profile_values_live_in_nested_profile_tables() {
    let patched = patch_config_text(
        "schema_version = 1\n",
        &ConfigField::S3ProfileEndpoint {
            profile: "work".to_string(),
            endpoint: "http://e".to_string(),
        },
    )
    .unwrap();
    let doc: toml_edit::DocumentMut = patched.parse().unwrap();
    assert_eq!(doc["s3"]["profiles"]["work"]["endpoint"].as_str(), Some("http://e"));
    assert_eq!(doc["schema_version"].as_integer(), Some(1));
}

#[test]
fn repatching_keeps_other_keys_and_comments() {
    let first = patch_config_text(SAMPLE, &ConfigField::UiShowHidden(true)).unwrap();
    let second = patch_config_text(&first, &ConfigField::UiShowHidden(true)).unwrap();
    assert_eq!(first, second);
    assert!(second.contains(r#"default_sort = "name"   # "name" | "modified" | "size" | "kind""#));
    assert!(second.contains("#:schema https://chronos-fm.app/schema/config.schema.json"));
}

#[test]
fn inline_table_section_keeps_its_keys() {
    let patched = patch_config_text(
        "schema_version = 1\ntheme = { accent = \"blue\" }\n",
        &ConfigField::ThemeMode(ThemeMode::Dark),
    )
    .unwrap();
    let doc: toml_edit::DocumentMut = patched.parse().unwrap();
    assert_eq!(doc["theme"]["accent"].as_str(), Some("blue"), "{patched}");
    assert_eq!(doc["theme"]["mode"].as_str(), Some("dark"), "{patched}");
    assert!(doc["theme"].is_inline_table(), "{patched}");
    assert_eq!(doc["schema_version"].as_integer(), Some(1));
}
