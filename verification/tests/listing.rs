use chronos_fm::listing::{find_query_highlights, folder_icon_path, icon_path_for, truncate_middle};

#[test]
fn keeps_short_names_unchanged() {
    assert_eq!(truncate_middle("Cargo.toml", 20), "Cargo.toml");
}

#[test]
fn elides_middle_preserving_extension() {
    let out = truncate_middle("a-very-long-file-name.rs", 16);
    assert!(out.contains("..."));
    assert!(out.ends_with(".rs"));
    assert!(out.chars().count() <= 16);
}

#[test]
fn does_not_panic_when_extension_exceeds_budget() {
    let _ = truncate_middle("x.0123456789012345678901234567890", 20);
    let _ = truncate_middle("no-dot-but-extremely-long-name-here", 8);
    let _ = truncate_middle(".gitignore", 5);
}

#[test]
fn never_exceeds_max_len_even_below_ellipsis_width() {
    for max_len in 0..=6 {
        let out = truncate_middle("really-long-filename.rs", max_len);
        assert!(out.chars().count() <= max_len, "max_len={max_len} produced {out:?}");
    }
}

#[test]
fn truncation_exact_outputs() {
    assert_eq!(truncate_middle("a-very-long-file-name.rs", 16), "a-ver...-name.rs");
    assert_eq!(truncate_middle("abcdefghij", 3), "abc");
    assert_eq!(truncate_middle("abcdefghij", 7), "ab...ij");
    assert_eq!(truncate_middle("x.0123456789", 8), "x....789");
}

#[test]
fn directories_get_the_folder_icon_regardless_of_name() {
    assert_eq!(icon_path_for("src", "dir"), "icons/folder.svg");
    assert_eq!(icon_path_for("archive.zip", "dir"), "icons/folder.svg");
}

#[test]
fn known_extensions_map_to_their_category_icon() {
    for ext in ["rs", "py", "js", "ts", "go", "c", "cpp", "h", "json", "toml", "yaml", "yml", "sh"] {
        assert_eq!(
            icon_path_for(&format!("main.{ext}"), "file"),
            "icons/file-code.svg",
            "ext={ext}"
        );
    }
    for ext in ["png", "jpg", "jpeg", "gif", "webp", "svg", "bmp"] {
        assert_eq!(
            icon_path_for(&format!("pic.{ext}"), "file"),
            "icons/file-image.svg",
            "ext={ext}"
        );
    }
    for ext in ["zip", "tar", "gz", "xz", "zst", "7z", "rar"] {
        assert_eq!(
            icon_path_for(&format!("bundle.{ext}"), "file"),
            "icons/file-archive.svg",
            "ext={ext}"
        );
    }
    for ext in ["md", "txt", "rst", "log"] {
        assert_eq!(
            icon_path_for(&format!("notes.{ext}"), "file"),
            "icons/file-text.svg",
            "ext={ext}"
        );
    }
}

#[test]
fn unknown_or_missing_extension_falls_back_to_the_generic_file_icon() {
    assert_eq!(icon_path_for("Makefile", "file"), "icons/file.svg");
    assert_eq!(icon_path_for("data.bin", "file"), "icons/file.svg");
}

#[test]
fn extension_matching_is_case_insensitive() {
    assert_eq!(icon_path_for("Main.RS", "file"), "icons/file-code.svg");
}

#[test]
fn places_have_their_icons() {
    assert_eq!(folder_icon_path("Home"), "icons/house.svg");
    assert_eq!(folder_icon_path("Images"), "icons/file-image.svg");
    assert_eq!(folder_icon_path("Music"), "icons/folder.svg");
}

#[test]
fn highlights_are_case_insensitive_byte_ranges() {
    assert_eq!(find_query_highlights("Hello hello", "HELLO"), vec![0..5, 6..11]);
    assert!(find_query_highlights("abc", "").is_empty());
    assert!(find_query_highlights("abc", "abcd").is_empty());
    // Matches do not overlap.
    assert_eq!(find_query_highlights("aaaa", "aa"), vec![0..2, 2..4]);
    // Offsets count bytes: "é" takes two.
    assert_eq!(find_query_highlights("éa-ÉA", "éa"), vec![0..3, 4..7]);
}
