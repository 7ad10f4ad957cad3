use chronos_fm::preview::{
    archive_member_outcome, detect_language, extension_of, image_format_for_path, is_html_path,
    is_image_path, line_start_offset, path_to_file_url, preview_plan, text_outcome, FileFacts,
    ImageFormat, PreviewOutcome, PreviewPlan,
};

#[test]
fn detect_language_maps_known_extensions() {
    for (path, expected) in [
        ("a.rs", "rust"),
        ("a.md", "markdown"),
        ("a.json", "json"),
        ("a.js", "javascript"),
        ("a.ts", "typescript"),
        ("a.html", "html"),
        ("a.htm", "html"),
        ("a.xhtml", "html"),
        ("a.go", "go"),
        ("a.zig", "zig"),
        ("a.toml", "toml"),
        ("a.yaml", "yaml"),
        ("a.yml", "yaml"),
        ("a.css", "css"),
        ("a.c", "c"),
        ("a.cpp", "cpp"),
    ] {
        assert_eq!(detect_language(path), expected, "for {path}");
    }
}

#[test]
fn detect_language_is_case_insensitive_and_defaults_to_plain() {
    assert_eq!(detect_language("MAIN.RS"), "rust");
    assert_eq!(detect_language("notes.unknown"), "plain");
    assert_eq!(detect_language("noext"), "plain");
}

#[test]
fn image_path_classification() {
    for ext in ["png", "jpg", "jpeg", "gif", "bmp", "svg", "webp", "ico"] {
        assert!(is_image_path(&format!("a.{ext}")), "{ext} is an image");
    }
    assert!(is_image_path("PHOTO.PNG"));
    assert!(!is_image_path("a.txt"));
    assert!(!is_image_path("a.html"));
}

#[test]
fn html_paths_detected() {
    assert!(is_html_path("index.html"));
    assert!(is_html_path("INDEX.HTM"));
    assert!(is_html_path("page.xhtml"));
    assert!(!is_html_path("page.txt"));
}

#[test]
fn path_to_file_url_uses_file_scheme() {
    let url = path_to_file_url("/tmp/example.html", Ok("/unused")).unwrap();
    assert!(url.starts_with("file://"), "{url}");
    assert!(url.contains("example.html"), "{url}");
}

#[test]
fn line_start_offset_handles_lf_crlf_and_bounds() {
    let lf = "a\nbb\nccc";
    assert_eq!(line_start_offset(lf, 0), Some(0));
    assert_eq!(line_start_offset(lf, 1), Some(2));
    assert_eq!(line_start_offset(lf, 2), Some(5));
    assert_eq!(line_start_offset(lf, 3), None);

    let crlf = "a\r\nbb";
    assert_eq!(line_start_offset(crlf, 1), Some(3));
}

#[test]
fn line_start_offset_counts_bytes_and_ignores_a_trailing_newline() {
    assert_eq!(line_start_offset("", 0), None);
    assert_eq!(line_start_offset("\n", 0), Some(0));
    assert_eq!(line_start_offset("\n", 1), None);
    assert_eq!(line_start_offset("a\n", 1), None);
    // "é" takes two bytes and "€" three.
    assert_eq!(line_start_offset("é\n€\nz", 1), Some(3));
    assert_eq!(line_start_offset("é\n€\nz", 2), Some(7));
    for (i, line) in "x\r\nyy\n\nzzz".lines().enumerate() {
        let off = line_start_offset("x\r\nyy\n\nzzz", i).unwrap();
        assert!("x\r\nyy\n\nzzz"[off..].starts_with(line));
    }
}

#[test]
fn extension_of_lowercases_and_handles_dotfiles() {
    assert_eq!(extension_of("/a/B.TXT"), "txt");
    assert_eq!(extension_of("/a/.bashrc"), "");
    assert_eq!(extension_of("/a/archive.tar.gz"), "gz");
    assert_eq!(extension_of("/a/noext"), "");
    assert_eq!(extension_of("/a/dir.d/"), "d");
}

#[test]
fn image_formats_by_extension() {
    assert_eq!(image_format_for_path("a.PNG"), Some(ImageFormat::Png));
    assert_eq!(image_format_for_path("a.jpeg"), Some(ImageFormat::Jpeg));
    assert_eq!(image_format_for_path("a.tif"), Some(ImageFormat::Tiff));
    assert_eq!(image_format_for_path("a.txt"), None);
}

#[test]
fn preview_plan_classifies_by_metadata_and_extension() {
    let file = |len| Some(FileFacts { is_file: true, len });
    assert_eq!(preview_plan("a.txt", None, 100), PreviewPlan::Unsupported);
    assert_eq!(
        preview_plan("dir", Some(FileFacts { is_file: false, len: 0 }), 100),
        PreviewPlan::Unsupported
    );
    assert_eq!(preview_plan("big.txt", file(101), 100), PreviewPlan::TooLarge);
    assert_eq!(preview_plan("pic.png", file(100), 100), PreviewPlan::ImagePath);
    assert_eq!(preview_plan("page.html", file(1), 100), PreviewPlan::HtmlFile);
    assert_eq!(preview_plan("note.txt", file(1), 100), PreviewPlan::ReadText);
}

#[test]
fn text_outcome_requires_utf8() {
    match text_outcome("note.txt", b"hello\nworld".to_vec()) {
        PreviewOutcome::Text { body, language } => {
            assert_eq!(body, "hello\nworld");
            assert_eq!(language, "plain");
        }
        other => panic!("expected Text, got {other:?}"),
    }
    assert!(matches!(
        text_outcome("blob.bin", vec![0xff, 0xfe, 0xfd]),
        PreviewOutcome::Unsupported
    ));
}

#[test]
fn archive_members_classify_like_files() {
    assert!(matches!(
        archive_member_outcome("a.txt", vec![0; 11], 10),
        PreviewOutcome::TooLarge
    ));
    match archive_member_outcome("pic.gif", vec![1, 2, 3], 10) {
        PreviewOutcome::ImageBytes { format, bytes } => {
            assert_eq!(format, ImageFormat::Gif);
            assert_eq!(bytes, vec![1, 2, 3]);
        }
        other => panic!("expected ImageBytes, got {other:?}"),
    }
    match archive_member_outcome("page.htm", b"<p>x</p>".to_vec(), 100) {
        PreviewOutcome::HtmlBody { html } => assert_eq!(html, "<p>x</p>"),
        other => panic!("expected HtmlBody, got {other:?}"),
    }
    match archive_member_outcome("lib.rs", b"fn f() {}".to_vec(), 100) {
        PreviewOutcome::Text { language, .. } => assert_eq!(language, "rust"),
        other => panic!("expected Text, got {other:?}"),
    }
    assert!(matches!(
        archive_member_outcome("x.bin", vec![0xff], 100),
        PreviewOutcome::Unsupported
    ));
}

#[test]
fn relative_paths_resolve_against_the_working_directory() {
    let url = path_to_file_url("page.html", Ok("/srv/www")).unwrap();
    assert_eq!(url, "file:///srv/www/page.html");
    assert_eq!(
        path_to_file_url("page.html", Err("no cwd")),
        Err("no cwd".to_string())
    );
}
