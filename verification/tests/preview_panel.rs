use chronos_fm::preview::{ImageFormat, PreviewOutcome};
use chronos_fm::preview_panel::{PreviewPanel, PreviewStep};

#[test]
fn begin_clears_the_previous_preview() {
    let mut panel = PreviewPanel::new();
    panel.begin("/tmp/a.txt".to_string());
    panel.complete(
        "/tmp/a.txt".to_string(),
        PreviewOutcome::Text { body: "hello".to_string(), language: "plain".to_string() },
    );
    assert_eq!(panel.text.as_deref(), Some("hello"));
    panel.begin("/tmp/b.png".to_string());
    assert_eq!(panel.path.as_deref(), Some("/tmp/b.png"));
    assert!(panel.text.is_none());
    assert!(panel.editor_language.is_none());
    assert!(panel.message.is_none());
    assert!(!panel.html_active);
}

#[test]
fn superseded_outcome_is_ignored() {
    let mut panel = PreviewPanel::new();
    panel.begin("/tmp/first.txt".to_string());
    panel.begin("/tmp/second.txt".to_string());
    let step = panel.complete(
        "/tmp/first.txt".to_string(),
        PreviewOutcome::Text { body: "stale".to_string(), language: "plain".to_string() },
    );
    assert!(matches!(step, PreviewStep::Ignored));
    assert!(panel.text.is_none());
    assert_eq!(panel.path.as_deref(), Some("/tmp/second.txt"));
    assert!(panel.is_current("/tmp/second.txt"));
    assert!(!panel.is_current("/tmp/first.txt"));
}

#[test]
fn outcome_without_request_is_ignored() {
    let mut panel = PreviewPanel::new();
    let step = panel.complete("/tmp/x".to_string(), PreviewOutcome::TooLarge);
    assert!(matches!(step, PreviewStep::Ignored));
    assert!(panel.message.is_none());
    assert!(panel.path.is_none());
}

#[test]
fn messages_for_large_and_unsupported_files() {
    let mut panel = PreviewPanel::new();
    panel.begin("/tmp/big.bin".to_string());
    assert!(matches!(
        panel.complete("/tmp/big.bin".to_string(), PreviewOutcome::TooLarge),
        PreviewStep::Shown
    ));
    assert_eq!(panel.message.as_deref(), Some("(File too large to preview)"));
    panel.begin("/tmp/x.bin".to_string());
    panel.complete("/tmp/x.bin".to_string(), PreviewOutcome::Unsupported);
    assert_eq!(panel.message.as_deref(), Some("(Preview not available for this file)"));
}

#[test]
fn images_replace_each_other() {
    let mut panel = PreviewPanel::new();
    panel.begin("/tmp/a.png".to_string());
    panel.complete("/tmp/a.png".to_string(), PreviewOutcome::ImagePath("/tmp/a.png".to_string()));
    assert_eq!(panel.image_path.as_deref(), Some("/tmp/a.png"));
    assert!(panel.image_data.is_none());
    panel.begin("/tmp/z.zip/b.gif".to_string());
    panel.complete(
        "/tmp/z.zip/b.gif".to_string(),
        PreviewOutcome::ImageBytes { format: ImageFormat::Gif, bytes: vec![1, 2, 3] },
    );
    assert!(panel.image_path.is_none());
    assert_eq!(panel.image_data, Some((ImageFormat::Gif, vec![1, 2, 3])));
}

#[test]
fn html_is_handed_to_the_web_view() {
    let mut panel = PreviewPanel::new();
    panel.begin("/tmp/index.html".to_string());
    let step = panel.complete(
        "/tmp/index.html".to_string(),
        PreviewOutcome::HtmlFile { path: "/tmp/index.html".to_string() },
    );
    match step {
        PreviewStep::LoadHtmlFile(p) => assert_eq!(p, "/tmp/index.html"),
        _ => panic!("expected the web view to load the file"),
    }
    panel.html_loaded();
    assert!(panel.html_active);
    assert!(panel.message.is_none());
}

#[test]
fn html_file_falls_back_to_source() {
    let mut panel = PreviewPanel::new();
    panel.begin("/tmp/index.html".to_string());
    panel.html_file_view_failed(
        "HTML webview failed to start: no display",
        "/tmp/index.html".to_string(),
        Some("<p>hi</p>".to_string()),
    );
    assert!(!panel.html_active);
    assert_eq!(
        panel.message.as_deref(),
        Some(
            "HTML webview failed to start: no display. Showing source. \
             (WebKit/wry child webview is required for rendered HTML.)"
        )
    );
    assert_eq!(panel.text.as_deref(), Some("<p>hi</p>"));
    assert_eq!(panel.editor_language.as_deref(), Some("html"));
}

#[test]
fn html_body_falls_back_to_source_under_page_name() {
    let mut panel = PreviewPanel::new();
    panel.html_body_view_failed("no view".to_string(), "<b>x</b>".to_string());
    assert_eq!(panel.path.as_deref(), Some("page.html"));
    assert_eq!(panel.text.as_deref(), Some("<b>x</b>"));
    assert_eq!(panel.message.as_deref(), Some("no view"));
}

#[test]
fn url_failure_keeps_web_view_hidden() {
    let mut panel = PreviewPanel::new();
    panel.begin("/tmp/a.html".to_string());
    panel.html_url_failed("bad path".to_string());
    assert_eq!(panel.message.as_deref(), Some("bad path"));
    assert!(!panel.html_active);
}

#[test]
fn scroll_offset_finds_line_starts() {
    let mut panel = PreviewPanel::new();
    assert_eq!(panel.scroll_offset(1), None);
    panel.show_text("/tmp/a.txt".to_string(), "ab\r\ncd\nef".to_string(), "plain".to_string());
    assert_eq!(panel.scroll_offset(0), Some(0));
    assert_eq!(panel.scroll_offset(1), Some(0));
    assert_eq!(panel.scroll_offset(2), Some(4));
    assert_eq!(panel.scroll_offset(3), Some(7));
    assert_eq!(panel.scroll_offset(4), None);
}
