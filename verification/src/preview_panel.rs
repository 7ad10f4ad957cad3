//! What the preview pane shows, and how a read that finishes after the user
//! has moved on to another file is told apart from the current one.
//!
//! A preview is requested for a path, the file is read elsewhere, and the
//! outcome is handed back with the path it was read for. Only the outcome of
//! the latest request is shown; an HTML outcome is handed on to the web view,
//! which reports back whether it could show the page.

use vstd::prelude::*;
use crate::preview::{line_start_offset, line_starts, ImageFormat, PreviewOutcome};
use crate::text::{byte_offset, push_str, str_eq};

verus! {

/// The contents of the preview pane.
#[derive(Debug, Clone)]
pub struct PreviewPanel {
    /// The path last requested, or whose preview is shown.
    pub path: Option<String>,
    /// The text shown in the editor, if any.
    pub text: Option<String>,
    /// The language of the editor showing `text`, when an editor is shown.
    pub editor_language: Option<String>,
    /// An image shown from its path.
    pub image_path: Option<String>,
    /// An image shown from bytes held in memory.
    pub image_data: Option<(ImageFormat, Vec<u8>)>,
    /// Whether the web view shows an HTML page.
    pub html_active: bool,
    /// A message shown in place of (or above) a preview.
    pub message: Option<String>,
}

/// Whether `path` is the path the panel last requested.
pub open spec fn requested(current: Option<String>, path: Seq<char>) -> bool {
    current matches Some(c) && c@ == path
}

/// What the caller does after an outcome was handed to the panel.
#[derive(Debug)]
pub enum PreviewStep {
    /// The outcome belongs to a request the user has since replaced.
    Ignored,
    /// The outcome is shown.
    Shown,
    /// Load this HTML file into the web view.
    LoadHtmlFile(String),
    /// Load this HTML document into the web view.
    LoadHtmlBody(String),
}

/// The message shown for a file over the size limit.
pub open spec fn too_large_message() -> Seq<char> {
    "(File too large to preview)"@
}

/// The message shown for a file the preview cannot show.
pub open spec fn unsupported_message() -> Seq<char> {
    "(Preview not available for this file)"@
}

/// The message shown when the web view could not start and the HTML
/// source is shown instead.
pub open spec fn source_fallback_message(error: Seq<char>) -> Seq<char> {
    error + ". Showing source. (WebKit/wry child webview is required for rendered HTML.)"@
}

/// The text and editor are as they were.
pub open spec fn keeps_text(a: PreviewPanel, b: PreviewPanel) -> bool {
    b.text == a.text && b.editor_language == a.editor_language
}

/// The images are as they were.
pub open spec fn keeps_images(a: PreviewPanel, b: PreviewPanel) -> bool {
    b.image_path == a.image_path && b.image_data == a.image_data
}

/// How an accepted outcome changes the panel from `a` to `b`, and what the
/// caller is told to do next.
pub open spec fn completed(
    a: PreviewPanel,
    b: PreviewPanel,
    outcome: PreviewOutcome,
    r: PreviewStep,
) -> bool {
    match outcome {
        PreviewOutcome::TooLarge => r is Shown && !b.html_active && (b.message matches Some(m)
            && m@ == too_large_message()) && keeps_text(a, b) && keeps_images(a, b),
        PreviewOutcome::Unsupported => r is Shown && !b.html_active && (b.message matches Some(m)
            && m@ == unsupported_message()) && keeps_text(a, b) && keeps_images(a, b),
        PreviewOutcome::ImagePath(p) => r is Shown && !b.html_active && b.image_path == Some(p)
            && b.image_data is None && keeps_text(a, b) && b.message == a.message,
        PreviewOutcome::ImageBytes { format, bytes } => r is Shown && !b.html_active
            && b.image_path is None && b.image_data == Some((format, bytes)) && keeps_text(a, b)
            && b.message == a.message,
        PreviewOutcome::Text { body, language } => r is Shown && !b.html_active && b.text == Some(
            body,
        ) && b.editor_language == Some(language) && keeps_images(a, b) && b.message == a.message,
        PreviewOutcome::HtmlFile { path: f } => (r matches PreviewStep::LoadHtmlFile(g) && g == f)
            && b.html_active == a.html_active && keeps_text(a, b) && keeps_images(a, b)
            && b.message == a.message,
        PreviewOutcome::HtmlBody { html } => (r matches PreviewStep::LoadHtmlBody(g) && g == html)
            && b.html_active == a.html_active && keeps_text(a, b) && keeps_images(a, b)
            && b.message == a.message,
    }
}

impl PreviewPanel {
    /// An empty pane.
    pub fn new() -> (r: PreviewPanel)
        ensures
            r.path is None,
            r.text is None,
            r.editor_language is None,
            r.image_path is None,
            r.image_data is None,
            !r.html_active,
            r.message is None,
    {
        PreviewPanel {
            path: None,
            text: None,
            editor_language: None,
            image_path: None,
            image_data: None,
            html_active: false,
            message: None,
        }
    }

    /// Requests a preview of `path`: the previous preview is cleared and
    /// the web view hidden until the outcome arrives.
    pub fn begin(&mut self, path: String)
        ensures
            final(self).path == Some(path),
            final(self).text is None,
            final(self).editor_language is None,
            final(self).image_path is None,
            final(self).image_data is None,
            !final(self).html_active,
            final(self).message is None,
    {
        self.editor_language = None;
        self.image_path = None;
        self.image_data = None;
        self.message = None;
        self.text = None;
        self.html_active = false;
        self.path = Some(path);
    }

    /// Whether `path` is the path last requested.
    pub fn is_current(&self, path: &str) -> (r: bool)
        ensures
            r == requested(self.path, path@),
    {
        match &self.path {
            Some(c) => str_eq(c.as_str(), path),
            None => false,
        }
    }

    /// Shows `body` as text in `language` for `path`, hiding the web view.
    pub fn show_text(&mut self, path: String, body: String, language: String)
        ensures
            final(self).path == Some(path),
            final(self).text == Some(body),
            final(self).editor_language == Some(language),
            !final(self).html_active,
            final(self).image_path == old(self).image_path,
            final(self).image_data == old(self).image_data,
            final(self).message == old(self).message,
    {
        self.html_active = false;
        self.path = Some(path);
        self.text = Some(body);
        self.editor_language = Some(language);
    }

    /// Hands back the outcome of reading `path`. An outcome for any path
    /// but the one last requested changes nothing and is ignored; otherwise
    /// it is shown, or, for an HTML document, handed on to the web view.
    pub fn complete(&mut self, path: String, outcome: PreviewOutcome) -> (r: PreviewStep)
        ensures
            !requested(old(self).path, path@) ==> (r is Ignored && *final(self) == *old(self)),
            requested(old(self).path, path@) ==> final(self).path == Some(path)
                && completed(*old(self), *final(self), outcome, r),
    {
        if !self.is_current(path.as_str()) {
            return PreviewStep::Ignored;
        }
        match outcome {
            PreviewOutcome::TooLarge => {
                self.html_active = false;
                self.path = Some(path);
                self.message = Some("(File too large to preview)".to_string());
                PreviewStep::Shown
            },
            PreviewOutcome::ImagePath(image_path) => {
                self.html_active = false;
                self.path = Some(path);
                self.image_path = Some(image_path);
                self.image_data = None;
                PreviewStep::Shown
            },
            PreviewOutcome::ImageBytes { format, bytes } => {
                self.html_active = false;
                self.path = Some(path);
                self.image_path = None;
                self.image_data = Some((format, bytes));
                PreviewStep::Shown
            },
            PreviewOutcome::HtmlFile { path: file_path } => {
                self.path = Some(path);
                PreviewStep::LoadHtmlFile(file_path)
            },
            PreviewOutcome::HtmlBody { html } => {
                self.path = Some(path);
                PreviewStep::LoadHtmlBody(html)
            },
            PreviewOutcome::Unsupported => {
                self.html_active = false;
                self.path = Some(path);
                self.message = Some("(Preview not available for this file)".to_string());
                PreviewStep::Shown
            },
            PreviewOutcome::Text { body, language } => {
                self.show_text(path, body, language);
                PreviewStep::Shown
            },
        }
    }

    /// The web view shows the page: every other kind of preview is cleared.
    pub fn html_loaded(&mut self)
        ensures
            final(self).html_active,
            final(self).editor_language is None,
            final(self).image_path is None,
            final(self).image_data is None,
            final(self).message is None,
            final(self).path == old(self).path,
            final(self).text == old(self).text,
    {
        self.html_active = true;
        self.editor_language = None;
        self.image_path = None;
        self.image_data = None;
        self.message = None;
    }

    /// The HTML file could not be turned into a URL: the message says why
    /// and the web view stays hidden.
    pub fn html_url_failed(&mut self, error: String)
        ensures
            final(self).message == Some(error),
            !final(self).html_active,
            final(self).path == old(self).path,
            final(self).text == old(self).text,
            final(self).editor_language == old(self).editor_language,
            final(self).image_path == old(self).image_path,
            final(self).image_data == old(self).image_data,
    {
        self.message = Some(error);
        self.html_active = false;
    }

    /// The web view could not start for the HTML file `file`: its source,
    /// when it could be read, is shown as HTML text under a message that
    /// says so.
    pub fn html_file_view_failed(&mut self, error: &str, file: String, source: Option<String>)
        ensures
            !final(self).html_active,
            final(self).message matches Some(m) && m@ == source_fallback_message(error@),
            source is None ==> final(self).path == old(self).path && final(self).text == old(
                self,
            ).text && final(self).editor_language == old(self).editor_language,
            source matches Some(body) ==> final(self).path == Some(file) && final(self).text
                == Some(body) && (final(self).editor_language matches Some(l) && l@ == "html"@),
            final(self).image_path == old(self).image_path,
            final(self).image_data == old(self).image_data,
    {
        self.html_active = false;
        let mut text = String::new();
        push_str(&mut text, error);
        push_str(
            &mut text,
            ". Showing source. (WebKit/wry child webview is required for rendered HTML.)",
        );
        self.message = Some(text);
        if let Some(body) = source {
            self.show_text(file, body, "html".to_string());
        }
    }

    /// The web view could not start for an HTML document held in memory:
    /// the message says why, and the document is shown as HTML text under
    /// the requested path (`page.html` when there is none).
    pub fn html_body_view_failed(&mut self, error: String, html: String)
        ensures
            !final(self).html_active,
            final(self).message == Some(error),
            final(self).text == Some(html),
            final(self).editor_language matches Some(l) && l@ == "html"@,
            match old(self).path {
                Some(p) => final(self).path == Some(p),
                None => final(self).path matches Some(p) && p@ == "page.html"@,
            },
            final(self).image_path == old(self).image_path,
            final(self).image_data == old(self).image_data,
    {
        self.html_active = false;
        self.message = Some(error);
        let path = match &self.path {
            Some(p) => p.clone(),
            None => "page.html".to_string(),
        };
        self.show_text(path, html, "html".to_string());
    }

    /// The byte offset to scroll the editor to for 1-based line `line`
    /// (line 0 counts as the first): where that line of the shown text
    /// starts, or `None` when no text is shown or it has fewer lines.
    pub fn scroll_offset(&self, line: usize) -> (r: Option<usize>)
        ensures
            match self.text {
                None => r is None,
                Some(t) => {
                    let target: int = if line == 0 {
                        0
                    } else {
                        line - 1
                    };
                    match r {
                        Some(o) => target < line_starts(t@).len() && o == byte_offset(
                            t@,
                            line_starts(t@)[target],
                        ),
                        None => target >= line_starts(t@).len(),
                    }
                },
            },
    {
        match &self.text {
            None => None,
            Some(t) => {
                let target = if line == 0 {
                    0
                } else {
                    line - 1
                };
                line_start_offset(t.as_str(), target)
            },
        }
    }
}

} // verus!
