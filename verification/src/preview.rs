//! How the preview pane treats a file: its language for highlighting,
//! whether it is shown as an image or a web page, what a read of it turns
//! into, and where a given line of its text starts.

use vstd::prelude::*;
use vstd::utf8::{decode_utf8, valid_utf8};
use crate::paths::{extension, path_extension};
use crate::config::{join_path, push_component};
use crate::text::{
    byte_offset, byte_offsets, chars_of, lowercase, push_str, str_eq, string_from_chars,
    to_lowercase,
};

verus! {

/// An image encoding the preview can decode from bytes.
#[derive(Clone, Copy, PartialEq, Eq, Debug, Structural)]
pub enum ImageFormat {
    Png,
    Jpeg,
    Gif,
    Bmp,
    Svg,
    Webp,
    Ico,
    Tiff,
}

/// The lowercase extension of a path, empty when it has none.
pub open spec fn ext_of(path: Seq<char>) -> Seq<char> {
    match extension(path) {
        Some(e) => lowercase(e),
        None => Seq::empty(),
    }
}

/// The lowercase extension of `path`, or the empty string when it has none.
pub fn extension_of(path: &str) -> (r: String)
    ensures
        r@ == ext_of(path@),
{
    match path_extension(path) {
        Some(e) => {
            let s = string_from_chars(e.as_slice());
            to_lowercase(s.as_str())
        },
        None => String::new(),
    }
}

/// The highlighting language for a lowercase extension.
pub open spec fn language_for(e: Seq<char>) -> Seq<char> {
    if e == "rs"@ {
        "rust"@
    } else if e == "md"@ || e == "markdown"@ {
        "markdown"@
    } else if e == "json"@ {
        "json"@
    } else if e == "js"@ || e == "mjs"@ || e == "cjs"@ {
        "javascript"@
    } else if e == "ts"@ || e == "tsx"@ {
        "typescript"@
    } else if e == "html"@ || e == "htm"@ || e == "xhtml"@ {
        "html"@
    } else if e == "go"@ {
        "go"@
    } else if e == "zig"@ {
        "zig"@
    } else if e == "toml"@ {
        "toml"@
    } else if e == "yaml"@ || e == "yml"@ {
        "yaml"@
    } else if e == "css"@ || e == "scss"@ {
        "css"@
    } else if e == "c"@ || e == "h"@ {
        "c"@
    } else if e == "cpp"@ || e == "cc"@ || e == "cxx"@ || e == "hpp"@ {
        "cpp"@
    } else if e == "xml"@ || e == "svg"@ {
        "xml"@
    } else if e == "py"@ {
        "python"@
    } else if e == "sh"@ || e == "bash"@ || e == "zsh"@ {
        "shell"@
    } else {
        "plain"@
    }
}

fn language_name(e: &str) -> (r: &'static str)
    ensures
        r@ == language_for(e@),
{
    if str_eq(e, "rs") {
        "rust"
    } else if str_eq(e, "md") || str_eq(e, "markdown") {
        "markdown"
    } else if str_eq(e, "json") {
        "json"
    } else if str_eq(e, "js") || str_eq(e, "mjs") || str_eq(e, "cjs") {
        "javascript"
    } else if str_eq(e, "ts") || str_eq(e, "tsx") {
        "typescript"
    } else if str_eq(e, "html") || str_eq(e, "htm") || str_eq(e, "xhtml") {
        "html"
    } else if str_eq(e, "go") {
        "go"
    } else if str_eq(e, "zig") {
        "zig"
    } else if str_eq(e, "toml") {
        "toml"
    } else if str_eq(e, "yaml") || str_eq(e, "yml") {
        "yaml"
    } else if str_eq(e, "css") || str_eq(e, "scss") {
        "css"
    } else if str_eq(e, "c") || str_eq(e, "h") {
        "c"
    } else if str_eq(e, "cpp") || str_eq(e, "cc") || str_eq(e, "cxx") || str_eq(e, "hpp") {
        "cpp"
    } else if str_eq(e, "xml") || str_eq(e, "svg") {
        "xml"
    } else if str_eq(e, "py") {
        "python"
    } else if str_eq(e, "sh") || str_eq(e, "bash") || str_eq(e, "zsh") {
        "shell"
    } else {
        "plain"
    }
}

/// The highlighting language of a file, by its extension in any case;
/// `"plain"` when it is unknown or missing.
pub fn detect_language(path: &str) -> (r: String)
    ensures
        r@ == language_for(ext_of(path@)),
{
    let e = extension_of(path);
    language_name(e.as_str()).to_string()
}

/// Whether a lowercase extension is that of an HTML document.
pub open spec fn html_ext(e: Seq<char>) -> bool {
    e == "html"@ || e == "htm"@ || e == "xhtml"@
}

/// Whether `path` names an HTML document (by extension, in any case).
pub fn is_html_path(path: &str) -> (r: bool)
    ensures
        r == html_ext(ext_of(path@)),
{
    let e = extension_of(path);
    let e = e.as_str();
    str_eq(e, "html") || str_eq(e, "htm") || str_eq(e, "xhtml")
}

/// Whether a lowercase extension is that of a raster or vector image.
pub open spec fn image_ext(e: Seq<char>) -> bool {
    ||| e == "png"@
    ||| e == "jpg"@
    ||| e == "jpeg"@
    ||| e == "gif"@
    ||| e == "bmp"@
    ||| e == "svg"@
    ||| e == "webp"@
    ||| e == "ico"@
    ||| e == "tif"@
    ||| e == "tiff"@
}

/// Whether `path` names an image the preview shows as a picture.
pub fn is_image_path(path: &str) -> (r: bool)
    ensures
        r == image_ext(ext_of(path@)),
{
    let e = extension_of(path);
    let e = e.as_str();
    str_eq(e, "png") || str_eq(e, "jpg") || str_eq(e, "jpeg") || str_eq(e, "gif") || str_eq(
        e,
        "bmp",
    ) || str_eq(e, "svg") || str_eq(e, "webp") || str_eq(e, "ico") || str_eq(e, "tif")
        || str_eq(e, "tiff")
}

/// The image format of a lowercase extension.
pub open spec fn format_for(e: Seq<char>) -> Option<ImageFormat> {
    if e == "png"@ {
        Some(ImageFormat::Png)
    } else if e == "jpg"@ || e == "jpeg"@ {
        Some(ImageFormat::Jpeg)
    } else if e == "gif"@ {
        Some(ImageFormat::Gif)
    } else if e == "bmp"@ {
        Some(ImageFormat::Bmp)
    } else if e == "svg"@ {
        Some(ImageFormat::Svg)
    } else if e == "webp"@ {
        Some(ImageFormat::Webp)
    } else if e == "ico"@ {
        Some(ImageFormat::Ico)
    } else if e == "tif"@ || e == "tiff"@ {
        Some(ImageFormat::Tiff)
    } else {
        None
    }
}

/// The image format of `path`, by extension, if it is one the preview
/// decodes.
pub fn image_format_for_path(path: &str) -> (r: Option<ImageFormat>)
    ensures
        r == format_for(ext_of(path@)),
{
    let e = extension_of(path);
    let e = e.as_str();
    if str_eq(e, "png") {
        Some(ImageFormat::Png)
    } else if str_eq(e, "jpg") || str_eq(e, "jpeg") {
        Some(ImageFormat::Jpeg)
    } else if str_eq(e, "gif") {
        Some(ImageFormat::Gif)
    } else if str_eq(e, "bmp") {
        Some(ImageFormat::Bmp)
    } else if str_eq(e, "svg") {
        Some(ImageFormat::Svg)
    } else if str_eq(e, "webp") {
        Some(ImageFormat::Webp)
    } else if str_eq(e, "ico") {
        Some(ImageFormat::Ico)
    } else if str_eq(e, "tif") || str_eq(e, "tiff") {
        Some(ImageFormat::Tiff)
    } else {
        None
    }
}

/// The character index at which each line of `s` starts, lines ending at
/// `\n` (a `\r` before it belongs to the line ending); a final line
/// without `\n` counts, an empty tail after the last `\n` does not.
pub open spec fn line_starts(s: Seq<char>) -> Seq<int>
    decreases s.len(),
{
    if s.len() == 0 {
        Seq::empty()
    } else {
        let p = s.drop_last();
        if p.len() == 0 {
            seq![0]
        } else if p.last() == '\n' {
            line_starts(p).push(p.len() as int)
        } else {
            line_starts(p)
        }
    }
}

/// The byte offset at which line `target_line` (0-based) of `text` starts,
/// or `None` when the text has fewer lines.
pub fn line_start_offset(text: &str, target_line: usize) -> (r: Option<usize>)
    ensures
        match r {
            Some(o) => target_line < line_starts(text@).len() && o == byte_offset(
                text@,
                line_starts(text@)[target_line as int],
            ),
            None => target_line >= line_starts(text@).len(),
        },
{
    let cs = chars_of(text);
    let offs = byte_offsets(text);
    let mut seen: usize = 0;
    let mut k: usize = 0;
    proof {
        assert(cs@.take(0) =~= Seq::<char>::empty());
    }
    while k < cs.len()
        invariant
            cs@ == text@,
            offs@.len() == text@.len() + 1,
            forall|j: int| 0 <= j <= text@.len() ==> #[trigger] offs@[j] == byte_offset(text@, j),
            k <= cs@.len(),
            seen == line_starts(cs@.take(k as int)).len(),
            seen <= target_line,
            forall|j: int| 0 <= j < seen ==> line_starts(cs@.take(k as int))[j]
                == #[trigger] line_starts(text@)[j],
            seen <= line_starts(text@).len(),
        decreases cs@.len() - k,
    {
        let is_start = k == 0 || cs[k - 1] == '\n';
        let ghost before = cs@.take(k as int);
        let ghost after = cs@.take(k + 1);
        proof {
            assert(after.drop_last() =~= before);
            lemma_line_starts_prefix(cs@, k + 1);
        }
        if is_start {
            proof {
                assert(line_starts(after) == line_starts(before).push(k as int));
                assert(line_starts(after)[seen as int] == k);
            }
            if seen == target_line {
                return Some(offs[k]);
            }
            seen = seen + 1;
        } else {
            proof {
                assert(line_starts(after) == line_starts(before));
            }
        }
        k = k + 1;
    }
    proof {
        assert(cs@.take(cs@.len() as int) =~= text@);
    }
    None
}

/// The line starts of a prefix of `s` are the first line starts of `s`.
proof fn lemma_line_starts_prefix(s: Seq<char>, n: int)
    requires
        0 <= n <= s.len(),
    ensures
        line_starts(s.take(n)).len() <= line_starts(s).len(),
        forall|j: int|
            0 <= j < line_starts(s.take(n)).len() ==> #[trigger] line_starts(s.take(n))[j]
                == line_starts(s)[j],
    decreases s.len() - n,
{
    if n < s.len() {
        lemma_line_starts_prefix(s, n + 1);
        let t = s.take(n + 1);
        assert(t.drop_last() =~= s.take(n));
        let a = line_starts(s.take(n));
        let b = line_starts(t);
        assert(b.len() >= a.len());
        assert forall|j: int| 0 <= j < a.len() implies #[trigger] a[j] == line_starts(s)[j] by {
            assert(b[j] == a[j]);
            assert(b[j] == line_starts(s)[j]);
        }
    } else {
        assert(s.take(n) =~= s);
    }
}

/// What a file turns into in the preview pane.
#[derive(Debug)]
pub enum PreviewOutcome {
    /// Larger than the preview limit.
    TooLarge,
    /// UTF-8 text, with the language to highlight it as.
    Text { body: String, language: String },
    /// An image on disk, loaded by path.
    ImagePath(String),
    /// An image held in memory (an archive member).
    ImageBytes { format: ImageFormat, bytes: Vec<u8> },
    /// An HTML document on disk, shown in the web view.
    HtmlFile { path: String },
    /// An HTML document held in memory (an archive member).
    HtmlBody { html: String },
    /// Nothing the preview can show.
    Unsupported,
}

/// What the file system reports of a path before its contents are read.
#[derive(Clone, Copy, Debug)]
pub struct FileFacts {
    /// Whether the path is a regular file.
    pub is_file: bool,
    /// Its size in bytes.
    pub len: u64,
}

/// The first step of previewing a file on disk, decided from its metadata.
#[derive(Clone, Copy, PartialEq, Eq, Debug, Structural)]
pub enum PreviewPlan {
    /// Not previewable: no metadata, or not a regular file.
    Unsupported,
    /// Over the size limit.
    TooLarge,
    /// Show the image from its path.
    ImagePath,
    /// Show the HTML document from its path.
    HtmlFile,
    /// Read the contents and show them as text if they are UTF-8.
    ReadText,
}

/// The plan for previewing `path` on disk given its metadata (`None` when
/// the metadata could not be read) and the size limit: unreadable or
/// non-file paths are unsupported, oversized files too large; images and
/// HTML documents are shown from their path; anything else is read as text.
pub fn preview_plan(path: &str, facts: Option<FileFacts>, limit: u64) -> (r: PreviewPlan)
    ensures
        r == match facts {
            None => PreviewPlan::Unsupported,
            Some(f) => if !f.is_file {
                PreviewPlan::Unsupported
            } else if f.len > limit {
                PreviewPlan::TooLarge
            } else if image_ext(ext_of(path@)) {
                PreviewPlan::ImagePath
            } else if html_ext(ext_of(path@)) {
                PreviewPlan::HtmlFile
            } else {
                PreviewPlan::ReadText
            },
        },
{
    let f = match facts {
        None => return PreviewPlan::Unsupported,
        Some(f) => f,
    };
    if !f.is_file {
        return PreviewPlan::Unsupported;
    }
    if f.len > limit {
        return PreviewPlan::TooLarge;
    }
    if is_image_path(path) {
        return PreviewPlan::ImagePath;
    }
    if is_html_path(path) {
        return PreviewPlan::HtmlFile;
    }
    PreviewPlan::ReadText
}

/// `String::from_utf8`: succeeds exactly on valid UTF-8, with the decoded
/// characters.
#[verifier::external_body]
fn utf8_string(bytes: Vec<u8>) -> (r: Result<String, Vec<u8>>)
    ensures
        r is Ok <==> valid_utf8(bytes@),
        r matches Ok(s) ==> s@ == decode_utf8(bytes@),
{
    String::from_utf8(bytes).map_err(|e| e.into_bytes())
}

/// The outcome of a file whose contents were read: text in its language
/// when the bytes are UTF-8, unsupported otherwise.
pub fn text_outcome(path: &str, bytes: Vec<u8>) -> (r: PreviewOutcome)
    ensures
        valid_utf8(bytes@) ==> (r matches PreviewOutcome::Text { body, language } && body@
            == decode_utf8(bytes@) && language@ == language_for(ext_of(path@))),
        !valid_utf8(bytes@) ==> r is Unsupported,
{
    match utf8_string(bytes) {
        Ok(body) => PreviewOutcome::Text { language: detect_language(path), body },
        Err(_) => PreviewOutcome::Unsupported,
    }
}

/// The outcome of an archive member read into memory: too large over the
/// limit; a decodable image as image bytes; otherwise UTF-8 contents as an
/// HTML body or as text, and anything else unsupported.
pub fn archive_member_outcome(path: &str, bytes: Vec<u8>, limit: u64) -> (r: PreviewOutcome)
    ensures
        bytes@.len() > limit ==> r is TooLarge,
        bytes@.len() <= limit && image_ext(ext_of(path@)) && format_for(ext_of(path@)) is Some
            ==> (r matches PreviewOutcome::ImageBytes { format, bytes: b } && Some(format)
            == format_for(ext_of(path@)) && b@ == bytes@),
        bytes@.len() <= limit && !(image_ext(ext_of(path@)) && format_for(ext_of(path@)) is Some)
            ==> {
            &&& !valid_utf8(bytes@) ==> r is Unsupported
            &&& valid_utf8(bytes@) && html_ext(ext_of(path@)) ==> (r matches PreviewOutcome::HtmlBody {
                html,
            } && html@ == decode_utf8(bytes@))
            &&& valid_utf8(bytes@) && !html_ext(ext_of(path@)) ==> (r matches PreviewOutcome::Text {
                body,
                language,
            } && body@ == decode_utf8(bytes@) && language@ == language_for(ext_of(path@)))
        },
{
    if bytes.len() as u64 > limit {
        return PreviewOutcome::TooLarge;
    }
    if is_image_path(path) {
        if let Some(format) = image_format_for_path(path) {
            return PreviewOutcome::ImageBytes { format, bytes };
        }
    }
    match utf8_string(bytes) {
        Ok(html) if is_html_path(path) => PreviewOutcome::HtmlBody { html },
        Ok(body) => PreviewOutcome::Text { language: detect_language(path), body },
        Err(_) => PreviewOutcome::Unsupported,
    }
}

/// What `url::Url::from_file_path` makes of a path, serialised; `None`
/// when it refuses the path.
pub uninterp spec fn file_url(path: Seq<char>) -> Option<Seq<char>>;

/// `url::Url::from_file_path` followed by `to_string`. The result is named
/// by [`file_url`]; on Unix a path is accepted exactly when it is absolute
/// (begins with `/`), and an accepted path gives a `file://` URL.
#[verifier::external_body]
fn file_url_of(path: &str) -> (r: Option<String>)
    ensures
        r is Some <==> is_absolute_path(path@),
        match r {
            Some(u) => file_url(path@) == Some(u@) && u@.take(7) == "file://"@,
            None => file_url(path@) is None,
        },
{
    url::Url::from_file_path(std::path::Path::new(path)).ok().map(|u| u.to_string())
}

/// Whether a path is absolute under the Unix rule: it starts at the root.
pub open spec fn is_absolute_path(p: Seq<char>) -> bool {
    p.len() > 0 && p[0] == '/'
}

/// The absolute form of `path`: itself when absolute, else joined onto
/// the current directory.
pub open spec fn absolute_form(path: Seq<char>, cwd: Seq<char>) -> Seq<char> {
    if is_absolute_path(path) {
        path
    } else {
        join_path(cwd, path)
    }
}

/// The `file://` URL the HTML preview loads for `path`. A relative path is
/// resolved against `current_dir` (the process's working directory, or the
/// error reading it, which is then returned). Fails with
/// `cannot form file URL for <path>` when the URL library refuses the
/// absolute path.
pub fn path_to_file_url(path: &str, current_dir: Result<&str, &str>) -> (r: Result<String, String>)
    ensures
        !is_absolute_path(path@) && current_dir is Err ==> (r matches Err(e) && e@
            == current_dir->Err_0@),
        is_absolute_path(path@) || current_dir is Ok ==> {
            let abs = absolute_form(
                path@,
                match current_dir {
                    Ok(d) => d@,
                    Err(_) => Seq::empty(),
                },
            );
            match file_url(abs) {
                Some(u) => r matches Ok(v) && v@ == u,
                None => r matches Err(e) && e@ == "cannot form file URL for "@ + abs,
            }
        },
        is_absolute_path(path@) || (current_dir matches Ok(d) && is_absolute_path(d@)) ==> r is Ok,
{
    let abs: String = if !path.is_empty() && path.get_char(0) == '/' {
        path.to_string()
    } else {
        match current_dir {
            Ok(d) => {
                let mut a = d.to_string();
                push_component(&mut a, path);
                a
            },
            Err(e) => {
                return Err(e.to_string());
            },
        }
    };
    match file_url_of(abs.as_str()) {
        Some(u) => Ok(u),
        None => {
            let mut msg = String::new();
            push_str(&mut msg, "cannot form file URL for ");
            proof {
                reveal_strlit("cannot form file URL for ");
            }
            push_str(&mut msg, abs.as_str());
            Err(msg)
        },
    }
}

/// Every extension the preview shows as a picture has an image format to
/// decode an archive member by, and both `jpg` and `jpeg` decode as JPEG.
pub proof fn law_image_extensions_have_formats(e: Seq<char>)
    ensures
        image_ext(e) ==> format_for(e) is Some,
        e == "jpg"@ || e == "jpeg"@ ==> format_for(e) == Some(ImageFormat::Jpeg),
{
    reveal_strlit("png");
    reveal_strlit("jpg");
    reveal_strlit("jpeg");
    assert("jpg"@[0] != "png"@[0]);
    assert("jpeg"@[0] != "png"@[0]);
    assert("jpg"@ != "png"@);
    assert("jpeg"@ != "png"@);
}

} // verus!
