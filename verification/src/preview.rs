//! What each plugin shows in the preview window: text classified as SVG,
//! colour or link and escaped for HTML, HTML escaped for an attribute, and
//! one row per copied file.

use vstd::prelude::*;
use crate::text::{trim, trimmed, str_starts_with, str_ends_with, starts_with_seq, ends_with_seq, owned, joined_with, join_strings};
use crate::search::{compile_case_insensitive, pattern_is_match, ci_pattern_compiles, ci_pattern_matches};
use crate::json::{Json, get_spec};
use crate::display::{json_u64, json_u64_spec};
use crate::numfmt::{human_kb, human_kb_spec};

verus! {

// ---------------------------------------------------------------------------
// HTML escaping
// ---------------------------------------------------------------------------

/// What one character becomes when escaped: `&`, `<` and `>` always, `"`
/// only inside a double-quoted attribute.
pub open spec fn escape_char(c: char, quote: bool) -> Seq<char> {
    if c == '&' {
        seq!['&', 'a', 'm', 'p', ';']
    } else if c == '<' {
        seq!['&', 'l', 't', ';']
    } else if c == '>' {
        seq!['&', 'g', 't', ';']
    } else if quote && c == '"' {
        seq!['&', 'q', 'u', 'o', 't', ';']
    } else {
        seq![c]
    }
}

/// `s` with each character escaped in turn.
pub open spec fn escaped(s: Seq<char>, quote: bool) -> Seq<char>
    decreases s.len(),
{
    if s.len() == 0 {
        Seq::empty()
    } else {
        escaped(s.drop_last(), quote) + escape_char(s.last(), quote)
    }
}

/// `html_escape::encode_text`: `&`, `<` and `>` become `&amp;`, `&lt;` and
/// `&gt;`, every other character is kept.
#[verifier::external_body]
fn encode_text(text: &str) -> (r: String)
    ensures
        r@ == escaped(text@, false),
{
    html_escape::encode_text(text).to_string()
}

/// `html_escape::encode_double_quoted_attribute`: as `encode_text`, and `"`
/// becomes `&quot;`.
#[verifier::external_body]
fn encode_double_quoted_attribute(text: &str) -> (r: String)
    ensures
        r@ == escaped(text@, true),
{
    html_escape::encode_double_quoted_attribute(text).to_string()
}

// ---------------------------------------------------------------------------
// Text
// ---------------------------------------------------------------------------

/// The case-insensitive pattern of a CSS colour: a `#` hex triple or sextet,
/// or the start of an `rgb(`, `rgba(`, `hsl(` or `hsla(` call.
pub const COLOR_PATTERN: &'static str = "^#([0-9a-f]{3}|[0-9a-f]{6})$|^rgb\\s*\\(|^rgba\\s*\\(|^hsl\\s*\\(|^hsla\\s*\\(";

/// The preview of a text entry.
pub struct TextPreview {
    /// The text as the preview shows it: SVG markup as it is, anything else
    /// escaped for HTML.
    pub content: String,
    pub raw_text: String,
    pub is_svg: bool,
    pub is_color: bool,
    /// The trimmed text when it is a colour, else empty.
    pub color_value: String,
    pub is_url: bool,
    /// The trimmed text when it is a link, else empty.
    pub url: String,
}

/// A text preview as plain values.
pub struct TextPreviewView {
    pub content: Seq<char>,
    pub raw_text: Seq<char>,
    pub is_svg: bool,
    pub is_color: bool,
    pub color_value: Seq<char>,
    pub is_url: bool,
    pub url: Seq<char>,
}

impl View for TextPreview {
    type V = TextPreviewView;

    open spec fn view(&self) -> TextPreviewView {
        TextPreviewView {
            content: self.content@,
            raw_text: self.raw_text@,
            is_svg: self.is_svg,
            is_color: self.is_color,
            color_value: self.color_value@,
            is_url: self.is_url,
            url: self.url@,
        }
    }
}

/// Whether the trimmed text is one SVG element: it opens with `<svg` and
/// closes with `</svg>`.
pub open spec fn is_svg_text(text: Seq<char>) -> bool {
    starts_with_seq(trim(text), "<svg"@) && ends_with_seq(trim(text), "</svg>"@)
}

/// The preview of `text`, given whether its trimmed form matches the colour
/// pattern.  A link is trimmed text that starts with `http://` or
/// `https://` and is neither SVG nor a colour.
pub open spec fn text_preview_spec(text: Seq<char>, is_color: bool) -> TextPreviewView {
    let t = trim(text);
    let svg = is_svg_text(text);
    let url = !svg && !is_color && (starts_with_seq(t, "http://"@) || starts_with_seq(t, "https://"@));
    TextPreviewView {
        content: if svg { text } else { escaped(text, false) },
        raw_text: text,
        is_svg: svg,
        is_color,
        color_value: if is_color { t } else { Seq::empty() },
        is_url: url,
        url: if url { t } else { Seq::empty() },
    }
}

/// The preview of `text`, given whether its trimmed form is a colour.
pub fn text_preview_with(text: &str, is_color: bool) -> (r: TextPreview)
    ensures
        r@ == text_preview_spec(text@, is_color),
{
    let t = trimmed(text);
    let is_svg = str_starts_with(t.as_str(), "<svg") && str_ends_with(t.as_str(), "</svg>");
    let content = if is_svg {
        owned(text)
    } else {
        encode_text(text)
    };
    let is_url = !is_svg && !is_color && (str_starts_with(t.as_str(), "http://")
        || str_starts_with(t.as_str(), "https://"));
    let color_value = if is_color {
        t.clone()
    } else {
        String::new()
    };
    let url = if is_url {
        t.clone()
    } else {
        String::new()
    };
    TextPreview { content, raw_text: owned(text), is_svg, is_color, color_value, is_url, url }
}

/// The preview of `text`; the trimmed text is tested against
/// `COLOR_PATTERN`.  `None` only if that pattern fails to compile.
pub fn text_preview(text: &str) -> (r: Option<TextPreview>)
    ensures
        r.is_some() == ci_pattern_compiles(COLOR_PATTERN@),
        r matches Some(p) ==> p@ == text_preview_spec(
            text@,
            ci_pattern_matches(COLOR_PATTERN@, trim(text@)),
        ),
{
    let pattern = match compile_case_insensitive(COLOR_PATTERN) {
        Some(p) => p,
        None => {
            return None;
        },
    };
    let t = trimmed(text);
    let is_color = pattern_is_match(&pattern, t.as_str());
    Some(text_preview_with(text, is_color))
}

// ---------------------------------------------------------------------------
// HTML
// ---------------------------------------------------------------------------

/// The preview of an HTML entry: its markup escaped for a double-quoted
/// attribute.
pub fn html_preview(html: &str) -> (r: String)
    ensures
        r@ == escaped(html@, true),
{
    encode_double_quoted_attribute(html)
}

// ---------------------------------------------------------------------------
// Files
// ---------------------------------------------------------------------------

/// One copied file as the preview lists it.
pub struct FilePreviewRow {
    pub name: String,
    /// The size in KB, as `human_kb` writes it.
    pub size: String,
    pub path: String,
}

impl View for FilePreviewRow {
    type V = (Seq<char>, Seq<char>, Seq<char>);

    open spec fn view(&self) -> (Seq<char>, Seq<char>, Seq<char>) {
        (self.name@, self.size@, self.path@)
    }
}

/// The string member `key` of an entry, empty when it is missing or not a
/// string.
pub open spec fn str_member(e: Json, key: Seq<char>) -> Seq<char> {
    match get_spec(e, key) {
        Some(Json::Str(s)) => s@,
        _ => Seq::empty(),
    }
}

/// The entry's `size` in bytes, 0 when it is missing or not a whole number
/// that fits in 64 bits.
pub open spec fn size_member(e: Json) -> nat {
    match get_spec(e, "size"@) {
        Some(v) => match json_u64_spec(v) {
            Some(n) => n,
            None => 0,
        },
        None => 0,
    }
}

/// The row of one recorded file entry: its name, its size in KB and its
/// source path.
pub open spec fn file_row_spec(e: Json) -> (Seq<char>, Seq<char>, Seq<char>) {
    (str_member(e, "name"@), human_kb_spec(size_member(e)), str_member(e, "source_path"@))
}

fn str_member_of(e: &Json, key: &str) -> (r: String)
    ensures
        r@ == str_member(*e, key@),
{
    match e.get(key) {
        Some(Json::Str(s)) => s.clone(),
        _ => String::new(),
    }
}

/// The preview row of one file entry.
pub fn file_preview_row(e: &Json) -> (r: FilePreviewRow)
    ensures
        r@ == file_row_spec(*e),
{
    let name = str_member_of(e, "name");
    let bytes: u64 = match e.get("size") {
        Some(v) => match json_u64(v) {
            Some(n) => n,
            None => 0,
        },
        None => 0,
    };
    let size = human_kb(bytes);
    let path = str_member_of(e, "source_path");
    FilePreviewRow { name, size, path }
}

/// The preview rows of the entries, one per entry, in order.
pub fn file_preview_rows(entries: &Vec<Json>) -> (r: Vec<FilePreviewRow>)
    ensures
        r@.len() == entries@.len(),
        forall|i: int| 0 <= i < r@.len() ==> #[trigger] r@[i]@ == file_row_spec(entries@[i]),
{
    let mut r: Vec<FilePreviewRow> = Vec::new();
    let mut i: usize = 0;
    while i < entries.len()
        invariant
            i <= entries@.len(),
            r@.len() == i,
            forall|j: int| 0 <= j < i ==> #[trigger] r@[j]@ == file_row_spec(entries@[j]),
        decreases entries@.len() - i,
    {
        r.push(file_preview_row(&entries[i]));
        i = i + 1;
    }
    r
}

/// The files preview from the files plugin's metadata: a row per recorded
/// entry, or an error when the metadata has no `entries` list.
pub fn files_preview(plugin_meta: &Json) -> (r: Result<Vec<FilePreviewRow>, String>)
    ensures
        match get_spec(*plugin_meta, "entries"@) {
            Some(Json::Array(es)) => r matches Ok(rows) && rows@.len() == es@.len() && forall|i: int|
                0 <= i < rows@.len() ==> #[trigger] rows@[i]@ == file_row_spec(es@[i]),
            _ => r matches Err(m) && m@ == "file plugin metadata missing entries"@,
        },
{
    match plugin_meta.get("entries") {
        Some(Json::Array(es)) => Ok(file_preview_rows(es)),
        _ => Err(owned("file plugin metadata missing entries")),
    }
}

/// The plain text of a files preview: the rows' paths, one per line.
pub fn files_preview_text(rows: &Vec<FilePreviewRow>) -> (r: String)
    ensures
        r@ == joined_with(rows@.map_values(|row: FilePreviewRow| row.path@), "\n"@),
{
    let mut paths: Vec<String> = Vec::new();
    let mut i: usize = 0;
    while i < rows.len()
        invariant
            i <= rows@.len(),
            paths@.len() == i,
            forall|j: int| 0 <= j < i ==> #[trigger] paths@[j]@ == rows@[j].path@,
        decreases rows@.len() - i,
    {
        paths.push(rows[i].path.clone());
        i = i + 1;
    }
    assert(paths@.map_values(|p: String| p@) =~= rows@.map_values(|row: FilePreviewRow| row.path@));
    join_strings(&paths, "\n")
}

} // verus!
