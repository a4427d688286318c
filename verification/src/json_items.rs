//! The JSON export format: stored entries exported as items, and items
//! imported back, each format by the plugin that made it.

use vstd::prelude::*;
use crate::digest::{base64_decode, base64_standard_decoded};
use crate::json::{get_spec, member, Json};
use crate::model::{opt_str, strs, EntryKind};
use crate::numfmt::human_kb;
use crate::plugins::{
    decode_dimensions, decoded_size, file_names, files_like, identity_is, image_summary,
    num_member, one_file, records_capture, str_member, text_like, text_like_capture,
    PluginCapture,
};
use crate::snapshot::{
    file_line, file_record, mime_of_ext, path_extension, record_line, FileOutput,
    FileRecord,
};
use crate::text::{
    ascii_lower_seq, ascii_lowercased, chars_of, concat, decimal, owned, split_char, split_spec,
    starts_with_seq, str_eq, str_starts_with, string_from_chars, trim, trimmed, u64_to_string,
    is_ws,
};

verus! {

/// One format of an exported item: the plugin that made it and its data.
pub struct ClipboardJsonFormat {
    pub plugin_id: String,
    pub kind: Option<String>,
    pub priority: Option<u8>,
    pub entry_kind: Option<EntryKind>,
    pub data: Json,
    pub metadata: Json,
}

/// What goes back on the clipboard when an imported item is copied.  An
/// image is given as PNG bytes.
pub enum ImportContent {
    Text(String),
    Html(String),
    Files(Vec<String>),
    Image(Vec<u8>),
    Other(String, Vec<u8>),
}

/// The model of an `ImportContent`.
pub enum ContentView {
    Text(Seq<char>),
    Html(Seq<char>),
    Files(Seq<Seq<char>>),
    Image(Seq<u8>),
    Other(Seq<char>, Seq<u8>),
}

impl View for ImportContent {
    type V = ContentView;

    open spec fn view(&self) -> ContentView {
        match self {
            ImportContent::Text(s) => ContentView::Text(s@),
            ImportContent::Html(s) => ContentView::Html(s@),
            ImportContent::Files(v) => ContentView::Files(strs(v@)),
            ImportContent::Image(b) => ContentView::Image(b@),
            ImportContent::Other(t, b) => ContentView::Other(t@, b@),
        }
    }
}

/// What one plugin rebuilt from one format.
pub struct PluginImport {
    pub capture: PluginCapture,
    pub clipboard_contents: Vec<ImportContent>,
}

/// The models of a list of contents.
pub open spec fn content_views(v: Seq<ImportContent>) -> Seq<ContentView> {
    v.map_values(|c: ImportContent| c@)
}

// ---------------------------------------------------------------------------
// Finalized captures
// ---------------------------------------------------------------------------

/// The metadata of a capture names its plugin, kind, summary and stored
/// files, as `finalize_metadata` leaves it.
pub open spec fn finalized(c: PluginCapture) -> bool {
    &&& c.metadata is Object
    &&& str_member(c.metadata, "pluginId"@) == Some(c.plugin_id@)
    &&& str_member(c.metadata, "pluginKind"@) == Some(c.kind@)
    &&& (c.summary matches Some(s) ==> str_member(c.metadata, "summary"@) == Some(s@))
    &&& (c.files@.len() > 0 ==> (get_spec(c.metadata, "storedFiles"@) matches Some(Json::Array(a))
        && strings_of_names(a@, c.files@)))
}

/// The array holds the names of the files.
pub open spec fn strings_of_names(a: Seq<Json>, files: Seq<FileOutput>) -> bool {
    crate::json::strings_of(a) == file_names(files)
}

/// Finalizes a capture whose metadata is an object: the members other than
/// the four that finalizing writes stay as they were, and so does every
/// field but the metadata; a capture with search text keeps it.
fn finalize(c: &mut PluginCapture)
    requires
        old(c).metadata is Object,
        old(c).search_text is Some,
    ensures
        finalized(*final(c)),
        forall|k: Seq<char>|
            k != "pluginId"@ && k != "pluginKind"@ && k != "summary"@ && k != "storedFiles"@
                ==> #[trigger] get_spec(final(c).metadata, k) == get_spec(old(c).metadata, k),
        final(c).plugin_id == old(c).plugin_id,
        final(c).kind == old(c).kind,
        final(c).entry_kind == old(c).entry_kind,
        final(c).priority == old(c).priority,
        final(c).summary == old(c).summary,
        opt_str(final(c).search_text) == opt_str(old(c).search_text),
        final(c).files == old(c).files,
        final(c).byte_size == old(c).byte_size,
        final(c).sources == old(c).sources,
{
    c.finalize_metadata();
}

// ---------------------------------------------------------------------------
// Data URLs
// ---------------------------------------------------------------------------

/// `i` is the position of the first `c` in `s`.
pub open spec fn first_at(s: Seq<char>, c: char, i: int) -> bool {
    &&& 0 <= i < s.len()
    &&& s[i] == c
    &&& forall|j: int| 0 <= j < i ==> s[j] != c
}

/// `s` cut at its first `c` (`splitn(2, c)`): what comes before it, and what
/// comes after it when there is one.
pub open spec fn split_once(s: Seq<char>, c: char) -> (Seq<char>, Option<Seq<char>>) {
    if exists|i: int| first_at(s, c, i) {
        let i = choose|i: int| first_at(s, c, i);
        (s.take(i), Some(s.skip(i + 1)))
    } else {
        (s, None)
    }
}

/// There is only one first position.
proof fn lemma_first_at_unique(s: Seq<char>, c: char, i: int, k: int)
    requires
        first_at(s, c, i),
        first_at(s, c, k),
    ensures
        i == k,
{
    if i < k {
        assert(s[i] != c);
    } else if k < i {
        assert(s[k] != c);
    }
}

/// The characters of `cs` from `lo` to `hi`.
fn chars_between(cs: &Vec<char>, lo: usize, hi: usize) -> (r: String)
    requires
        lo <= hi <= cs.len(),
    ensures
        r@ == cs@.subrange(lo as int, hi as int),
{
    let r = string_from_chars(&cs[lo..hi]);
    r
}

/// `s` cut at its first `c`.
fn split_once_char(s: &str, c: char) -> (r: (String, Option<String>))
    ensures
        r.0@ == split_once(s@, c).0,
        opt_str(r.1) == split_once(s@, c).1,
{
    let cs = chars_of(s);
    let mut i: usize = 0;
    while i < cs.len()
        invariant
            i <= cs.len(),
            cs@ == s@,
            forall|j: int| 0 <= j < i ==> cs@[j] != c,
        decreases cs.len() - i,
    {
        if cs[i] == c {
            assert(first_at(s@, c, i as int));
            proof {
                let k = choose|k: int| first_at(s@, c, k);
                lemma_first_at_unique(s@, c, i as int, k);
            }
            let head = chars_between(&cs, 0, i);
            let tail = chars_between(&cs, i + 1, cs.len());
            assert(cs@.subrange(0, i as int) =~= s@.take(i as int));
            assert(cs@.subrange(i + 1, cs.len() as int) =~= s@.skip(i + 1));
            return (head, Some(tail));
        }
        i = i + 1;
    }
    assert(!exists|k: int| first_at(s@, c, k));
    (owned(s), None)
}

/// The MIME type a data URL's header names: its last parameter that is
/// neither empty nor `base64`, `application/octet-stream` when there is
/// none.
pub open spec fn header_mime(segs: Seq<Seq<char>>) -> Seq<char>
    decreases segs.len(),
{
    if segs.len() == 0 {
        "application/octet-stream"@
    } else {
        let t = trim(segs.last());
        if t.len() > 0 && ascii_lower_seq(t) != "base64"@ {
            t
        } else {
            header_mime(segs.drop_last())
        }
    }
}

/// One of the header's parameters is `base64`, in any case.
pub open spec fn header_base64(segs: Seq<Seq<char>>) -> bool {
    exists|k: int| 0 <= k < segs.len() && ascii_lower_seq(trim(segs[k])) == "base64"@
}

/// A `data:` URL read as its MIME type and its base64-decoded bytes, or the
/// reason it cannot be.
pub open spec fn data_url_spec(input: Seq<char>) -> Result<(Seq<char>, Seq<u8>), Seq<char>> {
    let t = trim(input);
    if !starts_with_seq(t, "data:"@) {
        Err("image data must be a data URI"@)
    } else {
        let (header, payload) = split_once(t.skip(5), ',');
        match payload {
            None => Err("image data URI missing payload"@),
            Some(p) => {
                let segs = split_spec(header, ';');
                if !header_base64(segs) {
                    Err("image data URI must be base64 encoded"@)
                } else {
                    match base64_standard_decoded(p) {
                        Some(b) => Ok((header_mime(segs), b)),
                        None => Err("Failed to decode image payload"@),
                    }
                }
            },
        }
    }
}

/// Reads a `data:` URL: its MIME type and its base64-decoded bytes.
pub fn decode_data_url(input: &str) -> (r: Result<(String, Vec<u8>), String>)
    ensures
        data_url_spec(input@) matches Ok((m, b)) ==> (r matches Ok((rm, rb)) && rm@ == m && rb@ == b),
        data_url_spec(input@) matches Err(e) ==> (r matches Err(re) && re@ == e),
{
    proof {
        reveal_strlit("data:");
        reveal_strlit("base64");
    }
    let t = trimmed(input);
    if !str_starts_with(t.as_str(), "data:") {
        return Err("image data must be a data URI".to_string());
    }
    let tc = chars_of(t.as_str());
    let rest = chars_between(&tc, 5, tc.len());
    assert(tc@.subrange(5, tc@.len() as int) =~= t@.skip(5));
    let (header, payload) = split_once_char(rest.as_str(), ',');
    let payload = match payload {
        Some(p) => p,
        None => {
            return Err("image data URI missing payload".to_string());
        },
    };
    let segs = split_char(header.as_str(), ';');
    let ghost gs = split_spec(header@, ';');
    let mut mime = "application/octet-stream".to_string();
    let mut base64 = false;
    let mut i: usize = 0;
    while i < segs.len()
        invariant
            i <= segs.len(),
            strs(segs@) == gs,
            mime@ == header_mime(gs.take(i as int)),
            base64 <==> exists|k: int| 0 <= k < i && ascii_lower_seq(trim(gs[k])) == "base64"@,
        decreases segs.len() - i,
    {
        assert(gs.take(i + 1).drop_last() =~= gs.take(i as int));
        assert(gs.take(i + 1).last() == gs[i as int]);
        proof {
            reveal_strlit("base64");
        }
        let token = trimmed(segs[i].as_str());
        let lower = ascii_lowercased(token.as_str());
        if token.as_str().is_empty() {
            assert(ascii_lower_seq(token@).len() != "base64"@.len());
        } else if str_eq(lower.as_str(), "base64") {
            base64 = true;
        } else {
            assert(token@.len() > 0);
            mime = token;
        }
        i = i + 1;
    }
    assert(gs.take(segs.len() as int) =~= gs);
    if !base64 {
        return Err("image data URI must be base64 encoded".to_string());
    }
    match base64_decode(payload.as_str()) {
        Some(bytes) => Ok((mime, bytes)),
        None => Err("Failed to decode image payload".to_string()),
    }
}

// ---------------------------------------------------------------------------
// Text and HTML
// ---------------------------------------------------------------------------

/// The text of string data.
pub open spec fn string_data(data: Json) -> Option<Seq<char>> {
    match data {
        Json::Str(s) => Some(s@),
        _ => None,
    }
}

/// The keys that finalizing writes differ from the keys the plugins use.
proof fn lemma_keys_differ()
    ensures
        "pluginId"@.len() == 8,
        "pluginKind"@.len() == 10,
        "summary"@.len() == 7,
        "storedFiles"@.len() == 11,
        "length"@.len() == 6,
        "entries"@.len() == 7,
        "entries"@ != "summary"@,
        "width"@.len() == 5,
        "height"@.len() == 6,
        "mime"@.len() == 4,
        "byteSize"@.len() == 8,
        "byteSize"@ != "pluginId"@,
{
    reveal_strlit("pluginId");
    reveal_strlit("pluginKind");
    reveal_strlit("summary");
    reveal_strlit("storedFiles");
    reveal_strlit("length");
    reveal_strlit("entries");
    reveal_strlit("width");
    reveal_strlit("height");
    reveal_strlit("mime");
    reveal_strlit("byteSize");
    assert("entries"@[0] != "summary"@[0]);
    assert("byteSize"@[0] != "pluginId"@[0]);
}

/// The text or HTML plugin's import of string data.
fn text_like_import(format: &ClipboardJsonFormat, html: bool) -> (r: Result<PluginImport, String>)
    ensures
        string_data(format.data) is None ==> (r matches Err(e) && e@ == (if html {
            "html plugin expects string data"@
        } else {
            "text plugin expects string data"@
        })),
        string_data(format.data) matches Some(t) ==> (r matches Ok(imp) && finalized(imp.capture)
            && (!html ==> text_like(imp.capture, t, "text"@, 2, "text__content.txt"@) && content_views(
            imp.clipboard_contents@,
        ) == seq![ContentView::Text(t)]) && (html ==> text_like(
            imp.capture,
            t,
            "html"@,
            3,
            "html__content.html"@,
        ) && content_views(imp.clipboard_contents@) == seq![ContentView::Html(t)])),
{
    let text = match &format.data {
        Json::Str(s) => s.clone(),
        _ => {
            return Err(
                if html {
                    "html plugin expects string data".to_string()
                } else {
                    "text plugin expects string data".to_string()
                },
            );
        },
    };
    let mut capture = text_like_capture(text.as_str(), html);
    proof {
        lemma_keys_differ();
    }
    finalize(&mut capture);
    let mut contents: Vec<ImportContent> = Vec::new();
    if html {
        contents.push(ImportContent::Html(text));
    } else {
        contents.push(ImportContent::Text(text));
    }
    assert(content_views(contents@) =~= seq![contents@[0]@]);
    Ok(PluginImport { capture, clipboard_contents: contents })
}

impl crate::plugins::TextPlugin {
    /// Rebuilds a text capture from exported string data; the text goes
    /// back on the clipboard as text.
    pub fn import_json(&self, format: &ClipboardJsonFormat) -> (r: Result<PluginImport, String>)
        ensures
            string_data(format.data) is None ==> (r matches Err(e) && e@
                == "text plugin expects string data"@),
            string_data(format.data) matches Some(t) ==> (r matches Ok(imp) && finalized(
                imp.capture,
            ) && text_like(imp.capture, t, "text"@, 2, "text__content.txt"@) && content_views(
                imp.clipboard_contents@,
            ) == seq![ContentView::Text(t)]),
    {
        text_like_import(format, false)
    }
}

impl crate::plugins::HtmlPlugin {
    /// Rebuilds an HTML capture from exported string data; the markup goes
    /// back on the clipboard as HTML.
    pub fn import_json(&self, format: &ClipboardJsonFormat) -> (r: Result<PluginImport, String>)
        ensures
            string_data(format.data) is None ==> (r matches Err(e) && e@
                == "html plugin expects string data"@),
            string_data(format.data) matches Some(t) ==> (r matches Ok(imp) && finalized(
                imp.capture,
            ) && text_like(imp.capture, t, "html"@, 3, "html__content.html"@) && content_views(
                imp.clipboard_contents@,
            ) == seq![ContentView::Html(t)]),
    {
        text_like_import(format, true)
    }
}

// ---------------------------------------------------------------------------
// Files
// ---------------------------------------------------------------------------

/// The path an exported file entry names: a string is the path itself; an
/// object gives it under `source_path`, `sourcePath` or `path`, the first of
/// these that it has, when that member is a string.
pub open spec fn import_path_of(v: Json) -> Option<Seq<char>> {
    match v {
        Json::Str(s) => Some(s@),
        Json::Object(o) => {
            let found = match member(o@, "source_path"@) {
                Some(x) => Some(x),
                None => match member(o@, "sourcePath"@) {
                    Some(x) => Some(x),
                    None => member(o@, "path"@),
                },
            };
            match found {
                Some(Json::Str(p)) => Some(p@),
                _ => None,
            }
        },
        _ => None,
    }
}

/// The paths that the entries of an exported array name, in order.
pub open spec fn import_paths(items: Seq<Json>) -> Seq<Seq<char>>
    decreases items.len(),
{
    if items.len() == 0 {
        Seq::empty()
    } else {
        let rest = import_paths(items.drop_last());
        match import_path_of(items.last()) {
            Some(p) => rest.push(p),
            None => rest,
        }
    }
}

/// The paths named by exported files data; none for data that is no array.
pub open spec fn data_paths(data: Json) -> Seq<Seq<char>> {
    match data {
        Json::Array(a) => import_paths(a@),
        _ => Seq::empty(),
    }
}

/// Why exported files data cannot be imported, if it cannot.
pub open spec fn files_import_error(data: Json) -> Option<Seq<char>> {
    match data {
        Json::Array(a) => if import_paths(a@).len() == 0 {
            Some("files plugin requires at least one path entry"@)
        } else {
            None
        },
        _ => Some("files plugin expects an array"@),
    }
}

/// The path an exported file entry names.
fn import_path(v: &Json) -> (r: Option<String>)
    ensures
        opt_str(r) == import_path_of(*v),
{
    match v {
        Json::Str(s) => Some(s.clone()),
        Json::Object(o) => {
            let found = match crate::json::object_member(o, "source_path") {
                Some(x) => Some(x),
                None => match crate::json::object_member(o, "sourcePath") {
                    Some(x) => Some(x),
                    None => crate::json::object_member(o, "path"),
                },
            };
            match found {
                Some(Json::Str(p)) => Some(p.clone()),
                _ => None,
            }
        },
        _ => None,
    }
}

/// The paths that exported files data names: an array is required, and it
/// must name at least one path.
pub fn files_import_paths(data: &Json) -> (r: Result<Vec<String>, String>)
    ensures
        files_import_error(*data) matches Some(e) ==> (r matches Err(re) && re@ == e),
        files_import_error(*data) is None ==> (r matches Ok(p) && strs(p@) == data_paths(*data)),
{
    let items = match data {
        Json::Array(a) => a,
        _ => {
            return Err("files plugin expects an array".to_string());
        },
    };
    let mut paths: Vec<String> = Vec::new();
    let mut i: usize = 0;
    while i < items.len()
        invariant
            i <= items.len(),
            strs(paths@) == import_paths(items@.take(i as int)),
        decreases items.len() - i,
    {
        assert(items@.take(i + 1).drop_last() =~= items@.take(i as int));
        assert(items@.take(i + 1).last() == items@[i as int]);
        let ghost before = strs(paths@);
        match import_path(&items[i]) {
            Some(p) => {
                paths.push(p);
                assert(strs(paths@) =~= before.push(paths@.last()@));
            },
            None => {},
        }
        i = i + 1;
    }
    assert(items@.take(items.len() as int) =~= items@);
    if paths.len() == 0 {
        return Err("files plugin requires at least one path entry".to_string());
    }
    Ok(paths)
}

/// The size on disk found for a path: the first size listed for it, 0 when
/// none is (as when its metadata cannot be read).
pub open spec fn size_on_disk(sizes: Seq<(String, u64)>, p: Seq<char>) -> nat
    decreases sizes.len(),
{
    if sizes.len() == 0 {
        0
    } else if sizes[0].0@ == p {
        sizes[0].1 as nat
    } else {
        size_on_disk(sizes.drop_first(), p)
    }
}

/// The size on disk found for a path.
fn disk_size(sizes: &Vec<(String, u64)>, p: &str) -> (r: u64)
    ensures
        r as nat == size_on_disk(sizes@, p@),
{
    let mut i: usize = 0;
    assert(sizes@.skip(0) =~= sizes@);
    while i < sizes.len()
        invariant
            i <= sizes.len(),
            size_on_disk(sizes@, p@) == size_on_disk(sizes@.skip(i as int), p@),
        decreases sizes.len() - i,
    {
        assert(sizes@.skip(i as int).drop_first() =~= sizes@.skip(i + 1));
        assert(sizes@.skip(i as int)[0] == sizes@[i as int]);
        if str_eq(sizes[i].0.as_str(), p) {
            return sizes[i].1;
        }
        i = i + 1;
    }
    0
}

/// The MIME type guessed from a path's extension.
pub open spec fn path_mime(p: Seq<char>) -> Option<Seq<char>> {
    match path_extension(p) {
        Some(e) => mime_of_ext(e),
        None => None,
    }
}

/// How the imported files are described, one line each.
pub open spec fn import_lines(paths: Seq<Seq<char>>, sizes: Seq<(String, u64)>) -> Seq<Seq<char>> {
    Seq::new(paths.len(), |i: int| file_line(paths[i], size_on_disk(sizes, paths[i]), path_mime(paths[i])))
}

/// The `file://` URL of a path.
pub open spec fn file_url(p: Seq<char>) -> Seq<char> {
    "file://"@ + p
}

/// The `file://` URLs of the paths, in order.
pub fn file_urls(paths: &Vec<String>) -> (r: Vec<String>)
    ensures
        strs(r@) == strs(paths@).map_values(|p: Seq<char>| file_url(p)),
{
    let mut r: Vec<String> = Vec::new();
    let mut i: usize = 0;
    while i < paths.len()
        invariant
            i <= paths.len(),
            r@.len() == i,
            forall|j: int| 0 <= j < i ==> #[trigger] r@[j]@ == file_url(paths@[j]@),
        decreases paths.len() - i,
    {
        r.push(concat("file://", paths[i].as_str()));
        i = i + 1;
    }
    assert(strs(r@) =~= strs(paths@).map_values(|p: Seq<char>| file_url(p)));
    r
}

impl crate::plugins::FilesPlugin {
    /// Rebuilds a files capture from exported data: an array of paths, or
    /// of objects that name one.  Each file is described by the size found
    /// for it in `sizes` (0 when none is), its name, extension and guessed
    /// MIME type; the paths are the sources, and go back on the clipboard as
    /// `file://` URLs.
    pub fn import_json(&self, format: &ClipboardJsonFormat, sizes: &Vec<(String, u64)>) -> (r: Result<
        PluginImport,
        String,
    >)
        ensures
            files_import_error(format.data) matches Some(e) ==> (r matches Err(re) && re@ == e),
            files_import_error(format.data) is None ==> (r matches Ok(imp) && finalized(imp.capture)
                && files_like(
                imp.capture,
                import_lines(data_paths(format.data), sizes@),
                data_paths(format.data).len(),
                data_paths(format.data),
            ) && content_views(imp.clipboard_contents@) == seq![
                ContentView::Files(data_paths(format.data).map_values(|p: Seq<char>| file_url(p))),
            ]),
    {
        let paths = match files_import_paths(&format.data) {
            Ok(p) => p,
            Err(e) => {
                return Err(e);
            },
        };
        let ghost gp = strs(paths@);
        let mut records: Vec<FileRecord> = Vec::new();
        let mut i: usize = 0;
        while i < paths.len()
            invariant
                i <= paths.len(),
                gp == strs(paths@),
                records@.len() == i,
                forall|j: int| 0 <= j < i ==> #[trigger] record_line(records@[j]) == file_line(
                    gp[j],
                    size_on_disk(sizes@, gp[j]),
                    path_mime(gp[j]),
                ),
            decreases paths.len() - i,
        {
            let size = disk_size(sizes, paths[i].as_str());
            let rec = file_record(paths[i].as_str(), size);
            records.push(rec);
            i = i + 1;
        }
        assert(crate::snapshot::file_lines(records@) =~= import_lines(gp, sizes@));
        let urls = file_urls(&paths);
        let sources = crate::model::clone_strings(&paths);
        let mut capture = records_capture(&records, sources);
        proof {
            lemma_keys_differ();
        }
        finalize(&mut capture);
        let mut contents: Vec<ImportContent> = Vec::new();
        contents.push(ImportContent::Files(urls));
        assert(content_views(contents@) =~= seq![contents@[0]@]);
        Ok(PluginImport { capture, clipboard_contents: contents })
    }
}

// ---------------------------------------------------------------------------
// Images
// ---------------------------------------------------------------------------

/// The PNG encoding of the image that the bytes encode, when the `image`
/// crate can guess its format, decode it and write it as PNG.
pub uninterp spec fn png_encoding(bytes: Seq<u8>) -> Option<Seq<u8>>;

/// `ImageReader::with_guessed_format`, `decode`, then `write_to` with
/// `ImageFormat::Png`; `None` when any step fails.  Named `png_encoding`.
#[verifier::external_body]
fn encode_png(bytes: &[u8]) -> (r: Option<Vec<u8>>)
    ensures
        r matches Some(p) ==> png_encoding(bytes@) == Some(p@),
        r is None ==> png_encoding(bytes@) is None,
{
    let reader = image::ImageReader::new(std::io::Cursor::new(bytes)).with_guessed_format().ok()?;
    let decoded = reader.decode().ok()?;
    let mut out = std::io::Cursor::new(Vec::new());
    decoded.write_to(&mut out, image::ImageFormat::Png).ok()?;
    Some(out.into_inner())
}

/// The PNG bytes stored for an imported image: the data itself when it is
/// declared `image/png`, else its PNG encoding.
pub open spec fn image_png(mime: Seq<char>, raw: Seq<u8>) -> Seq<u8> {
    if mime == "image/png"@ {
        raw
    } else {
        png_encoding(raw)->0
    }
}

/// Why exported image data cannot be imported, if it cannot.
pub open spec fn image_import_error(data: Json) -> Option<Seq<char>> {
    match data {
        Json::Str(s) => match data_url_spec(s@) {
            Err(e) => Some(e),
            Ok((mime, raw)) => if decoded_size(raw) is None {
                Some("Failed to decode image data"@)
            } else if mime != "image/png"@ && png_encoding(raw) is None {
                Some("Failed to convert image to PNG"@)
            } else {
                None
            },
        },
        _ => Some("image plugin expects data URL string"@),
    }
}

/// What the image plugin rebuilds from a data URL whose image decodes: the
/// image stored as `image__full.png` and summarised by its size, its PNG
/// size and its declared type; width, height, `image/png` and the PNG size
/// noted; the summary is its search text.
pub open spec fn image_imported(c: PluginCapture, url: Seq<char>) -> bool {
    let (mime, raw) = data_url_spec(url)->Ok_0;
    let (w, h) = decoded_size(raw)->0;
    let png = image_png(mime, raw);
    &&& identity_is(c, "image"@, "image"@, EntryKind::Image, 1)
    &&& opt_str(c.summary) == Some(image_summary(w, h, png.len(), mime))
    &&& opt_str(c.search_text) == Some(image_summary(w, h, png.len(), mime))
    &&& one_file(c, "image__full.png"@, png)
    &&& num_member(c.metadata, "width"@) == Some(decimal(w as nat))
    &&& num_member(c.metadata, "height"@) == Some(decimal(h as nat))
    &&& str_member(c.metadata, "mime"@) == Some("image/png"@)
    &&& num_member(c.metadata, "byteSize"@) == Some(decimal(png.len()))
    &&& c.byte_size == png.len()
    &&& c.sources@.len() == 0
}

impl crate::plugins::ImagePlugin {
    /// Rebuilds an image capture from a base64 `data:` URL.  Data declared
    /// other than `image/png` is converted to PNG; the image goes back on
    /// the clipboard as an image and as `public.png` data.
    pub fn import_json(&self, format: &ClipboardJsonFormat) -> (r: Result<PluginImport, String>)
        ensures
            image_import_error(format.data) matches Some(e) ==> (r matches Err(re) && re@ == e),
            image_import_error(format.data) is None ==> (r matches Ok(imp) && finalized(imp.capture)
                && image_imported(imp.capture, string_data(format.data)->0) && content_views(
                imp.clipboard_contents@,
            ) == {
                let (mime, raw) = data_url_spec(string_data(format.data)->0)->Ok_0;
                seq![
                    ContentView::Image(image_png(mime, raw)),
                    ContentView::Other("public.png"@, image_png(mime, raw)),
                ]
            }),
    {
        let url = match &format.data {
            Json::Str(s) => s,
            _ => {
                return Err("image plugin expects data URL string".to_string());
            },
        };
        let (source_mime, raw) = match decode_data_url(url.as_str()) {
            Ok(d) => d,
            Err(e) => {
                return Err(e);
            },
        };
        let (w, h) = match decode_dimensions(raw.as_slice()) {
            Some(d) => d,
            None => {
                return Err("Failed to decode image data".to_string());
            },
        };
        let png: Vec<u8> = if str_eq(source_mime.as_str(), "image/png") {
            raw
        } else {
            match encode_png(raw.as_slice()) {
                Some(p) => p,
                None => {
                    return Err("Failed to convert image to PNG".to_string());
                },
            }
        };
        let png_size = png.len() as u64;
        let mut summary = concat("Image ", u64_to_string(w as u64).as_str());
        summary.append("x");
        summary.append(u64_to_string(h as u64).as_str());
        summary.append(" [");
        summary.append(human_kb(png_size).as_str());
        summary.append(" - ");
        summary.append(source_mime.as_str());
        summary.append("]");
        proof {
            lemma_keys_differ();
        }
        let mut meta: Vec<(String, Json)> = Vec::new();
        crate::json::object_insert(&mut meta, "width".to_string(), Json::Number(u64_to_string(w as u64)));
        crate::json::object_insert(&mut meta, "height".to_string(), Json::Number(u64_to_string(h as u64)));
        crate::json::object_insert(&mut meta, "mime".to_string(), Json::Str("image/png".to_string()));
        crate::json::object_insert(&mut meta, "byteSize".to_string(), Json::Number(u64_to_string(png_size)));
        let mut files: Vec<FileOutput> = Vec::new();
        files.push(FileOutput { filename: "image__full.png".to_string(), bytes: png.clone() });
        let mut capture = PluginCapture {
            plugin_id: "image".to_string(),
            kind: "image".to_string(),
            entry_kind: EntryKind::Image,
            priority: 1,
            summary: Some(summary.clone()),
            search_text: Some(summary),
            files,
            metadata: Json::Object(meta),
            byte_size: png_size,
            sources: Vec::new(),
        };
        finalize(&mut capture);
        let mut contents: Vec<ImportContent> = Vec::new();
        contents.push(ImportContent::Image(png.clone()));
        contents.push(ImportContent::Other("public.png".to_string(), png));
        assert(content_views(contents@) =~= seq![contents@[0]@, contents@[1]@]);
        Ok(PluginImport { capture, clipboard_contents: contents })
    }
}

// ---------------------------------------------------------------------------
// Whole items
// ---------------------------------------------------------------------------

/// An item of the JSON export format.
pub struct ClipboardJsonFullItem {
    pub index: Option<usize>,
    pub real_index: Option<usize>,
    pub id: Option<String>,
    pub date: Option<String>,
    pub first_date: Option<String>,
    pub summary: Option<String>,
    pub item_type: Option<String>,
    pub size: Option<u64>,
    pub copy_count: Option<u64>,
    pub detected_formats: Vec<String>,
    pub sources: Vec<String>,
    pub search_text: Option<String>,
    pub data_path: Option<String>,
    pub formats: Vec<ClipboardJsonFormat>,
}

/// What the plugins rebuilt from all formats of an item.
pub struct ClipboardJsonImport {
    pub captures: Vec<PluginCapture>,
    pub clipboard_contents: Vec<ImportContent>,
}

/// Why a format cannot be imported, if it cannot: its plugin refuses the
/// data, or no plugin has its id.  The RTF plugin imports nothing.
pub open spec fn format_error(f: ClipboardJsonFormat) -> Option<Seq<char>> {
    let id = f.plugin_id@;
    if id == "files"@ {
        files_import_error(f.data)
    } else if id == "image"@ {
        image_import_error(f.data)
    } else if id == "text"@ {
        if string_data(f.data) is None { Some("text plugin expects string data"@) } else { None }
    } else if id == "html"@ {
        if string_data(f.data) is None { Some("html plugin expects string data"@) } else { None }
    } else if id == "rtf"@ {
        Some("rtf plugin does not import exported data"@)
    } else {
        Some("Unknown clipboard plugin "@ + id)
    }
}

/// The capture is what the format's plugin rebuilds from its data.
pub open spec fn format_imported(f: ClipboardJsonFormat, sizes: Seq<(String, u64)>, c: PluginCapture) -> bool {
    let id = f.plugin_id@;
    let paths = data_paths(f.data);
    &&& finalized(c)
    &&& if id == "files"@ {
        files_like(c, import_lines(paths, sizes), paths.len(), paths)
    } else if id == "image"@ {
        image_imported(c, string_data(f.data)->0)
    } else if id == "text"@ {
        text_like(c, string_data(f.data)->0, "text"@, 2, "text__content.txt"@)
    } else {
        text_like(c, string_data(f.data)->0, "html"@, 3, "html__content.html"@)
    }
}

/// What the format puts back on the clipboard.
pub open spec fn format_contents(f: ClipboardJsonFormat) -> Seq<ContentView> {
    let id = f.plugin_id@;
    if id == "files"@ {
        seq![ContentView::Files(data_paths(f.data).map_values(|p: Seq<char>| file_url(p)))]
    } else if id == "image"@ {
        let (mime, raw) = data_url_spec(string_data(f.data)->0)->Ok_0;
        seq![
            ContentView::Image(image_png(mime, raw)),
            ContentView::Other("public.png"@, image_png(mime, raw)),
        ]
    } else if id == "text"@ {
        seq![ContentView::Text(string_data(f.data)->0)]
    } else {
        seq![ContentView::Html(string_data(f.data)->0)]
    }
}

/// The error of the first format that cannot be imported.
pub open spec fn first_error(fs: Seq<ClipboardJsonFormat>) -> Option<Seq<char>>
    decreases fs.len(),
{
    if fs.len() == 0 {
        None
    } else {
        match first_error(fs.drop_last()) {
            Some(e) => Some(e),
            None => format_error(fs.last()),
        }
    }
}

/// What all formats put back on the clipboard, in order.
pub open spec fn all_contents(fs: Seq<ClipboardJsonFormat>) -> Seq<ContentView>
    decreases fs.len(),
{
    if fs.len() == 0 {
        Seq::empty()
    } else {
        all_contents(fs.drop_last()) + format_contents(fs.last())
    }
}

/// Hands one format to the plugin with its id.
fn import_format(f: &ClipboardJsonFormat, sizes: &Vec<(String, u64)>) -> (r: Result<PluginImport, String>)
    ensures
        format_error(*f) matches Some(e) ==> (r matches Err(re) && re@ == e),
        format_error(*f) is None ==> (r matches Ok(imp) && format_imported(*f, sizes@, imp.capture)
            && content_views(imp.clipboard_contents@) == format_contents(*f)),
{
    proof {
        reveal_strlit("files");
        reveal_strlit("image");
        reveal_strlit("text");
        reveal_strlit("html");
        reveal_strlit("rtf");
        assert("files"@.len() == 5 && "image"@.len() == 5 && "text"@.len() == 4);
        assert("html"@.len() == 4 && "rtf"@.len() == 3);
        assert("files"@[0] != "image"@[0] && "text"@[0] != "html"@[0]);
    }
    let id = f.plugin_id.as_str();
    if str_eq(id, "files") {
        crate::plugins::FilesPlugin.import_json(f, sizes)
    } else if str_eq(id, "image") {
        crate::plugins::ImagePlugin.import_json(f)
    } else if str_eq(id, "text") {
        crate::plugins::TextPlugin.import_json(f)
    } else if str_eq(id, "html") {
        crate::plugins::HtmlPlugin.import_json(f)
    } else if str_eq(id, "rtf") {
        Err("rtf plugin does not import exported data".to_string())
    } else {
        Err(concat("Unknown clipboard plugin ", id))
    }
}

/// Hands every format of an item to its plugin, in order.  An item without
/// formats, or with a format that cannot be imported, is refused with the
/// first such error; the sizes on disk describe imported files.
pub fn prepare_import(item: &ClipboardJsonFullItem, sizes: &Vec<(String, u64)>) -> (r: Result<
    ClipboardJsonImport,
    String,
>)
    ensures
        item.formats@.len() == 0 ==> (r matches Err(e) && e@ == "clipboard item includes no formats"@),
        item.formats@.len() > 0 && first_error(item.formats@) is Some ==> (r matches Err(re) && re@
            == first_error(item.formats@)->0),
        item.formats@.len() > 0 && first_error(item.formats@) is None ==> (r matches Ok(imp)
            && imp.captures@.len() == item.formats@.len() && (forall|j: int|
            0 <= j < item.formats@.len() ==> #[trigger] format_imported(
                item.formats@[j],
                sizes@,
                imp.captures@[j],
            )) && content_views(imp.clipboard_contents@) == all_contents(item.formats@)),
{
    if item.formats.len() == 0 {
        return Err("clipboard item includes no formats".to_string());
    }
    let ghost fs = item.formats@;
    let mut captures: Vec<PluginCapture> = Vec::new();
    let mut contents: Vec<ImportContent> = Vec::new();
    let mut i: usize = 0;
    while i < item.formats.len()
        invariant
            i <= item.formats.len(),
            fs == item.formats@,
            first_error(fs.take(i as int)) is None,
            captures@.len() == i,
            forall|j: int| 0 <= j < i ==> #[trigger] format_imported(fs[j], sizes@, captures@[j]),
            content_views(contents@) == all_contents(fs.take(i as int)),
        decreases item.formats.len() - i,
    {
        assert(fs.take(i + 1).drop_last() =~= fs.take(i as int));
        assert(fs.take(i + 1).last() == fs[i as int]);
        let imp = match import_format(&item.formats[i], sizes) {
            Ok(imp) => imp,
            Err(e) => {
                proof {
                    lemma_first_error_stays(fs, i as int + 1);
                }
                return Err(e);
            },
        };
        let ghost before = content_views(contents@);
        let PluginImport { capture, clipboard_contents } = imp;
        captures.push(capture);
        let mut extra = clipboard_contents;
        contents.append(&mut extra);
        assert(content_views(contents@) =~= before + format_contents(fs[i as int]));
        i = i + 1;
    }
    assert(fs.take(item.formats.len() as int) =~= fs);
    Ok(ClipboardJsonImport { captures, clipboard_contents: contents })
}

/// Once some prefix of the formats has an error, the whole list has that
/// first error.
proof fn lemma_first_error_stays(fs: Seq<ClipboardJsonFormat>, n: int)
    requires
        0 <= n <= fs.len(),
        first_error(fs.take(n)) is Some,
    ensures
        first_error(fs) == first_error(fs.take(n)),
    decreases fs.len() - n,
{
    if n < fs.len() {
        assert(fs.take(n + 1).drop_last() =~= fs.take(n));
        lemma_first_error_stays(fs, n + 1);
    } else {
        assert(fs.take(n) =~= fs);
    }
}

// ---------------------------------------------------------------------------
// Storing and copying whole items
// ---------------------------------------------------------------------------

/// What identifies each format of an item that has no id: its plugin id,
/// its data, and its metadata unless that is null.  Serialized as a JSON
/// array of objects with the members `pluginId`, `data` and `metadata`, it
/// is what `compute_json_item_hash` digests.
pub fn hash_parts<'a>(item: &'a ClipboardJsonFullItem) -> (r: Vec<(&'a String, &'a Json, Option<&'a Json>)>)
    ensures
        r@.len() == item.formats@.len(),
        forall|j: int|
            0 <= j < r@.len() ==> {
                &&& (#[trigger] r@[j]).0 == item.formats@[j].plugin_id
                &&& r@[j].1 == item.formats@[j].data
                &&& r@[j].2 == (if item.formats@[j].metadata is Null {
                    None
                } else {
                    Some(&item.formats@[j].metadata)
                })
            },
{
    let mut r: Vec<(&'a String, &'a Json, Option<&'a Json>)> = Vec::new();
    let mut i: usize = 0;
    while i < item.formats.len()
        invariant
            i <= item.formats.len(),
            r@.len() == i,
            forall|j: int|
                0 <= j < i ==> {
                    &&& (#[trigger] r@[j]).0 == item.formats@[j].plugin_id
                    &&& r@[j].1 == item.formats@[j].data
                    &&& r@[j].2 == (if item.formats@[j].metadata is Null {
                        None
                    } else {
                        Some(&item.formats@[j].metadata)
                    })
                },
        decreases item.formats.len() - i,
    {
        let f = &item.formats[i];
        let meta = match &f.metadata {
            Json::Null => None,
            m => Some(m),
        };
        r.push((&f.plugin_id, &f.data, meta));
        i = i + 1;
    }
    r
}

/// The hash of an item without an id: the hex SHA-256 digest of its
/// serialized `hash_parts`.
pub fn compute_json_item_hash(serialized_parts: &[u8]) -> (r: String)
    ensures
        r@ == crate::digest::hex_lower(crate::digest::sha256_of(serialized_parts@)),
{
    let digest = crate::digest::sha256(serialized_parts);
    crate::digest::hex_encode(digest.as_slice())
}

/// The id an item brings, trimmed, when it is not blank.
pub open spec fn given_id(item: ClipboardJsonFullItem) -> Option<Seq<char>> {
    match item.id {
        Some(id) => if trim(id@).len() > 0 { Some(trim(id@)) } else { None },
        None => None,
    }
}

/// The whole second a date names (the seconds part of the moment), when
/// there is one and it parses.
pub open spec fn date_of(raw: Option<String>) -> Option<int> {
    match raw {
        Some(d) => match crate::timefmt::parse_date_spec(d@) {
            Some(m) => Some(m.0),
            None => None,
        },
        None => None,
    }
}

/// Everything that storing an imported item hands to `persist_entry`.
pub struct JsonItemEntry {
    pub hash: String,
    pub timestamp: i64,
    pub first_seen: Option<i64>,
    pub captures: Vec<PluginCapture>,
    pub summary: Option<String>,
    pub detected_formats: Vec<String>,
    pub sources: Vec<String>,
    pub copy_count: u64,
    pub search_text: Option<String>,
}

/// Prepares an exported item for storing: its formats are imported as
/// `prepare_import` does; its hash is its id, trimmed, or else the digest
/// of its serialized `hash_parts`; its date, when it parses, is its time
/// (else the current time); its first date, when it parses, is when it was
/// first seen; its detected formats, when it lists none, are those of its
/// captures; its copy count is the one it gives, else 1; its summary,
/// sources and search text are kept.
pub fn store_json_item(
    item: &ClipboardJsonFullItem,
    sizes: &Vec<(String, u64)>,
    serialized_parts: &[u8],
) -> (r: Result<JsonItemEntry, String>)
    ensures
        item.formats@.len() == 0 ==> (r matches Err(e) && e@ == "clipboard item includes no formats"@),
        item.formats@.len() > 0 && first_error(item.formats@) is Some ==> (r matches Err(re) && re@
            == first_error(item.formats@)->0),
        item.formats@.len() > 0 && first_error(item.formats@) is None ==> (r matches Ok(entry) && {
            &&& entry.captures@.len() == item.formats@.len()
            &&& forall|j: int|
                0 <= j < item.formats@.len() ==> #[trigger] format_imported(
                    item.formats@[j],
                    sizes@,
                    entry.captures@[j],
                )
            &&& entry.hash@ == (match given_id(*item) {
                Some(id) => id,
                None => crate::digest::hex_lower(crate::digest::sha256_of(serialized_parts@)),
            })
            &&& (date_of(item.date) is Some ==> entry.timestamp == date_of(item.date)->0)
            &&& (date_of(item.date) is None ==> crate::timefmt::valid_timestamp(
                entry.timestamp as int,
            ))
            &&& (date_of(item.first_date) is Some ==> entry.first_seen == Some(
                date_of(item.first_date)->0 as i64,
            ))
            &&& (date_of(item.first_date) is None ==> entry.first_seen is None)
            &&& (item.detected_formats@.len() > 0 ==> strs(entry.detected_formats@) == strs(
                item.detected_formats@,
            ))
            &&& (item.detected_formats@.len() == 0 ==> strs(entry.detected_formats@)
                == crate::lists::firsts(
                entry.captures@.map_values(
                    |c: PluginCapture| crate::store::format_label(c.plugin_id@),
                ),
            ))
            &&& opt_str(entry.summary) == opt_str(item.summary)
            &&& strs(entry.sources@) == strs(item.sources@)
            &&& entry.copy_count == (match item.copy_count {
                Some(n) => n,
                None => 1,
            })
            &&& opt_str(entry.search_text) == opt_str(item.search_text)
        }),
{
    let import = match prepare_import(item, sizes) {
        Ok(i) => i,
        Err(e) => {
            return Err(e);
        },
    };
    let timestamp = match &item.date {
        Some(raw) => match crate::timefmt::parse_absolute_date(raw.as_str()) {
            Ok(t) => t.0,
            Err(_) => crate::timefmt::now(),
        },
        None => crate::timefmt::now(),
    };
    let first_seen = match &item.first_date {
        Some(raw) => match crate::timefmt::parse_absolute_date(raw.as_str()) {
            Ok(t) => Some(t.0),
            Err(_) => None,
        },
        None => None,
    };
    let given = match &item.id {
        Some(id) => {
            let t = trimmed(id.as_str());
            if t.as_str().is_empty() {
                None
            } else {
                Some(t)
            }
        },
        None => None,
    };
    let hash = match given {
        Some(t) => t,
        None => compute_json_item_hash(serialized_parts),
    };
    let detected = if item.detected_formats.len() > 0 {
        crate::model::clone_strings(&item.detected_formats)
    } else {
        crate::store::inferred_detected_formats(import.captures.as_slice())
    };
    let copy_count: u64 = match item.copy_count {
        Some(n) => n,
        None => 1,
    };
    Ok(
        JsonItemEntry {
            hash,
            timestamp,
            first_seen,
            captures: import.captures,
            summary: crate::model::clone_opt(&item.summary),
            detected_formats: detected,
            sources: crate::model::clone_strings(&item.sources),
            copy_count,
            search_text: crate::model::clone_opt(&item.search_text),
        },
    )
}

/// Every format puts something on the clipboard.
proof fn lemma_contents_nonempty(fs: Seq<ClipboardJsonFormat>)
    requires
        fs.len() > 0,
    ensures
        all_contents(fs).len() > 0,
{
    assert(format_contents(fs.last()).len() > 0);
}

/// What copying an exported item puts on the clipboard: the contents of
/// all its formats, in order; an item whose formats put nothing there is
/// refused.
pub fn copy_json_item(item: &ClipboardJsonFullItem, sizes: &Vec<(String, u64)>) -> (r: Result<
    Vec<ImportContent>,
    String,
>)
    ensures
        item.formats@.len() == 0 ==> (r matches Err(e) && e@ == "clipboard item includes no formats"@),
        item.formats@.len() > 0 && first_error(item.formats@) is Some ==> (r matches Err(re) && re@
            == first_error(item.formats@)->0),
        item.formats@.len() > 0 && first_error(item.formats@) is None ==> (r matches Ok(c)
            && content_views(c@) == all_contents(item.formats@) && c@.len() > 0),
{
    let import = match prepare_import(item, sizes) {
        Ok(i) => i,
        Err(e) => {
            return Err(e);
        },
    };
    proof {
        lemma_contents_nonempty(item.formats@);
    }
    if import.clipboard_contents.len() == 0 {
        return Err("Clipboard payload included no formats".to_string());
    }
    Ok(import.clipboard_contents)
}

// ---------------------------------------------------------------------------
// Exporting stored entries
// ---------------------------------------------------------------------------

/// The MIME type noted for a stored image, `image/png` when none is.
pub open spec fn noted_image_mime(meta: Json) -> Seq<char> {
    match str_member(meta, "mime"@) {
        Some(m) => m,
        None => "image/png"@,
    }
}

/// A MIME type written plainly: not empty, neither beginning nor ending
/// with whitespace, without commas or semicolons, and not `base64`.
pub open spec fn plain_mime(m: Seq<char>) -> bool {
    &&& m.len() > 0
    &&& !is_ws(m[0])
    &&& !is_ws(m.last())
    &&& forall|i: int| 0 <= i < m.len() ==> m[i] != ',' && m[i] != ';'
    &&& ascii_lower_seq(m) != "base64"@
}

/// A base64 data URL of a plainly written MIME type reads back as that
/// type and the bytes it encodes.
proof fn lemma_data_url_reads_back(m: Seq<char>, enc: Seq<char>, bytes: Seq<u8>)
    requires
        plain_mime(m),
        forall|i: int| 0 <= i < enc.len() ==> crate::digest::base64_char(#[trigger] enc[i]),
        base64_standard_decoded(enc) == Some(bytes),
    ensures
        data_url_spec("data:"@ + m + ";base64,"@ + enc) == Ok::<(Seq<char>, Seq<u8>), Seq<char>>(
            (m, bytes),
        ),
{
    reveal_strlit("data:");
    reveal_strlit(";base64,");
    reveal_strlit("base64");
    let b = "base64"@;
    let u = "data:"@ + m + ";base64,"@ + enc;
    assert(u[0] == 'd');
    if enc.len() > 0 {
        assert(u.last() == enc[enc.len() - 1]);
        assert(crate::digest::base64_char(enc[enc.len() - 1]));
    } else {
        assert(u.last() == ',');
    }
    crate::text::lemma_trim_plain(u);
    assert(u.take(5) =~= "data:"@);
    let rest = u.skip(5);
    let i: int = m.len() as int + 7;
    assert(rest =~= m + ";base64"@.push(',') + enc) by {
        reveal_strlit(";base64");
    }
    reveal_strlit(";base64");
    assert(first_at(rest, ',', i)) by {
        assert forall|j: int| 0 <= j < i implies rest[j] != ',' by {
            if j < m.len() {
                assert(rest[j] == m[j]);
            } else {
                assert(rest[j] == ";base64"@[j - m.len()]);
            }
        }
    }
    let k = choose|k: int| first_at(rest, ',', k);
    lemma_first_at_unique(rest, ',', i, k);
    let header = rest.take(i);
    assert(header =~= m.push(';') + b);
    assert(rest.skip(i + 1) =~= enc);
    assert forall|j: int| 0 <= j < b.len() implies b[j] != ';' by {}
    crate::text::lemma_split_then_piece(m, ';', b);
    crate::text::lemma_split_without_sep(m, ';');
    let segs = crate::text::split_spec(header, ';');
    assert(segs =~= seq![m, b]);
    crate::text::lemma_trim_plain(b);
    crate::text::lemma_trim_plain(m);
    assert(ascii_lower_seq(b) =~= b);
    assert(trim(segs[1]) == b);
    assert(header_base64(segs));
    assert(segs.drop_last() =~= seq![m]);
    assert(seq![m].drop_last() =~= Seq::<Seq<char>>::empty());
    assert(header_mime(seq![m]) == m);
    assert(header_mime(segs) == m);
}

/// The image plugin's export: its stored image as a base64 `data:` URL,
/// typed by the MIME type noted for it.  Read back, a URL of a plainly
/// written type gives that type and the same bytes.
pub fn image_data_url(plugin_meta: &Json, bytes: &[u8]) -> (r: String)
    ensures
        r@ == "data:"@ + noted_image_mime(*plugin_meta) + ";base64,"@
            + crate::digest::base64_standard_encoded(bytes@),
        plain_mime(noted_image_mime(*plugin_meta)) ==> data_url_spec(r@) == Ok::<
            (Seq<char>, Seq<u8>),
            Seq<char>,
        >((noted_image_mime(*plugin_meta), bytes@)),
{
    let mime = match plugin_meta.get("mime") {
        Some(Json::Str(m)) => m.clone(),
        _ => "image/png".to_string(),
    };
    let enc = crate::digest::base64_encode(bytes);
    let mut r = concat("data:", mime.as_str());
    r.append(";base64,");
    r.append(enc.as_str());
    proof {
        if plain_mime(noted_image_mime(*plugin_meta)) {
            lemma_data_url_reads_back(mime@, enc@, bytes@);
        }
    }
    r
}

/// The files plugin's export: the entries it recorded.
pub fn exported_entries(plugin_meta: &Json) -> (r: Result<&Vec<Json>, String>)
    ensures
        get_spec(*plugin_meta, "entries"@) matches Some(Json::Array(a)) ==> (r matches Ok(e) && e@
            == a@),
        !(get_spec(*plugin_meta, "entries"@) matches Some(Json::Array(_))) ==> (r matches Err(e)
            && e@ == "file plugin metadata missing entries"@),
{
    match plugin_meta.get("entries") {
        Some(Json::Array(a)) => Ok(a),
        _ => Err("file plugin metadata missing entries".to_string()),
    }
}

/// The kind, priority and entry kind of the plugin with an id.
pub open spec fn plugin_identity(id: Seq<char>) -> Option<(Seq<char>, u8, EntryKind)> {
    if id == "files"@ {
        Some(("file"@, 0u8, EntryKind::File))
    } else if id == "image"@ {
        Some(("image"@, 1u8, EntryKind::Image))
    } else if id == "text"@ {
        Some(("text"@, 2u8, EntryKind::Text))
    } else if id == "html"@ {
        Some(("html"@, 3u8, EntryKind::Text))
    } else if id == "rtf"@ {
        Some(("rtf"@, 4u8, EntryKind::Text))
    } else {
        None
    }
}

/// One exported format: the identity of the plugin with the id, its data
/// and its metadata; `None` for an id that no plugin has.
pub fn export_format(plugin_id: &str, data: Json, metadata: Json) -> (r: Option<ClipboardJsonFormat>)
    ensures
        plugin_identity(plugin_id@) is None ==> r is None,
        plugin_identity(plugin_id@) matches Some((kind, priority, entry_kind)) ==> (r matches Some(f)
            && f.plugin_id@ == plugin_id@ && opt_str(f.kind) == Some(kind) && f.priority == Some(
            priority,
        ) && f.entry_kind == Some(entry_kind) && f.data == data && f.metadata == metadata),
{
    proof {
        reveal_strlit("files");
        reveal_strlit("image");
        reveal_strlit("text");
        reveal_strlit("html");
        reveal_strlit("rtf");
        assert("files"@.len() == 5 && "image"@.len() == 5 && "text"@.len() == 4);
        assert("html"@.len() == 4 && "rtf"@.len() == 3);
        assert("files"@[0] != "image"@[0] && "text"@[0] != "html"@[0]);
    }
    let (kind, priority, entry_kind) = if str_eq(plugin_id, "files") {
        ("file", 0u8, EntryKind::File)
    } else if str_eq(plugin_id, "image") {
        ("image", 1u8, EntryKind::Image)
    } else if str_eq(plugin_id, "text") {
        ("text", 2u8, EntryKind::Text)
    } else if str_eq(plugin_id, "html") {
        ("html", 3u8, EntryKind::Text)
    } else if str_eq(plugin_id, "rtf") {
        ("rtf", 4u8, EntryKind::Text)
    } else {
        return None;
    };
    Some(
        ClipboardJsonFormat {
            plugin_id: owned(plugin_id),
            kind: Some(owned(kind)),
            priority: Some(priority),
            entry_kind: Some(entry_kind),
            data,
            metadata,
        },
    )
}

/// A stored entry in the export format: its hash as id, its times in ISO
/// 8601, its summary, kind, size, copy count, detected formats, sources and
/// search text, where its data lives, and its exported formats.
pub fn build_full_json_item(
    metadata: &crate::model::EntryMetadata,
    index: Option<usize>,
    real_index: Option<usize>,
    data_path: String,
    formats: Vec<ClipboardJsonFormat>,
) -> (r: ClipboardJsonFullItem)
    requires
        crate::timefmt::valid_timestamp(metadata.last_seen as int),
        crate::timefmt::valid_timestamp(metadata.first_seen as int),
    ensures
        r.index == index,
        r.real_index == real_index,
        opt_str(r.id) == Some(metadata.hash@),
        opt_str(r.date) == Some(crate::timefmt::iso_text(metadata.last_seen as int)),
        opt_str(r.first_date) == Some(crate::timefmt::iso_text(metadata.first_seen as int)),
        opt_str(r.summary) == opt_str(metadata.summary),
        opt_str(r.item_type) == Some(crate::store::kind_name(metadata.kind)),
        r.size == Some(metadata.byte_size),
        r.copy_count == Some(metadata.copy_count),
        strs(r.detected_formats@) == strs(metadata.detected_formats@),
        strs(r.sources@) == strs(metadata.sources@),
        opt_str(r.search_text) == opt_str(metadata.search_text),
        opt_str(r.data_path) == Some(data_path@),
        r.formats == formats,
{
    ClipboardJsonFullItem {
        index,
        real_index,
        id: Some(metadata.hash.clone()),
        date: Some(crate::timefmt::format_iso(metadata.last_seen)),
        first_date: Some(crate::timefmt::format_iso(metadata.first_seen)),
        summary: crate::model::clone_opt(&metadata.summary),
        item_type: Some(crate::store::kind_label(metadata.kind)),
        size: Some(metadata.byte_size),
        copy_count: Some(metadata.copy_count),
        detected_formats: crate::model::clone_strings(&metadata.detected_formats),
        sources: crate::model::clone_strings(&metadata.sources),
        search_text: crate::model::clone_opt(&metadata.search_text),
        data_path: Some(data_path),
        formats,
    }
}

/// An entry in the simple JSON format: one of its formats, with its data.
pub struct ClipboardJsonItem {
    pub index: usize,
    pub real_index: Option<usize>,
    pub id: String,
    pub date: String,
    pub first_date: Option<String>,
    pub item_type: String,
    pub size: u64,
    pub data_path: String,
    pub data: Json,
    pub summary: Option<String>,
    pub copy_count: Option<u64>,
    pub detected_formats: Option<Vec<String>>,
}

/// The plugin whose format stands for an entry in the simple JSON format:
/// the first, the preferred one before the entry's order, that has metadata
/// and is known.  An entry without plugin metadata, or with no such
/// plugin, is refused.
pub fn json_item_plugin(metadata: &crate::model::EntryMetadata, preferred: Option<&str>) -> (r: Result<String, String>)
    ensures
        !(get_spec(metadata.extra, "plugins"@) matches Some(Json::Object(_))) ==> (r matches Err(e)
            && e@ == "Missing plugin metadata for "@ + metadata.hash@),
        get_spec(metadata.extra, "plugins"@) matches Some(Json::Object(m)) ==> match crate::display::first_displayable(
            crate::display::display_candidates(
                match preferred {
                    Some(p) => Some(p@),
                    None => None,
                },
                crate::plugins::order_spec(metadata.extra, m@),
            ),
            m@,
        ) {
            Some(id) => r matches Ok(i) && i@ == id,
            None => r matches Err(e) && e@ == "No plugin could build JSON item for "@ + metadata.hash@,
        },
{
    let (order, map) = match crate::plugins::extract_plugin_meta(metadata) {
        Some(x) => x,
        None => {
            return Err(concat("Missing plugin metadata for ", metadata.hash.as_str()));
        },
    };
    let ghost gorder = strs(order@);
    let mut ids: Vec<String> = Vec::new();
    match preferred {
        Some(p) => ids.push(owned(p)),
        None => {},
    }
    let mut rest = order;
    ids.append(&mut rest);
    assert(strs(ids@) =~= crate::display::display_candidates(
        match preferred {
            Some(p) => Some(p@),
            None => None,
        },
        gorder,
    ));
    match crate::display::find_displayable(&ids, map) {
        Some(id) => Ok(id),
        None => Err(concat("No plugin could build JSON item for ", metadata.hash.as_str())),
    }
}

/// The kind of the plugin with an id.
pub open spec fn plugin_kind(id: Seq<char>) -> Seq<char> {
    match plugin_identity(id) {
        Some((kind, _, _)) => kind,
        None => id,
    }
}

/// An entry in the simple JSON format, standing for it by the format of the
/// plugin `plugin_id` with that format's exported data: its hash as id, its
/// times in ISO 8601, the plugin's kind as type, its size, where its data
/// lives, its summary, copy count and detected formats.
pub fn build_json_item(
    metadata: &crate::model::EntryMetadata,
    index: usize,
    real_index: Option<usize>,
    data_path: String,
    plugin_id: &str,
    data: Json,
) -> (r: ClipboardJsonItem)
    requires
        crate::timefmt::valid_timestamp(metadata.last_seen as int),
        crate::timefmt::valid_timestamp(metadata.first_seen as int),
        plugin_identity(plugin_id@) is Some,
    ensures
        r.index == index,
        r.real_index == real_index,
        r.id@ == metadata.hash@,
        r.date@ == crate::timefmt::iso_text(metadata.last_seen as int),
        opt_str(r.first_date) == Some(crate::timefmt::iso_text(metadata.first_seen as int)),
        r.item_type@ == plugin_kind(plugin_id@),
        r.size == metadata.byte_size,
        r.data_path@ == data_path@,
        r.data == data,
        opt_str(r.summary) == opt_str(metadata.summary),
        r.copy_count == Some(metadata.copy_count),
        r.detected_formats matches Some(d) && strs(d@) == strs(metadata.detected_formats@),
{
    let kind = match export_format(plugin_id, Json::Null, Json::Null) {
        Some(f) => match f.kind {
            Some(k) => k,
            None => owned(plugin_id),
        },
        None => owned(plugin_id),
    };
    ClipboardJsonItem {
        index,
        real_index,
        id: metadata.hash.clone(),
        date: crate::timefmt::format_iso(metadata.last_seen),
        first_date: Some(crate::timefmt::format_iso(metadata.first_seen)),
        item_type: kind,
        size: metadata.byte_size,
        data_path,
        data,
        summary: crate::model::clone_opt(&metadata.summary),
        copy_count: Some(metadata.copy_count),
        detected_formats: Some(crate::model::clone_strings(&metadata.detected_formats)),
    }
}

// ---------------------------------------------------------------------------
// Exporting, then importing
// ---------------------------------------------------------------------------

/// An image exported as a `data:` URL of type `image/png` imports back with
/// the same bytes: the import fails exactly when the bytes do not decode as
/// an image, and otherwise stores them unchanged, noted as `image/png`.
pub proof fn law_image_round_trip(data: Json, bytes: Seq<u8>)
    requires
        string_data(data) is Some,
        data_url_spec(string_data(data)->0) == Ok::<(Seq<char>, Seq<u8>), Seq<char>>(
            ("image/png"@, bytes),
        ),
    ensures
        image_import_error(data) is None <==> decoded_size(bytes) is Some,
        decoded_size(bytes) is None ==> image_import_error(data) == Some("Failed to decode image data"@),
        forall|c: PluginCapture|
            image_imported(c, string_data(data)->0) ==> one_file(c, "image__full.png"@, bytes)
                && str_member(c.metadata, "mime"@) == Some("image/png"@) && c.byte_size == bytes.len(),
{
}

/// `image/png` is written plainly, so an image noted as `image/png`
/// exports to a URL that reads back as `image/png` and its bytes.
pub proof fn lemma_png_plain()
    ensures
        plain_mime("image/png"@),
{
    reveal_strlit("image/png");
    reveal_strlit("base64");
    assert(ascii_lower_seq("image/png"@).len() != "base64"@.len());
}

/// The entries that the files plugin records name each file under
/// `source_path`, so importing exported entries gives back the recorded
/// paths, in order.
pub proof fn law_files_round_trip(entries: Seq<Json>, paths: Seq<Seq<char>>)
    requires
        entries.len() == paths.len(),
        forall|i: int| 0 <= i < entries.len() ==> str_member(#[trigger] entries[i], "source_path"@) == Some(paths[i]),
    ensures
        import_paths(entries) == paths,
    decreases entries.len(),
{
    if entries.len() > 0 {
        let n = entries.len() - 1;
        assert(str_member(entries[n as int], "source_path"@) == Some(paths[n as int]));
        law_files_round_trip(entries.drop_last(), paths.drop_last());
        assert(paths.drop_last().push(paths.last()) =~= paths);
    } else {
        assert(paths =~= Seq::<Seq<char>>::empty());
    }
}

/// An item that keeps the id it was exported with (an entry's hash, which
/// has no surrounding whitespace) is stored under that id again.
pub proof fn law_import_keeps_exported_id(item: ClipboardJsonFullItem, h: Seq<char>)
    requires
        opt_str(item.id) == Some(h),
        h.len() > 0,
        !is_ws(h[0]),
        !is_ws(h.last()),
    ensures
        given_id(item) == Some(h),
{
    crate::text::lemma_trim_plain(h);
}

} // verus!
