//! A snapshot of what the clipboard held: its text, HTML, RTF, image and
//! files, the formats it offered, and the summaries and digests made of it.
//! Reading the clipboard and the file system is left to the caller, which
//! hands the values over.

use vstd::prelude::*;
use vstd::utf8::encode_utf8;
use crate::digest::{hex_encode, hex_lower, sha256, sha256_of};
use crate::item::{append_bytes, opt_bytes};
use crate::json::Json;
use crate::lists::{firsts, push_unique};
use crate::model::{opt_str, strs, EntryKind};
use crate::numfmt::{human_kb, human_kb_spec};
use crate::text::{
    concat, contains_seq, decimal, usize_to_string, flatten_lines, flattened, join_strings, joined_with,
    owned, split_char, split_spec, starts_with_seq, str_contains, str_starts_with, trim,
    trimmed, truncate_chars, truncated,
};

verus! {

/// One file that a plugin writes into an entry's directory.
pub struct FileOutput {
    pub filename: String,
    pub bytes: Vec<u8>,
}

/// A file that was on the clipboard.
pub struct FileRecord {
    pub name: String,
    pub extension: Option<String>,
    pub size: u64,
    pub source_path: String,
    pub mime: Option<String>,
}

/// What one offered format held, for the change log.
pub enum FormatPreview {
    Text(String),
    Binary(Vec<u8>),
    Empty,
}

/// Everything read from the clipboard at one moment.
pub struct ClipboardSnapshot {
    pub kind: EntryKind,
    pub text: Option<String>,
    pub html: Option<String>,
    pub rtf: Option<Vec<u8>>,
    pub image_bytes: Option<Vec<u8>>,
    pub image_mime: Option<String>,
    pub files: Vec<FileRecord>,
    pub summary: Option<String>,
    pub detected_formats: Vec<String>,
    pub extra: Json,
    pub format_previews: Vec<(String, FormatPreview)>,
}

// ---------------------------------------------------------------------------
// Outside calls: MIME guessing, file URLs, paths, lossy UTF-8
// ---------------------------------------------------------------------------

/// The first MIME type that `mime_guess` knows for a file extension.
pub uninterp spec fn mime_of_ext(ext: Seq<char>) -> Option<Seq<char>>;

/// `mime_guess::from_ext(ext).first_raw()`; named `mime_of_ext`.  An empty
/// extension has no MIME type.
#[verifier::external_body]
pub fn mime_for_extension(ext: &str) -> (r: Option<String>)
    ensures
        r matches Some(m) ==> mime_of_ext(ext@) == Some(m@),
        r is None ==> mime_of_ext(ext@) is None,
        ext@.len() == 0 ==> r is None,
{
    mime_guess::from_ext(ext).first_raw().map(String::from)
}

/// The scheme of the URL that `Url::parse` reads from the text; `None`
/// when the text is no URL.
pub uninterp spec fn url_scheme(raw: Seq<char>) -> Option<Seq<char>>;

/// The local path that `Url::to_file_path` gives for the URL read from the
/// text, lossily as text; `None` when it gives none.
pub uninterp spec fn url_file_path(raw: Seq<char>) -> Option<Seq<char>>;

/// `Url::parse`, then the URL's scheme and its `to_file_path`.  Named
/// `url_scheme` and `url_file_path`.
#[verifier::external_body]
fn parse_url(raw: &str) -> (r: Option<(String, Option<String>)>)
    ensures
        r is None <==> url_scheme(raw@) is None,
        r matches Some(u) ==> url_scheme(raw@) == Some(u.0@) && crate::model::opt_str(u.1)
            == url_file_path(raw@),
{
    match url::Url::parse(raw) {
        Ok(url) => Some((
            url.scheme().to_string(),
            url.to_file_path().ok().map(|p| p.to_string_lossy().into_owned()),
        )),
        Err(_) => None,
    }
}

/// Whether two paths are equal component by component (`Path == Path`).
pub uninterp spec fn path_eq(a: Seq<char>, b: Seq<char>) -> bool;

/// `Path::new(a) == Path::new(b)`; named `path_eq`.
#[verifier::external_body]
pub(crate) fn paths_equal(a: &str, b: &str) -> (r: bool)
    ensures
        r == path_eq(a@, b@),
{
    std::path::Path::new(a) == std::path::Path::new(b)
}

/// Whether `a` orders before `b` as paths (`Path < Path`, by components).
pub uninterp spec fn path_lt(a: Seq<char>, b: Seq<char>) -> bool;

/// `Path::new(a) < Path::new(b)`; named `path_lt`.
#[verifier::external_body]
fn path_less(a: &str, b: &str) -> (r: bool)
    ensures
        r == path_lt(a@, b@),
{
    std::path::Path::new(a) < std::path::Path::new(b)
}

/// The last component of a path (`Path::file_name`).
pub uninterp spec fn path_file_name(p: Seq<char>) -> Option<Seq<char>>;

/// `Path::file_name`, lossily as text; named `path_file_name`.
#[verifier::external_body]
fn file_name_of(p: &str) -> (r: Option<String>)
    ensures
        r matches Some(n) ==> path_file_name(p@) == Some(n@),
        r is None ==> path_file_name(p@) is None,
{
    std::path::Path::new(p).file_name().map(|s| s.to_string_lossy().into_owned())
}

/// The extension of a path's last component (`Path::extension`).
pub uninterp spec fn path_extension(p: Seq<char>) -> Option<Seq<char>>;

/// `Path::extension`, lossily as text; named `path_extension`.
#[verifier::external_body]
fn extension_of(p: &str) -> (r: Option<String>)
    ensures
        r matches Some(e) ==> path_extension(p@) == Some(e@),
        r is None ==> path_extension(p@) is None,
{
    std::path::Path::new(p).extension().map(|s| s.to_string_lossy().into_owned())
}

/// Bytes read as UTF-8, each invalid sequence replaced by U+FFFD
/// (`String::from_utf8_lossy`).
pub uninterp spec fn lossy_text(bytes: Seq<u8>) -> Seq<char>;

/// `String::from_utf8_lossy`; named `lossy_text`.
#[verifier::external_body]
pub fn utf8_lossy(bytes: &[u8]) -> (r: String)
    ensures
        r@ == lossy_text(bytes@),
{
    String::from_utf8_lossy(bytes).into_owned()
}

/// `String::from_utf8`: the text the bytes encode when they are valid
/// UTF-8, and `None` when they are not.
#[verifier::external_body]
fn utf8_text(bytes: &[u8]) -> (r: Option<String>)
    ensures
        r matches Some(t) ==> vstd::utf8::valid_utf8(bytes@) && t@ == vstd::utf8::decode_utf8(bytes@),
        r is None ==> !vstd::utf8::valid_utf8(bytes@),
{
    String::from_utf8(bytes.to_vec()).ok()
}

/// The text a preview shows of a content file's first bytes: none for no
/// bytes; the text when they are valid UTF-8; else, when they are all
/// ASCII, the text read leniently; else none.
pub open spec fn preview_text_of(bytes: Seq<u8>) -> Option<Seq<char>> {
    if bytes.len() == 0 {
        None
    } else if vstd::utf8::valid_utf8(bytes) {
        Some(vstd::utf8::decode_utf8(bytes))
    } else if forall|i: int| 0 <= i < bytes.len() ==> bytes[i] < 128 {
        Some(lossy_text(bytes))
    } else {
        None
    }
}

/// The text a preview shows of a content file's first bytes.
pub fn preview_text(bytes: &[u8]) -> (r: Option<String>)
    ensures
        opt_str(r) == preview_text_of(bytes@),
{
    if bytes.len() == 0 {
        return None;
    }
    match utf8_text(bytes) {
        Some(t) => Some(t),
        None => {
            let mut i: usize = 0;
            while i < bytes.len()
                invariant
                    i <= bytes.len(),
                    bytes@.len() > 0,
                    !vstd::utf8::valid_utf8(bytes@),
                    forall|k: int| 0 <= k < i ==> bytes@[k] < 128,
                decreases bytes.len() - i,
            {
                if bytes[i] >= 128 {
                    assert(!(bytes@[i as int] < 128));
                    return None;
                }
                i = i + 1;
            }
            Some(utf8_lossy(bytes))
        },
    }
}

// ---------------------------------------------------------------------------
// Summaries
// ---------------------------------------------------------------------------

/// The one-line summary of a text: trimmed, line breaks as spaces, at most
/// 120 characters.
pub open spec fn summary_spec(input: Seq<char>) -> Seq<char> {
    truncated(flatten_lines(trim(input)), 120)
}

/// The one-line summary of a text.
pub fn truncate_summary(input: &str) -> (r: String)
    ensures
        r@ == summary_spec(input@),
{
    let t = trimmed(input);
    let f = flattened(t.as_str());
    truncate_chars(f.as_str(), 120)
}

/// The preview of a format's text for the change log: trimmed, line breaks
/// as spaces, at most `max_len` characters.
pub fn truncate_preview(content: &str, max_len: usize) -> (r: String)
    ensures
        r@ == truncated(flatten_lines(trim(content@)), max_len as nat),
{
    let t = trimmed(content);
    let f = flattened(t.as_str());
    truncate_chars(f.as_str(), max_len)
}

/// How one file is described: `path (size KB - mime)`, `file` when the
/// MIME type is unknown.
pub open spec fn file_line(path: Seq<char>, size: nat, mime: Option<Seq<char>>) -> Seq<char> {
    let m = match mime {
        Some(m) => m,
        None => "file"@,
    };
    path + " ("@ + human_kb_spec(size) + " - "@ + m + ")"@
}

/// The descriptions of the files, in order.
pub open spec fn file_lines(files: Seq<FileRecord>) -> Seq<Seq<char>> {
    files.map_values(|f: FileRecord| record_line(f))
}

/// The description of a file record.
pub open spec fn record_line(f: FileRecord) -> Seq<char> {
    file_line(f.source_path@, f.size as nat, opt_str(f.mime))
}

/// The description of one file.
pub fn describe_file(f: &FileRecord) -> (r: String)
    ensures
        r@ == record_line(*f),
{
    let kb = human_kb(f.size);
    let mime = match &f.mime {
        Some(m) => m.clone(),
        None => "file".to_string(),
    };
    let mut r = concat(f.source_path.as_str(), " (");
    r.append(kb.as_str());
    r.append(" - ");
    r.append(mime.as_str());
    r.append(")");
    r
}

/// The descriptions of all files, one string each.
pub fn describe_files(files: &Vec<FileRecord>) -> (r: Vec<String>)
    ensures
        r@.map_values(|s: String| s@) == file_lines(files@),
{
    let mut r: Vec<String> = Vec::new();
    let mut i: usize = 0;
    while i < files.len()
        invariant
            i <= files.len(),
            r@.len() == i,
            forall|j: int| 0 <= j < i ==> #[trigger] r@[j]@ == record_line(files@[j]),
        decreases files.len() - i,
    {
        let d = describe_file(&files[i]);
        r.push(d);
        i = i + 1;
    }
    assert(r@.map_values(|s: String| s@) =~= file_lines(files@));
    r
}

/// The files described one after another, separated by `, `.
pub fn format_file_summary(files: &Vec<FileRecord>) -> (r: String)
    ensures
        r@ == joined_with(file_lines(files@), ", "@),
{
    let lines = describe_files(files);
    join_strings(&lines, ", ")
}

// ---------------------------------------------------------------------------
// Files on the clipboard
// ---------------------------------------------------------------------------

/// A path that the system made for a moment (a file reference, or under a
/// `/tmp/` directory), which the history does not keep.
pub open spec fn temporary_path(p: Seq<char>) -> bool {
    contains_seq(p, "/.file/id="@) || starts_with_seq(p, "/.file/"@) || contains_seq(p, "/tmp/"@)
}

/// Whether the path is a temporary one.
pub fn is_temporary_file(path: &str) -> (r: bool)
    ensures
        r == temporary_path(path@),
{
    str_contains(path, "/.file/id=") || str_starts_with(path, "/.file/") || str_contains(
        path,
        "/tmp/",
    )
}

/// The path that one line of a file reference names: a `file:` URL's local
/// path, else the trimmed line itself (also a URL of another scheme);
/// nothing for a blank line or a file URL that names no local path.
pub open spec fn reference_path(raw: Seq<char>) -> Option<Seq<char>> {
    let t = trim(raw);
    if t.len() == 0 {
        None
    } else {
        match url_scheme(t) {
            Some(scheme) => if scheme == "file"@ {
                url_file_path(t)
            } else {
                Some(t)
            },
            None => Some(t),
        }
    }
}

/// The path named by one line of a file reference.
pub fn parse_clipboard_file_reference(raw: &str) -> (r: Option<String>)
    ensures
        r matches Some(p) ==> reference_path(raw@) == Some(p@),
        r is None ==> reference_path(raw@) is None,
{
    let t = trimmed(raw);
    if t.as_str().is_empty() {
        return None;
    }
    match parse_url(t.as_str()) {
        Some((scheme, path)) => if crate::text::str_eq(scheme.as_str(), "file") {
            path
        } else {
            Some(t)
        },
        None => Some(t),
    }
}

/// All pieces of the references, each split at line breaks.
pub open spec fn all_pieces(raws: Seq<Seq<char>>) -> Seq<Seq<char>>
    decreases raws.len(),
{
    if raws.len() == 0 {
        Seq::empty()
    } else {
        all_pieces(raws.drop_last()) + split_spec(raws.last(), '\n')
    }
}

/// Some path of `t` equals `p`.
pub open spec fn path_in(t: Seq<Seq<char>>, p: Seq<char>) -> bool {
    exists|k: int| 0 <= k < t.len() && path_eq(#[trigger] t[k], p)
}

/// The distinct paths that the pieces name, in order of first mention.
pub open spec fn seen_paths(pieces: Seq<Seq<char>>) -> Seq<Seq<char>>
    decreases pieces.len(),
{
    if pieces.len() == 0 {
        Seq::empty()
    } else {
        let t = seen_paths(pieces.drop_last());
        match reference_path(pieces.last()) {
            Some(p) => if path_in(t, p) {
                t
            } else {
                t.push(p)
            },
            None => t,
        }
    }
}

/// The paths that are not temporary, in order.
pub open spec fn kept_paths(s: Seq<Seq<char>>) -> Seq<Seq<char>>
    decreases s.len(),
{
    if s.len() == 0 {
        s
    } else {
        let t = kept_paths(s.drop_last());
        if temporary_path(s.last()) {
            t
        } else {
            t.push(s.last())
        }
    }
}

/// The files that the clipboard's file references name: each line of each
/// reference read as a path, repeats dropped, temporary paths left out.
pub open spec fn referenced_paths(raws: Seq<Seq<char>>) -> Seq<Seq<char>> {
    kept_paths(seen_paths(all_pieces(raws)))
}

/// Whether some path of `seen` equals `p`.
fn seen_contains(seen: &Vec<String>, p: &str) -> (r: bool)
    ensures
        r == path_in(strs(seen@), p@),
{
    let mut i: usize = 0;
    while i < seen.len()
        invariant
            i <= seen.len(),
            forall|k: int| 0 <= k < i ==> !path_eq(#[trigger] strs(seen@)[k], p@),
        decreases seen.len() - i,
    {
        if paths_equal(seen[i].as_str(), p) {
            assert(path_eq(strs(seen@)[i as int], p@));
            return true;
        }
        i = i + 1;
    }
    false
}

/// The local files named by the clipboard's file references, in order.
pub fn file_reference_paths(raw_files: &Vec<String>) -> (r: Vec<String>)
    ensures
        strs(r@) == referenced_paths(strs(raw_files@)),
{
    let ghost raws = strs(raw_files@);
    let mut seen: Vec<String> = Vec::new();
    let mut out: Vec<String> = Vec::new();
    let mut i: usize = 0;
    while i < raw_files.len()
        invariant
            i <= raw_files.len(),
            raws == strs(raw_files@),
            strs(seen@) == seen_paths(all_pieces(raws.take(i as int))),
            strs(out@) == kept_paths(strs(seen@)),
        decreases raw_files.len() - i,
    {
        let pieces = split_char(raw_files[i].as_str(), '\n');
        let ghost before = all_pieces(raws.take(i as int));
        assert(raws.take(i + 1).drop_last() =~= raws.take(i as int));
        assert(raws.take(i + 1).last() == raw_files@[i as int]@);
        let mut j: usize = 0;
        while j < pieces.len()
            invariant
                j <= pieces.len(),
                strs(seen@) == seen_paths(before + strs(pieces@).take(j as int)),
                strs(out@) == kept_paths(strs(seen@)),
            decreases pieces.len() - j,
        {
            let ghost old_seen = strs(seen@);
            assert((before + strs(pieces@).take(j + 1)).drop_last() =~= before + strs(
                pieces@,
            ).take(j as int));
            assert((before + strs(pieces@).take(j + 1)).last() == pieces@[j as int]@);
            match parse_clipboard_file_reference(pieces[j].as_str()) {
                Some(p) => {
                    if !seen_contains(&seen, p.as_str()) {
                        let temp = is_temporary_file(p.as_str());
                        seen.push(p.clone());
                        assert(strs(seen@) =~= old_seen.push(p@));
                        assert(strs(seen@).drop_last() =~= old_seen);
                        if !temp {
                            out.push(p);
                            assert(strs(out@) =~= kept_paths(old_seen).push(strs(seen@).last()));
                        }
                    }
                },
                None => {},
            }
            j = j + 1;
        }
        assert(before + strs(pieces@).take(pieces.len() as int) =~= all_pieces(
            raws.take(i + 1),
        ));
        i = i + 1;
    }
    assert(raws.take(raw_files.len() as int) =~= raws);
    out
}

/// The record of a file at `path` of `size` bytes: its name (the whole path
/// when it has no last component), extension and guessed MIME type.
pub open spec fn record_for(path: Seq<char>, size: nat, r: FileRecord) -> bool {
    &&& r.name@ == (match path_file_name(path) {
        Some(n) => n,
        None => path,
    })
    &&& opt_str(r.extension) == path_extension(path)
    &&& opt_str(r.mime) == (match path_extension(path) {
        Some(e) => mime_of_ext(e),
        None => None,
    })
    &&& r.size == size
    &&& r.source_path@ == path
}

/// Describes a file found on the clipboard, given its size on disk.
pub fn file_record(path: &str, size: u64) -> (r: FileRecord)
    ensures
        record_for(path@, size as nat, r),
{
    let name = match file_name_of(path) {
        Some(n) => n,
        None => owned(path),
    };
    let extension = extension_of(path);
    let mime = match &extension {
        Some(e) => mime_for_extension(e.as_str()),
        None => None,
    };
    FileRecord { name, extension, size, source_path: owned(path), mime }
}

// ---------------------------------------------------------------------------
// Putting a snapshot together
// ---------------------------------------------------------------------------

/// Where `x` goes among the sorted records `t`: in front of the first record
/// whose path orders after its own.
pub open spec fn path_insert_pos(t: Seq<FileRecord>, x: FileRecord) -> int
    decreases t.len(),
{
    if t.len() == 0 {
        0
    } else if path_lt(x.source_path@, t[0].source_path@) {
        0
    } else {
        1 + path_insert_pos(t.drop_first(), x)
    }
}

/// The records sorted by path; records with equal paths keep their order.
pub open spec fn sorted_by_path(s: Seq<FileRecord>) -> Seq<FileRecord>
    decreases s.len(),
{
    if s.len() == 0 {
        s
    } else {
        let t = sorted_by_path(s.drop_last());
        t.insert(path_insert_pos(t, s.last()), s.last())
    }
}

proof fn lemma_path_insert_pos_bound(t: Seq<FileRecord>, x: FileRecord)
    ensures
        0 <= path_insert_pos(t, x) <= t.len(),
    decreases t.len(),
{
    if t.len() > 0 {
        lemma_path_insert_pos_bound(t.drop_first(), x);
    }
}

proof fn lemma_sorted_by_path_len(s: Seq<FileRecord>)
    ensures
        sorted_by_path(s).len() == s.len(),
    decreases s.len(),
{
    if s.len() > 0 {
        lemma_sorted_by_path_len(s.drop_last());
        lemma_path_insert_pos_bound(sorted_by_path(s.drop_last()), s.last());
    }
}

/// The records sorted by path, stably.
pub fn sort_files_by_path(files: Vec<FileRecord>) -> (r: Vec<FileRecord>)
    ensures
        r@ == sorted_by_path(files@),
{
    let ghost orig = files@;
    assert(orig.len() == files.len());
    let mut rest = files;
    let mut out: Vec<FileRecord> = Vec::new();
    let mut k: usize = 0;
    while rest.len() > 0
        invariant
            k <= orig.len(),
            rest@.len() + k == orig.len(),
            orig.len() <= usize::MAX,
            rest@ == orig.skip(k as int),
            out@ == sorted_by_path(orig.take(k as int)),
        decreases rest.len(),
    {
        let x = rest.remove(0);
        let mut p: usize = 0;
        let ghost t = out@;
        proof {
            lemma_sorted_by_path_len(orig.take(k as int));
            assert(t.skip(0) =~= t);
        }
        while p < out.len() && !path_less(x.source_path.as_str(), out[p].source_path.as_str())
            invariant
                p <= out.len(),
                t == out@,
                path_insert_pos(t, x) == p + path_insert_pos(t.skip(p as int), x),
            decreases out.len() - p,
        {
            assert(t.skip(p as int)[0] == t[p as int]);
            assert(t.skip(p as int).drop_first() =~= t.skip(p + 1));
            p = p + 1;
        }
        proof {
            if p < out.len() {
                assert(t.skip(p as int)[0] == t[p as int]);
            }
            assert(orig.take(k + 1).drop_last() =~= orig.take(k as int));
            assert(orig.take(k + 1).last() == x);
            assert(orig.skip(k + 1) =~= orig.skip(k as int).drop_first());
        }
        out.insert(p, x);
        k = k + 1;
    }
    assert(orig.take(k as int) =~= orig);
    out
}

/// The kind of entry that a clipboard holding these contents makes.
pub open spec fn snapshot_kind(has_files: bool, has_image: bool, has_text: bool, has_html: bool) -> EntryKind {
    if has_files {
        EntryKind::File
    } else if has_image {
        EntryKind::Image
    } else if has_text || has_html {
        EntryKind::Text
    } else {
        EntryKind::Other
    }
}

/// A text kept only when it is not empty.
pub open spec fn nonempty_text(o: Option<Seq<char>>) -> Option<Seq<char>> {
    match o {
        Some(t) => if t.len() > 0 {
            Some(t)
        } else {
            None
        },
        None => None,
    }
}

fn keep_nonempty(o: Option<String>) -> (r: Option<String>)
    ensures
        opt_str(r) == nonempty_text(opt_str(o)),
{
    match o {
        Some(t) => if t.as_str().is_empty() {
            None
        } else {
            Some(t)
        },
        None => None,
    }
}

/// The snapshot that the clipboard's contents make, or `None` when the
/// clipboard offered no format or held nothing that is kept: the offered
/// formats without repeats, texts only when not empty, the RTF text as
/// bytes, a PNG image only when not empty (typed `image/png`), and the
/// files sorted by path.
pub fn assemble_snapshot(
    available_formats: Vec<String>,
    format_previews: Vec<(String, FormatPreview)>,
    text: Option<String>,
    html: Option<String>,
    rtf: Option<String>,
    png: Option<Vec<u8>>,
    files: Vec<FileRecord>,
) -> (r: Option<ClipboardSnapshot>)
    ensures
        available_formats@.len() == 0 ==> r is None,
        available_formats@.len() > 0 && files@.len() == 0 && nonempty_text(opt_str(text)) is None
            && nonempty_text(opt_str(html)) is None && nonempty_text(opt_str(rtf)) is None
            && (png is None || png->0@.len() == 0) ==> r is None,
        r matches Some(snap) ==> {
            &&& strs(snap.detected_formats@) == firsts(strs(available_formats@))
            &&& opt_str(snap.text) == nonempty_text(opt_str(text))
            &&& opt_str(snap.html) == nonempty_text(opt_str(html))
            &&& (match nonempty_text(opt_str(rtf)) {
                Some(t) => snap.rtf matches Some(b) && b@ == encode_utf8(t),
                None => snap.rtf is None,
            })
            &&& (match png {
                Some(b) => if b@.len() > 0 {
                    snap.image_bytes matches Some(x) && x@ == b@ && opt_str(snap.image_mime)
                        == Some("image/png"@)
                } else {
                    snap.image_bytes is None && snap.image_mime is None
                },
                None => snap.image_bytes is None && snap.image_mime is None,
            })
            &&& snap.files@ == sorted_by_path(files@)
            &&& snap.kind == snapshot_kind(
                files@.len() > 0,
                snap.image_bytes is Some,
                snap.text is Some,
                snap.html is Some,
            )
            &&& snap.summary is None
            &&& snap.extra == Json::Null
            &&& snap.format_previews@ == format_previews@
        },
        available_formats@.len() > 0 && !(files@.len() == 0 && nonempty_text(opt_str(text))
            is None && nonempty_text(opt_str(html)) is None && nonempty_text(opt_str(rtf)) is None
            && (png is None || png->0@.len() == 0)) ==> r is Some,
{
    if available_formats.len() == 0 {
        return None;
    }
    let mut detected: Vec<String> = Vec::new();
    let mut i: usize = 0;
    let ghost af = strs(available_formats@);
    while i < available_formats.len()
        invariant
            i <= available_formats.len(),
            af == strs(available_formats@),
            strs(detected@) == firsts(af.take(i as int)),
        decreases available_formats.len() - i,
    {
        assert(af.take(i + 1).drop_last() =~= af.take(i as int));
        assert(af.take(i + 1).last() == available_formats@[i as int]@);
        push_unique(&mut detected, available_formats[i].clone());
        i = i + 1;
    }
    assert(af.take(available_formats.len() as int) =~= af);
    let text = keep_nonempty(text);
    let html = keep_nonempty(html);
    let rtf_text = keep_nonempty(rtf);
    let rtf: Option<Vec<u8>> = match rtf_text {
        Some(t) => {
            let mut b: Vec<u8> = Vec::new();
            append_bytes(&mut b, t.as_str().as_bytes());
            assert(b@ =~= encode_utf8(t@));
            Some(b)
        },
        None => None,
    };
    let (image_bytes, image_mime) = match png {
        Some(b) => if b.len() > 0 {
            (Some(b), Some("image/png".to_string()))
        } else {
            (None, None)
        },
        None => (None, None),
    };
    if files.len() == 0 && text.is_none() && html.is_none() && rtf.is_none()
        && image_bytes.is_none() {
        return None;
    }
    let has_files = files.len() > 0;
    let files = sort_files_by_path(files);
    let kind = if has_files {
        EntryKind::File
    } else if image_bytes.is_some() {
        EntryKind::Image
    } else if text.is_some() || html.is_some() {
        EntryKind::Text
    } else {
        EntryKind::Other
    };
    Some(
        ClipboardSnapshot {
            kind,
            text,
            html,
            rtf,
            image_bytes,
            image_mime,
            files,
            summary: None,
            detected_formats: detected,
            extra: Json::Null,
            format_previews,
        },
    )
}

// ---------------------------------------------------------------------------
// Digest, sources and size
// ---------------------------------------------------------------------------

/// The `k` low bytes of `n`, least significant first.
pub open spec fn le_bytes(n: nat, k: nat) -> Seq<u8>
    decreases k,
{
    if k == 0 {
        Seq::empty()
    } else {
        seq![(n % 256) as u8] + le_bytes(n / 256, (k - 1) as nat)
    }
}

/// `n.to_le_bytes()`.
pub fn u64_le_bytes(n: u64) -> (r: Vec<u8>)
    ensures
        r@ == le_bytes(n as nat, 8),
{
    let mut r: Vec<u8> = Vec::new();
    let mut x: u64 = n;
    let mut i: usize = 0;
    while i < 8
        invariant
            i <= 8,
            r@ + le_bytes(x as nat, (8 - i) as nat) == le_bytes(n as nat, 8),
        decreases 8 - i,
    {
        let b = (x % 256) as u8;
        let ghost before = r@;
        r.push(b);
        assert(le_bytes(x as nat, (8 - i) as nat) == seq![b] + le_bytes((x / 256) as nat, (8 - i - 1) as nat));
        assert(r@ + le_bytes((x / 256) as nat, (8 - i - 1) as nat) =~= before + le_bytes(x as nat, (8 - i) as nat));
        x = x / 256;
        i = i + 1;
    }
    assert(r@ + le_bytes(x as nat, 0) =~= r@);
    r
}

/// What the content digest of one file covers: its path, its size as eight
/// little-endian bytes, and its MIME type when known.
pub open spec fn file_bytes(f: FileRecord) -> Seq<u8> {
    encode_utf8(f.source_path@) + le_bytes(f.size as nat, 8) + match f.mime {
        Some(m) => encode_utf8(m@),
        None => Seq::empty(),
    }
}

/// The files' digest input, one after another.
pub open spec fn files_bytes(fs: Seq<FileRecord>) -> Seq<u8>
    decreases fs.len(),
{
    if fs.len() == 0 {
        Seq::empty()
    } else {
        files_bytes(fs.drop_last()) + file_bytes(fs.last())
    }
}

/// The bytes that make an optional byte buffer; none for `None`.
pub open spec fn opt_buf(o: Option<Vec<u8>>) -> Seq<u8> {
    match o {
        Some(b) => b@,
        None => Seq::empty(),
    }
}

/// What the snapshot's digest covers: text, HTML, RTF, image, then files.
pub open spec fn snapshot_bytes(s: ClipboardSnapshot) -> Seq<u8> {
    opt_bytes(opt_str(s.text)) + opt_bytes(opt_str(s.html)) + opt_buf(s.rtf) + opt_buf(
        s.image_bytes,
    ) + files_bytes(s.files@)
}

/// The snapshot's HTML, empty when it has none.
pub open spec fn html_or_empty(s: ClipboardSnapshot) -> Seq<char> {
    match s.html {
        Some(h) => h@,
        None => Seq::empty(),
    }
}

/// Law: the digest input tells HTML apart.  Two snapshots with the same
/// text, RTF, image and files but different HTML (a missing HTML part
/// counting as empty) have different digest inputs, so a copy that carries
/// HTML is not taken for a plain-text copy of the same text.
pub proof fn law_digest_input_tells_html_apart(s1: ClipboardSnapshot, s2: ClipboardSnapshot)
    requires
        opt_str(s1.text) == opt_str(s2.text),
        opt_buf(s1.rtf) == opt_buf(s2.rtf),
        opt_buf(s1.image_bytes) == opt_buf(s2.image_bytes),
        s1.files@ == s2.files@,
        html_or_empty(s1) != html_or_empty(s2),
    ensures
        snapshot_bytes(s1) != snapshot_bytes(s2),
{
    let a = opt_bytes(opt_str(s1.text));
    let h1 = vstd::utf8::encode_utf8(html_or_empty(s1));
    let h2 = vstd::utf8::encode_utf8(html_or_empty(s2));
    let tail = opt_buf(s1.rtf) + opt_buf(s1.image_bytes) + files_bytes(s1.files@);
    assert(opt_bytes(opt_str(s1.html)) =~= h1);
    assert(opt_bytes(opt_str(s2.html)) =~= h2);
    assert(snapshot_bytes(s1) =~= a + h1 + tail);
    assert(snapshot_bytes(s2) =~= a + h2 + tail);
    if snapshot_bytes(s1) == snapshot_bytes(s2) {
        assert(h1.len() == h2.len());
        assert(h1 =~= snapshot_bytes(s1).subrange(a.len() as int, a.len() + h1.len() as int));
        assert(h2 =~= snapshot_bytes(s2).subrange(a.len() as int, a.len() + h2.len() as int));
        vstd::utf8::encode_utf8_decode_utf8(html_or_empty(s1));
        vstd::utf8::encode_utf8_decode_utf8(html_or_empty(s2));
    }
}

impl ClipboardSnapshot {
    /// The entry's identity: the hex SHA-256 of the SHA-256 digest of its
    /// contents.
    pub fn compute_hash(&self) -> (r: String)
        ensures
            r@ == hex_lower(sha256_of(sha256_of(snapshot_bytes(*self)))),
    {
        let mut buf: Vec<u8> = Vec::new();
        if let Some(t) = &self.text {
            append_bytes(&mut buf, t.as_str().as_bytes());
        }
        if let Some(h) = &self.html {
            append_bytes(&mut buf, h.as_str().as_bytes());
        }
        if let Some(r) = &self.rtf {
            append_bytes(&mut buf, r.as_slice());
        }
        if let Some(b) = &self.image_bytes {
            append_bytes(&mut buf, b.as_slice());
        }
        let ghost head = buf@;
        assert(head =~= opt_bytes(opt_str(self.text)) + opt_bytes(opt_str(self.html)) + opt_buf(
            self.rtf,
        ) + opt_buf(self.image_bytes));
        let mut i: usize = 0;
        while i < self.files.len()
            invariant
                i <= self.files.len(),
                buf@ == head + files_bytes(self.files@.take(i as int)),
            decreases self.files.len() - i,
        {
            let f = &self.files[i];
            assert(self.files@.take(i + 1).drop_last() =~= self.files@.take(i as int));
            append_bytes(&mut buf, f.source_path.as_str().as_bytes());
            let le = u64_le_bytes(f.size);
            append_bytes(&mut buf, le.as_slice());
            if let Some(m) = &f.mime {
                append_bytes(&mut buf, m.as_str().as_bytes());
            }
            i = i + 1;
            assert(buf@ =~= head + files_bytes(self.files@.take(i as int)));
        }
        assert(self.files@.take(self.files.len() as int) =~= self.files@);
        let inner = sha256(buf.as_slice());
        let outer = sha256(inner.as_slice());
        hex_encode(outer.as_slice())
    }

    /// The paths of the files, in order.
    pub fn sources(&self) -> (r: Vec<String>)
        ensures
            r@.len() == self.files@.len(),
            forall|j: int| 0 <= j < r@.len() ==> #[trigger] r@[j]@ == self.files@[j].source_path@,
    {
        let mut r: Vec<String> = Vec::new();
        let mut i: usize = 0;
        while i < self.files.len()
            invariant
                i <= self.files.len(),
                r@.len() == i,
                forall|j: int| 0 <= j < i ==> #[trigger] r@[j]@ == self.files@[j].source_path@,
            decreases self.files.len() - i,
        {
            r.push(self.files[i].source_path.clone());
            i = i + 1;
        }
        r
    }

    /// The total size in bytes of everything the snapshot holds.
    pub open spec fn size_spec(self) -> int {
        opt_bytes(opt_str(self.text)).len() + opt_bytes(opt_str(self.html)).len() + opt_buf(
            self.rtf,
        ).len() + opt_buf(self.image_bytes).len() + file_sizes(self.files@)
    }

    /// The total size in bytes of the contents and the files.
    pub fn total_size(&self) -> (r: u64)
        requires
            self.size_spec() <= u64::MAX,
        ensures
            r == self.size_spec(),
    {
        proof {
            lemma_file_sizes_prefix(self.files@, self.files@.len() as int);
            assert(self.files@.take(self.files@.len() as int) =~= self.files@);
        }
        let mut total: u64 = 0;
        if let Some(t) = &self.text {
            total = t.as_str().as_bytes().len() as u64;
        }
        if let Some(h) = &self.html {
            total = total + h.as_str().as_bytes().len() as u64;
        }
        if let Some(r) = &self.rtf {
            total = total + r.len() as u64;
        }
        if let Some(b) = &self.image_bytes {
            total = total + b.len() as u64;
        }
        let ghost head = total as int;
        let mut i: usize = 0;
        while i < self.files.len()
            invariant
                i <= self.files.len(),
                total == head + file_sizes(self.files@.take(i as int)),
                head + file_sizes(self.files@) <= u64::MAX,
            decreases self.files.len() - i,
        {
            assert(self.files@.take(i + 1).drop_last() =~= self.files@.take(i as int));
            proof {
                lemma_file_sizes_prefix(self.files@, i as int + 1);
            }
            total = total + self.files[i].size;
            i = i + 1;
        }
        assert(self.files@.take(self.files.len() as int) =~= self.files@);
        total
    }
}

/// The sum of the files' sizes.
pub open spec fn file_sizes(fs: Seq<FileRecord>) -> int
    decreases fs.len(),
{
    if fs.len() == 0 {
        0
    } else {
        file_sizes(fs.drop_last()) + fs.last().size
    }
}

proof fn lemma_file_sizes_prefix(fs: Seq<FileRecord>, k: int)
    requires
        0 <= k <= fs.len(),
    ensures
        0 <= file_sizes(fs.take(k)) <= file_sizes(fs),
    decreases fs.len(),
{
    if fs.len() > 0 {
        if k == fs.len() {
            assert(fs.take(k) =~= fs);
            lemma_file_sizes_prefix(fs.drop_last(), k - 1);
        } else {
            assert(fs.drop_last().take(k) =~= fs.take(k));
            lemma_file_sizes_prefix(fs.drop_last(), k);
        }
    }
}

// ---------------------------------------------------------------------------
// The change log
// ---------------------------------------------------------------------------

/// The number of control bytes (below 32, other than tab, line feed and
/// carriage return) among the first `n` bytes.
pub open spec fn control_count(b: Seq<u8>, n: int) -> nat
    decreases n,
{
    if n <= 0 {
        0
    } else {
        control_count(b, n - 1) + if b[n - 1] < 32 && b[n - 1] != 9 && b[n - 1] != 10 && b[n - 1]
            != 13 {
            1nat
        } else {
            0nat
        }
    }
}

/// Binary data that is likely text: not empty, and fewer than a tenth
/// (rounded down) of its first 512 bytes are control bytes.
pub open spec fn likely_text(b: Seq<u8>) -> bool {
    let n = if b.len() < 512 { b.len() as int } else { 512 };
    b.len() > 0 && control_count(b, n) < n / 10
}

/// Whether the binary data is likely text.
pub fn is_likely_text_binary(bytes: &[u8]) -> (r: bool)
    ensures
        r == likely_text(bytes@),
{
    if bytes.len() == 0 {
        return false;
    }
    let n: usize = if bytes.len() < 512 { bytes.len() } else { 512 };
    let mut count: usize = 0;
    let mut i: usize = 0;
    while i < n
        invariant
            n <= bytes.len(),
            n <= 512,
            i <= n,
            count == control_count(bytes@, i as int),
            count <= i,
        decreases n - i,
    {
        let b = bytes[i];
        if b < 32 && b != 9 && b != 10 && b != 13 {
            count = count + 1;
        }
        i = i + 1;
    }
    count < n / 10
}

/// One line of the change log for a format and what it held.
pub open spec fn detail_line(name: Seq<char>, preview: FormatPreview) -> Seq<char> {
    match preview {
        FormatPreview::Text(t) => "  \u{2022} "@ + name + ": \""@ + truncated(
            flatten_lines(trim(t@)),
            120,
        ) + "\""@,
        FormatPreview::Binary(b) => if likely_text(b@) {
            "  \u{2022} "@ + name + ": \""@ + truncated(flatten_lines(trim(lossy_text(b@))), 120)
                + "\" ("@ + decimal(b@.len()) + " bytes)"@
        } else {
            "  \u{2022} "@ + name + ": <binary data, "@ + decimal(b@.len()) + " bytes>"@
        },
        FormatPreview::Empty => "  \u{2022} "@ + name + ": <empty>"@,
    }
}

/// The change log line for one format.
pub fn detail_line_of(name: &str, preview: &FormatPreview) -> (r: String)
    ensures
        r@ == detail_line(name@, *preview),
{
    let mut r = concat("  \u{2022} ", name);
    match preview {
        FormatPreview::Text(t) => {
            r.append(": \"");
            let p = truncate_preview(t.as_str(), 120);
            r.append(p.as_str());
            r.append("\"");
        },
        FormatPreview::Binary(b) => {
            if is_likely_text_binary(b.as_slice()) {
                let text = utf8_lossy(b.as_slice());
                r.append(": \"");
                let p = truncate_preview(text.as_str(), 120);
                r.append(p.as_str());
                r.append("\" (");
                let n = usize_to_string(b.len());
                r.append(n.as_str());
                r.append(" bytes)");
            } else {
                r.append(": <binary data, ");
                let n = usize_to_string(b.len());
                r.append(n.as_str());
                r.append(" bytes>");
            }
        },
        FormatPreview::Empty => {
            r.append(": <empty>");
        },
    }
    r
}

impl ClipboardSnapshot {
    /// The lines that report a clipboard change: a heading, the number of
    /// formats, one line per format, and a closing rule.
    pub fn format_detail_lines(&self) -> (r: Vec<String>)
        ensures
            r@.len() == self.format_previews@.len() + 3,
            r@[0]@ == "\n=== Clipboard Change Detected ==="@,
            r@[1]@ == "All formats ("@ + decimal(self.format_previews@.len() as nat) + " total):"@,
            forall|j: int|
                0 <= j < self.format_previews@.len() ==> #[trigger] r@[j + 2]@ == detail_line(
                    self.format_previews@[j].0@,
                    self.format_previews@[j].1,
                ),
            r@[self.format_previews@.len() as int + 2]@ == "================================\n"@,
    {
        let mut r: Vec<String> = Vec::new();
        r.push("\n=== Clipboard Change Detected ===".to_string());
        let count = usize_to_string(self.format_previews.len());
        let mut head = concat("All formats (", count.as_str());
        head.append(" total):");
        r.push(head);
        let mut i: usize = 0;
        while i < self.format_previews.len()
            invariant
                i <= self.format_previews.len(),
                r@.len() == i + 2,
                r@[0]@ == "\n=== Clipboard Change Detected ==="@,
                r@[1]@ == "All formats ("@ + decimal(self.format_previews@.len() as nat)
                    + " total):"@,
                forall|j: int|
                    0 <= j < i ==> #[trigger] r@[j + 2]@ == detail_line(
                        self.format_previews@[j].0@,
                        self.format_previews@[j].1,
                    ),
            decreases self.format_previews.len() - i,
        {
            let (name, preview) = &self.format_previews[i];
            let line = detail_line_of(name.as_str(), preview);
            r.push(line);
            i = i + 1;
        }
        r.push("================================\n".to_string());
        r
    }
}

} // verus!
