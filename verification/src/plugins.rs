//! Clipboard plugins: each turns one kind of clipboard content (files, an
//! image, plain text, HTML, RTF) into the files and metadata stored with an
//! entry, and tells in which order an entry's formats come back.

use vstd::prelude::*;
use crate::json::{get_spec, keys_of, member, object_insert, object_keys, strings_of, array_strings, Json};
use crate::model::{opt_str, strs, EntryKind, EntryMetadata};
use crate::numfmt::{human_kb, human_kb_spec};
use crate::snapshot::{
    describe_files, file_lines, format_file_summary, lossy_text, mime_for_extension, mime_of_ext,
    summary_spec, truncate_summary, utf8_lossy, ClipboardSnapshot, FileOutput, FileRecord,
};
use crate::text::{concat, decimal, join_strings, joined_with, owned, str_eq, u64_to_string};

verus! {

/// The kinds of plugin, in the order of their priority.
#[derive(Clone, Copy, Debug, PartialEq, Eq, Structural)]
pub enum PluginType {
    File,
    Image,
    Text,
    Html,
    Rtf,
}

impl PluginType {
    /// The plugin's priority: lower comes first.
    pub fn priority_value(&self) -> (r: u8)
        ensures
            r == match *self {
                PluginType::File => 0u8,
                PluginType::Image => 1u8,
                PluginType::Text => 2u8,
                PluginType::Html => 3u8,
                PluginType::Rtf => 4u8,
            },
    {
        match self {
            PluginType::File => 0,
            PluginType::Image => 1,
            PluginType::Text => 2,
            PluginType::Html => 3,
            PluginType::Rtf => 4,
        }
    }

    /// The plugin type's name.
    pub fn as_str(&self) -> (r: &'static str)
        ensures
            r@ == match *self {
                PluginType::File => "file"@,
                PluginType::Image => "image"@,
                PluginType::Text => "text"@,
                PluginType::Html => "html"@,
                PluginType::Rtf => "rtf"@,
            },
    {
        match self {
            PluginType::File => "file",
            PluginType::Image => "image",
            PluginType::Text => "text",
            PluginType::Html => "html",
            PluginType::Rtf => "rtf",
        }
    }
}

/// What one plugin made of a clipboard snapshot.
pub struct PluginCapture {
    pub plugin_id: String,
    pub kind: String,
    pub entry_kind: EntryKind,
    pub priority: u8,
    pub summary: Option<String>,
    pub search_text: Option<String>,
    pub files: Vec<FileOutput>,
    pub metadata: Json,
    pub byte_size: u64,
    pub sources: Vec<String>,
}

/// The members of an object; none for any other value.
pub open spec fn base_members(m: Json) -> Seq<(String, Json)> {
    match m {
        Json::Object(e) => e@,
        _ => Seq::empty(),
    }
}

/// The text of the string member `key`, if the value has one.
pub open spec fn str_member(m: Json, key: Seq<char>) -> Option<Seq<char>> {
    match get_spec(m, key) {
        Some(Json::Str(s)) => Some(s@),
        _ => None,
    }
}

/// The names of the files, in order.
pub open spec fn file_names(files: Seq<FileOutput>) -> Seq<Seq<char>> {
    files.map_values(|f: FileOutput| f.filename@)
}

/// The strings of `names` as JSON strings.
fn string_array(names: Vec<String>) -> (r: Vec<Json>)
    ensures
        r@.len() == names@.len(),
        strings_of(r@) == strs(names@),
{
    let mut r: Vec<Json> = Vec::new();
    let mut i: usize = 0;
    while i < names.len()
        invariant
            i <= names.len(),
            r@.len() == i,
            strings_of(r@) == strs(names@).take(i as int),
        decreases names.len() - i,
    {
        let ghost old_r = r@;
        r.push(Json::Str(names[i].clone()));
        assert(r@.drop_last() =~= old_r);
        assert(strings_of(r@) == strings_of(old_r).push(names@[i as int]@));
        i = i + 1;
        assert(strs(names@).take(i as int) =~= strs(names@).take(i - 1).push(names@[i - 1]@));
    }
    assert(strs(names@).take(names.len() as int) =~= strs(names@));
    r
}

impl PluginCapture {
    /// Writes into the metadata what identifies the capture: the names of
    /// its stored files (when there are any), its plugin id and kind, and
    /// its summary (when it has one); a capture without search text takes
    /// its summary as search text.  Metadata that is not an object starts
    /// over from an empty object.
    pub fn finalize_metadata(&mut self)
        ensures
            final(self).metadata is Object,
            str_member(final(self).metadata, "pluginId"@) == Some(old(self).plugin_id@),
            str_member(final(self).metadata, "pluginKind"@) == Some(old(self).kind@),
            old(self).summary matches Some(s) ==> str_member(final(self).metadata, "summary"@)
                == Some(s@),
            old(self).summary is None ==> get_spec(final(self).metadata, "summary"@) == member(
                base_members(old(self).metadata),
                "summary"@,
            ),
            old(self).files@.len() > 0 ==> (get_spec(final(self).metadata, "storedFiles"@) matches Some(
                Json::Array(a),
            ) && a@.len() == old(self).files@.len() && strings_of(a@) == file_names(
                old(self).files@,
            )),
            old(self).files@.len() == 0 ==> get_spec(final(self).metadata, "storedFiles"@)
                == member(base_members(old(self).metadata), "storedFiles"@),
            forall|k: Seq<char>|
                k != "pluginId"@ && k != "pluginKind"@ && k != "summary"@ && k != "storedFiles"@
                    ==> #[trigger] get_spec(final(self).metadata, k) == member(
                    base_members(old(self).metadata),
                    k,
                ),
            opt_str(final(self).search_text) == (if old(self).search_text is None {
                opt_str(old(self).summary)
            } else {
                opt_str(old(self).search_text)
            }),
            final(self).plugin_id == old(self).plugin_id,
            final(self).kind == old(self).kind,
            final(self).entry_kind == old(self).entry_kind,
            final(self).priority == old(self).priority,
            final(self).summary == old(self).summary,
            final(self).files == old(self).files,
            final(self).byte_size == old(self).byte_size,
            final(self).sources == old(self).sources,
    {
        proof {
            reveal_strlit("pluginId");
            reveal_strlit("pluginKind");
            reveal_strlit("summary");
            reveal_strlit("storedFiles");
            assert("pluginId"@.len() == 8);
            assert("pluginKind"@.len() == 10);
            assert("summary"@.len() == 7);
            assert("storedFiles"@.len() == 11);
        }
        let mut taken = Json::Null;
        std::mem::swap(&mut taken, &mut self.metadata);
        let ghost base = base_members(taken);
        let mut meta: Vec<(String, Json)> = match taken {
            Json::Object(e) => e,
            _ => Vec::new(),
        };
        assert(meta@ == base);
        let mut names: Vec<String> = Vec::new();
        let mut i: usize = 0;
        while i < self.files.len()
            invariant
                i <= self.files.len(),
                names@.len() == i,
                forall|j: int| 0 <= j < i ==> #[trigger] names@[j]@ == self.files@[j].filename@,
            decreases self.files.len() - i,
        {
            names.push(self.files[i].filename.clone());
            i = i + 1;
        }
        assert(strs(names@) =~= file_names(self.files@));
        let ghost m0 = meta@;
        if names.len() > 0 {
            let arr = string_array(names);
            object_insert(&mut meta, "storedFiles".to_string(), Json::Array(arr));
        }
        let ghost m1 = meta@;
        object_insert(&mut meta, "pluginId".to_string(), Json::Str(self.plugin_id.clone()));
        let ghost m2 = meta@;
        object_insert(&mut meta, "pluginKind".to_string(), Json::Str(self.kind.clone()));
        let ghost m3 = meta@;
        match &self.summary {
            Some(s) => {
                object_insert(&mut meta, "summary".to_string(), Json::Str(s.clone()));
            },
            None => {},
        }
        self.metadata = Json::Object(meta);
        if self.search_text.is_none() {
            self.search_text = match &self.summary {
                Some(s) => Some(s.clone()),
                None => None,
            };
        }
    }
}

/// The place of the first capture of least priority among the first `n`.
pub open spec fn min_priority_index(s: Seq<PluginCapture>, n: int) -> int
    decreases n,
{
    if n <= 1 {
        0
    } else {
        let m = min_priority_index(s, n - 1);
        if s[n - 1].priority < s[m].priority {
            n - 1
        } else {
            m
        }
    }
}

/// The leading capture is one of the first `n`, of least priority among
/// them, and every capture before it has a greater priority.
pub proof fn lemma_min_priority_index(s: Seq<PluginCapture>, n: int)
    requires
        1 <= n <= s.len(),
    ensures
        0 <= min_priority_index(s, n) < n,
        forall|j: int| 0 <= j < n ==> s[min_priority_index(s, n)].priority <= #[trigger] s[j].priority,
        forall|j: int|
            0 <= j < min_priority_index(s, n) ==> s[min_priority_index(s, n)].priority
                < #[trigger] s[j].priority,
    decreases n,
{
    if n > 1 {
        lemma_min_priority_index(s, n - 1);
    }
}

/// The capture that leads: the first one of least priority.
pub fn prioritized_capture(captures: &[PluginCapture]) -> (r: Option<&PluginCapture>)
    ensures
        captures@.len() == 0 <==> r is None,
        r matches Some(c) ==> *c == captures@[min_priority_index(captures@, captures@.len() as int)],
{
    if captures.len() == 0 {
        return None;
    }
    let mut best: usize = 0;
    let mut i: usize = 1;
    while i < captures.len()
        invariant
            1 <= i <= captures.len(),
            best == min_priority_index(captures@, i as int),
            best < i,
        decreases captures.len() - i,
    {
        if captures[i].priority < captures[best].priority {
            best = i;
        }
        i = i + 1;
    }
    proof {
        lemma_min_priority_index(captures@, captures@.len() as int);
    }
    Some(&captures[best])
}

/// The plugin ids of the captures, in order.
pub fn plugin_order(captures: &[PluginCapture]) -> (r: Vec<String>)
    ensures
        r@.len() == captures@.len(),
        forall|j: int| 0 <= j < r@.len() ==> #[trigger] r@[j]@ == captures@[j].plugin_id@,
{
    let mut r: Vec<String> = Vec::new();
    let mut i: usize = 0;
    while i < captures.len()
        invariant
            i <= captures.len(),
            r@.len() == i,
            forall|j: int| 0 <= j < i ==> #[trigger] r@[j]@ == captures@[j].plugin_id@,
        decreases captures.len() - i,
    {
        r.push(captures[i].plugin_id.clone());
        i = i + 1;
    }
    r
}

/// The order in which an entry's plugins come back: its `pluginOrder`
/// array when it has one (its strings), else the names of its plugins.
pub open spec fn order_spec(extra: Json, plugins: Seq<(String, Json)>) -> Seq<Seq<char>> {
    match get_spec(extra, "pluginOrder"@) {
        Some(Json::Array(a)) => strings_of(a@),
        _ => keys_of(plugins),
    }
}

/// The plugin metadata of an entry: `None` unless its extra metadata is an
/// object whose `plugins` member is an object; else the plugin order and
/// that object's members.
pub fn extract_plugin_meta(metadata: &EntryMetadata) -> (r: Option<(Vec<String>, &Vec<(String, Json)>)>)
    ensures
        r is None <==> !(get_spec(metadata.extra, "plugins"@) matches Some(Json::Object(_))),
        r matches Some((order, map)) ==> get_spec(metadata.extra, "plugins"@) == Some(
            Json::Object(*map),
        ) && strs(order@) == order_spec(metadata.extra, map@),
{
    let plugins = match metadata.extra.get("plugins") {
        Some(p) => match p.as_object() {
            Some(m) => m,
            None => {
                return None;
            },
        },
        None => {
            return None;
        },
    };
    let order = match metadata.extra.get("pluginOrder") {
        Some(v) => match v.as_array() {
            Some(a) => {
                let o = array_strings(a);
                assert(strs(o@) =~= o@.map_values(|s: String| s@));
                o
            },
            None => {
                let o = object_keys(plugins);
                assert(strs(o@) =~= keys_of(plugins@));
                o
            },
        },
        None => {
            let o = object_keys(plugins);
            assert(strs(o@) =~= keys_of(plugins@));
            o
        },
    };
    Some((order, plugins))
}

/// The pasteboard type for a MIME type: an empty one is `public.data`,
/// one without a slash is a type already, known ones map to their
/// pasteboard types, and any other is `public.data`.
pub open spec fn uti_for(mime: Seq<char>) -> Seq<char> {
    if mime.len() == 0 {
        "public.data"@
    } else if !mime.contains('/') {
        mime
    } else if mime == "text/plain"@ || mime == "text/utf-8"@ || mime == "text/x-diff"@ {
        "public.utf8-plain-text"@
    } else if mime == "text/html"@ {
        "public.html"@
    } else if mime == "text/rtf"@ || mime == "application/rtf"@ {
        "public.rtf"@
    } else if mime == "application/json"@ {
        "public.json"@
    } else if mime == "application/pdf"@ {
        "com.adobe.pdf"@
    } else if mime == "application/zip"@ {
        "com.pkware.zip-archive"@
    } else if mime == "image/png"@ {
        "public.png"@
    } else if mime == "image/jpeg"@ || mime == "image/jpg"@ {
        "public.jpeg"@
    } else if mime == "image/gif"@ {
        "com.compuserve.gif"@
    } else if mime == "image/tiff"@ {
        "public.tiff"@
    } else {
        "public.data"@
    }
}

/// The pasteboard type under which data of a MIME type goes back.
pub fn coerce_mime_to_uti(mime: &str) -> (r: String)
    ensures
        r@ == uti_for(mime@),
{
    let cs = crate::text::chars_of(mime);
    if cs.len() == 0 {
        return "public.data".to_string();
    }
    let mut has_slash = false;
    let mut i: usize = 0;
    while i < cs.len()
        invariant
            i <= cs.len(),
            has_slash == exists|j: int| 0 <= j < i && cs@[j] == '/',
        decreases cs.len() - i,
    {
        if cs[i] == '/' {
            has_slash = true;
        }
        i = i + 1;
    }
    assert(has_slash == mime@.contains('/'));
    if !has_slash {
        return owned(mime);
    }
    let r = if str_eq(mime, "text/plain") || str_eq(mime, "text/utf-8") || str_eq(mime, "text/x-diff") {
        "public.utf8-plain-text"
    } else if str_eq(mime, "text/html") {
        "public.html"
    } else if str_eq(mime, "text/rtf") || str_eq(mime, "application/rtf") {
        "public.rtf"
    } else if str_eq(mime, "application/json") {
        "public.json"
    } else if str_eq(mime, "application/pdf") {
        "com.adobe.pdf"
    } else if str_eq(mime, "application/zip") {
        "com.pkware.zip-archive"
    } else if str_eq(mime, "image/png") {
        "public.png"
    } else if str_eq(mime, "image/jpeg") || str_eq(mime, "image/jpg") {
        "public.jpeg"
    } else if str_eq(mime, "image/gif") {
        "com.compuserve.gif"
    } else if str_eq(mime, "image/tiff") {
        "public.tiff"
    } else {
        "public.data"
    };
    r.to_string()
}

// ---------------------------------------------------------------------------
// What each plugin captures
// ---------------------------------------------------------------------------

/// The text of the number member `key`, if the value has one.
pub open spec fn num_member(m: Json, key: Seq<char>) -> Option<Seq<char>> {
    match get_spec(m, key) {
        Some(Json::Number(s)) => Some(s@),
        _ => None,
    }
}

/// An object with the one number member `key`.
fn number_object(key: &str, n: u64) -> (r: Json)
    ensures
        r is Object,
        num_member(r, key@) == Some(decimal(n as nat)),
{
    let mut e: Vec<(String, Json)> = Vec::new();
    object_insert(&mut e, owned(key), Json::Number(u64_to_string(n)));
    Json::Object(e)
}

/// The capture's fixed identity: plugin id, kind, entry kind and priority.
pub open spec fn identity_is(c: PluginCapture, id: Seq<char>, kind: Seq<char>, ek: EntryKind, p: u8) -> bool {
    c.plugin_id@ == id && c.kind@ == kind && c.entry_kind == ek && c.priority == p
}

/// The capture stores exactly one file, of this name and content.
pub open spec fn one_file(c: PluginCapture, name: Seq<char>, bytes: Seq<u8>) -> bool {
    c.files@.len() == 1 && c.files@[0].filename@ == name && c.files@[0].bytes@ == bytes
}

fn string_bytes(s: &str) -> (r: Vec<u8>)
    ensures
        r@ == vstd::utf8::encode_utf8(s@),
{
    let mut b: Vec<u8> = Vec::new();
    crate::item::append_bytes(&mut b, s.as_bytes());
    assert(b@ =~= vstd::utf8::encode_utf8(s@));
    b
}

/// What the text and HTML plugins make of a text: their identity, the
/// text stored as one file, summarised and searched, and its length in
/// characters under `length`.
pub open spec fn text_like(
    c: PluginCapture,
    text: Seq<char>,
    id: Seq<char>,
    priority: u8,
    filename: Seq<char>,
) -> bool {
    &&& identity_is(c, id, id, EntryKind::Text, priority)
    &&& opt_str(c.summary) == Some(summary_spec(text))
    &&& opt_str(c.search_text) == Some(text)
    &&& one_file(c, filename, vstd::utf8::encode_utf8(text))
    &&& num_member(c.metadata, "length"@) == Some(decimal(text.len()))
    &&& c.byte_size == vstd::utf8::encode_utf8(text).len()
    &&& c.sources@.len() == 0
}

/// The capture of a text by the text plugin (`html` false) or the HTML
/// plugin (`html` true).
pub(crate) fn text_like_capture(text: &str, html: bool) -> (r: PluginCapture)
    ensures
        !html ==> text_like(r, text@, "text"@, 2, "text__content.txt"@),
        html ==> text_like(r, text@, "html"@, 3, "html__content.html"@),
{
    let bytes = string_bytes(text);
    let (id, priority, filename) = if html {
        ("html".to_string(), 3u8, "html__content.html".to_string())
    } else {
        ("text".to_string(), 2u8, "text__content.txt".to_string())
    };
    let mut files: Vec<FileOutput> = Vec::new();
    files.push(FileOutput { filename, bytes });
    let n = crate::text::chars_of(text).len();
    PluginCapture {
        plugin_id: id.clone(),
        kind: id,
        entry_kind: EntryKind::Text,
        priority,
        summary: Some(truncate_summary(text)),
        search_text: Some(owned(text)),
        files,
        metadata: number_object("length", n as u64),
        byte_size: text.as_bytes().len() as u64,
        sources: Vec::new(),
    }
}

/// The text plugin: a non-empty text is stored as `text__content.txt`,
/// summarised, searched by its whole content, and its length in characters
/// is noted.
pub fn text_capture(text: &str) -> (r: Option<PluginCapture>)
    ensures
        text@.len() == 0 <==> r is None,
        r matches Some(c) ==> text_like(c, text@, "text"@, 2, "text__content.txt"@),
{
    if text.is_empty() {
        return None;
    }
    Some(text_like_capture(text, false))
}

/// The HTML plugin: non-empty HTML is stored as `html__content.html`,
/// summarised, searched by its whole markup, and its length in characters
/// is noted.
pub fn html_capture(html: &str) -> (r: Option<PluginCapture>)
    ensures
        html@.len() == 0 <==> r is None,
        r matches Some(c) ==> text_like(c, html@, "html"@, 3, "html__content.html"@),
{
    if html.is_empty() {
        return None;
    }
    Some(text_like_capture(html, true))
}

/// The RTF plugin: non-empty RTF data is stored as `rtf__content.rtf`,
/// searched by its text read leniently as UTF-8, and its size is noted; it
/// has no summary.
pub fn rtf_capture(rtf: &Vec<u8>) -> (r: Option<PluginCapture>)
    ensures
        rtf@.len() == 0 <==> r is None,
        r matches Some(c) ==> {
            &&& identity_is(c, "rtf"@, "rtf"@, EntryKind::Text, 4)
            &&& c.summary is None
            &&& opt_str(c.search_text) == Some(lossy_text(rtf@))
            &&& one_file(c, "rtf__content.rtf"@, rtf@)
            &&& num_member(c.metadata, "byteSize"@) == Some(decimal(rtf@.len()))
            &&& c.byte_size == rtf@.len()
            &&& c.sources@.len() == 0
        },
{
    if rtf.len() == 0 {
        return None;
    }
    let mut files: Vec<FileOutput> = Vec::new();
    files.push(FileOutput { filename: "rtf__content.rtf".to_string(), bytes: rtf.clone() });
    Some(
        PluginCapture {
            plugin_id: "rtf".to_string(),
            kind: "rtf".to_string(),
            entry_kind: EntryKind::Text,
            priority: 4,
            summary: None,
            search_text: Some(utf8_lossy(rtf.as_slice())),
            files,
            metadata: number_object("byteSize", rtf.len() as u64),
            byte_size: rtf.len() as u64,
            sources: Vec::new(),
        },
    )
}

/// A JSON string, or `null` for `None`.
fn opt_json(o: &Option<String>) -> (r: Json)
    ensures
        o matches Some(s) ==> (r matches Json::Str(t) && t@ == s@),
        o is None ==> r == Json::Null,
{
    match o {
        Some(s) => Json::Str(s.clone()),
        None => Json::Null,
    }
}

/// A file record as JSON: `extension`, `mime`, `name`, `size` and
/// `source_path`.
pub fn file_record_json(f: &FileRecord) -> (r: Json)
    ensures
        r is Object,
        str_member(r, "name"@) == Some(f.name@),
        str_member(r, "source_path"@) == Some(f.source_path@),
        num_member(r, "size"@) == Some(decimal(f.size as nat)),
        f.extension matches Some(e) ==> str_member(r, "extension"@) == Some(e@),
        f.extension is None ==> get_spec(r, "extension"@) == Some(Json::Null),
        f.mime matches Some(m) ==> str_member(r, "mime"@) == Some(m@),
        f.mime is None ==> get_spec(r, "mime"@) == Some(Json::Null),
{
    proof {
        reveal_strlit("extension");
        reveal_strlit("mime");
        reveal_strlit("name");
        reveal_strlit("size");
        reveal_strlit("source_path");
        assert("extension"@.len() == 9);
        assert("mime"@.len() == 4);
        assert("name"@.len() == 4);
        assert("size"@.len() == 4);
        assert("source_path"@.len() == 11);
        assert("mime"@[0] != "name"@[0]);
        assert("mime"@[0] != "size"@[0]);
        assert("name"@[0] != "size"@[0]);
    }
    let mut e: Vec<(String, Json)> = Vec::new();
    object_insert(&mut e, "extension".to_string(), opt_json(&f.extension));
    object_insert(&mut e, "mime".to_string(), opt_json(&f.mime));
    object_insert(&mut e, "name".to_string(), Json::Str(f.name.clone()));
    object_insert(&mut e, "size".to_string(), Json::Number(u64_to_string(f.size)));
    object_insert(&mut e, "source_path".to_string(), Json::Str(f.source_path.clone()));
    Json::Object(e)
}

/// What the files plugin makes of file records: the records listed one per
/// line in `files__paths.txt`, summarised on one line, searched by that
/// list, and recorded under `entries`; `sources` are the sources.
pub open spec fn files_like(c: PluginCapture, lines: Seq<Seq<char>>, n: nat, sources: Seq<Seq<char>>) -> bool {
    &&& identity_is(c, "files"@, "file"@, EntryKind::File, 0)
    &&& opt_str(c.summary) == Some(joined_with(lines, ", "@))
    &&& opt_str(c.search_text) == Some(joined_with(lines, "\n"@))
    &&& one_file(c, "files__paths.txt"@, vstd::utf8::encode_utf8(joined_with(lines, "\n"@)))
    &&& c.byte_size == vstd::utf8::encode_utf8(joined_with(lines, "\n"@)).len()
    &&& strs(c.sources@) == sources
    &&& (get_spec(c.metadata, "entries"@) matches Some(Json::Array(a)) && a@.len() == n)
}

/// The files plugin's capture of file records, with the given sources.
pub(crate) fn records_capture(records: &Vec<FileRecord>, sources: Vec<String>) -> (r: PluginCapture)
    ensures
        files_like(r, file_lines(records@), records@.len(), strs(sources@)),
{
    let summary = format_file_summary(records);
    let lines = describe_files(records);
    let joined = join_strings(&lines, "\n");
    let bytes = string_bytes(joined.as_str());
    let byte_size = bytes.len() as u64;
    let mut files: Vec<FileOutput> = Vec::new();
    files.push(FileOutput { filename: "files__paths.txt".to_string(), bytes });
    let mut entries: Vec<Json> = Vec::new();
    let mut i: usize = 0;
    while i < records.len()
        invariant
            i <= records.len(),
            entries@.len() == i,
        decreases records.len() - i,
    {
        entries.push(file_record_json(&records[i]));
        i = i + 1;
    }
    let mut meta: Vec<(String, Json)> = Vec::new();
    object_insert(&mut meta, "entries".to_string(), Json::Array(entries));
    PluginCapture {
        plugin_id: "files".to_string(),
        kind: "file".to_string(),
        entry_kind: EntryKind::File,
        priority: 0,
        summary: Some(summary),
        search_text: Some(joined),
        files,
        metadata: Json::Object(meta),
        byte_size,
        sources,
    }
}

/// The files plugin: the files are listed one per line in
/// `files__paths.txt`, summarised on one line, searched by that list, and
/// recorded in full under `entries`; their paths are the sources.
pub fn files_capture(snapshot: &ClipboardSnapshot) -> (r: Option<PluginCapture>)
    ensures
        snapshot.files@.len() == 0 <==> r is None,
        r matches Some(c) ==> files_like(
            c,
            file_lines(snapshot.files@),
            snapshot.files@.len(),
            snapshot.files@.map_values(|f: FileRecord| f.source_path@),
        ),
{
    if snapshot.files.len() == 0 {
        return None;
    }
    let sources = snapshot.sources();
    assert(strs(sources@) =~= snapshot.files@.map_values(|f: FileRecord| f.source_path@));
    Some(records_capture(&snapshot.files, sources))
}

/// The width and height of the image that the bytes encode, when the
/// `image` crate can guess its format and decode it.
pub uninterp spec fn decoded_size(bytes: Seq<u8>) -> Option<(u32, u32)>;

/// `ImageReader::with_guessed_format` and `decode` on the bytes, then the
/// image's dimensions; named `decoded_size`.
#[verifier::external_body]
pub(crate) fn decode_dimensions(bytes: &[u8]) -> (r: Option<(u32, u32)>)
    ensures
        r == decoded_size(bytes@),
{
    let reader = image::ImageReader::new(std::io::Cursor::new(bytes)).with_guessed_format().ok()?;
    let decoded = reader.decode().ok()?;
    Some((decoded.width(), decoded.height()))
}

/// The MIME type recorded for a captured image: the snapshot's, else the
/// one known for `png`, else `image/png`.
pub open spec fn image_mime_spec(mime: Option<Seq<char>>) -> Seq<char> {
    match mime {
        Some(m) => m,
        None => match mime_of_ext("png"@) {
            Some(m) => m,
            None => "image/png"@,
        },
    }
}

/// The image plugin's summary: `Image WxH [size KB - mime]`.
pub open spec fn image_summary(w: u32, h: u32, len: nat, mime: Seq<char>) -> Seq<char> {
    "Image "@ + decimal(w as nat) + "x"@ + decimal(h as nat) + " ["@ + human_kb_spec(len) + " - "@
        + mime + "]"@
}

/// The image plugin: a non-empty image that decodes is stored as
/// `image__full.png` and summarised by its size and type; its width,
/// height, type and size are noted.
pub fn image_capture(bytes: &Vec<u8>, image_mime: &Option<String>) -> (r: Option<PluginCapture>)
    ensures
        bytes@.len() == 0 || decoded_size(bytes@) is None <==> r is None,
        r matches Some(c) ==> {
            let (w, h) = decoded_size(bytes@)->0;
            let mime = image_mime_spec(opt_str(*image_mime));
            &&& identity_is(c, "image"@, "image"@, EntryKind::Image, 1)
            &&& opt_str(c.summary) == Some(image_summary(w, h, bytes@.len(), mime))
            &&& c.search_text is None
            &&& one_file(c, "image__full.png"@, bytes@)
            &&& num_member(c.metadata, "width"@) == Some(decimal(w as nat))
            &&& num_member(c.metadata, "height"@) == Some(decimal(h as nat))
            &&& str_member(c.metadata, "mime"@) == Some(mime)
            &&& num_member(c.metadata, "byteSize"@) == Some(decimal(bytes@.len()))
            &&& c.byte_size == bytes@.len()
            &&& c.sources@.len() == 0
        },
{
    if bytes.len() == 0 {
        return None;
    }
    let (w, h) = match decode_dimensions(bytes.as_slice()) {
        Some(d) => d,
        None => {
            return None;
        },
    };
    let mime: String = match image_mime {
        Some(m) => m.clone(),
        None => match mime_for_extension("png") {
            Some(m) => m,
            None => "image/png".to_string(),
        },
    };
    let mut summary = concat("Image ", u64_to_string(w as u64).as_str());
    summary.append("x");
    summary.append(u64_to_string(h as u64).as_str());
    summary.append(" [");
    summary.append(human_kb(bytes.len() as u64).as_str());
    summary.append(" - ");
    summary.append(mime.as_str());
    summary.append("]");
    proof {
        reveal_strlit("width");
        reveal_strlit("height");
        reveal_strlit("mime");
        reveal_strlit("byteSize");
        assert("width"@.len() == 5);
        assert("height"@.len() == 6);
        assert("mime"@.len() == 4);
        assert("byteSize"@.len() == 8);
    }
    let mut meta: Vec<(String, Json)> = Vec::new();
    object_insert(&mut meta, "width".to_string(), Json::Number(u64_to_string(w as u64)));
    object_insert(&mut meta, "height".to_string(), Json::Number(u64_to_string(h as u64)));
    object_insert(&mut meta, "mime".to_string(), Json::Str(mime));
    object_insert(&mut meta, "byteSize".to_string(), Json::Number(u64_to_string(bytes.len() as u64)));
    let mut files: Vec<FileOutput> = Vec::new();
    files.push(FileOutput { filename: "image__full.png".to_string(), bytes: bytes.clone() });
    Some(
        PluginCapture {
            plugin_id: "image".to_string(),
            kind: "image".to_string(),
            entry_kind: EntryKind::Image,
            priority: 1,
            summary: Some(summary),
            search_text: None,
            files,
            metadata: Json::Object(meta),
            byte_size: bytes.len() as u64,
            sources: Vec::new(),
        },
    )
}

/// The plugins that capture a snapshot, in the order files, image, text,
/// HTML, RTF: each whose content is present and not empty (and, for an
/// image, decodes).
pub open spec fn matching_ids(s: ClipboardSnapshot) -> Seq<Seq<char>> {
    let f: Seq<Seq<char>> = if s.files@.len() > 0 { seq!["files"@] } else { Seq::empty() };
    let i: Seq<Seq<char>> = if s.image_bytes matches Some(b) && b@.len() > 0 && decoded_size(b@) is Some {
        seq!["image"@]
    } else {
        Seq::empty()
    };
    let t: Seq<Seq<char>> = if s.text matches Some(x) && x@.len() > 0 { seq!["text"@] } else { Seq::empty() };
    let h: Seq<Seq<char>> = if s.html matches Some(x) && x@.len() > 0 { seq!["html"@] } else { Seq::empty() };
    let r: Seq<Seq<char>> = if s.rtf matches Some(x) && x@.len() > 0 { seq!["rtf"@] } else { Seq::empty() };
    f + i + t + h + r
}

/// Runs every plugin that matches the snapshot, in the order files, image,
/// text, HTML, RTF, and finalizes the metadata of each capture.
pub fn capture_plugins(snapshot: &ClipboardSnapshot) -> (r: Vec<PluginCapture>)
    ensures
        r@.map_values(|c: PluginCapture| c.plugin_id@) == matching_ids(*snapshot),
        forall|j: int| 0 <= j < r@.len() ==> (#[trigger] r@[j]).metadata is Object,
{
    let mut out: Vec<PluginCapture> = Vec::new();
    if let Some(mut c) = files_capture(snapshot) {
        c.finalize_metadata();
        out.push(c);
    }
    if let Some(b) = &snapshot.image_bytes {
        if let Some(mut c) = image_capture(b, &snapshot.image_mime) {
            c.finalize_metadata();
            out.push(c);
        }
    }
    if let Some(t) = &snapshot.text {
        if let Some(mut c) = text_capture(t.as_str()) {
            c.finalize_metadata();
            out.push(c);
        }
    }
    if let Some(t) = &snapshot.html {
        if let Some(mut c) = html_capture(t.as_str()) {
            c.finalize_metadata();
            out.push(c);
        }
    }
    if let Some(b) = &snapshot.rtf {
        if let Some(mut c) = rtf_capture(b) {
            c.finalize_metadata();
            out.push(c);
        }
    }
    out
}

// ---------------------------------------------------------------------------
// Stored files, display content and the plugins themselves
// ---------------------------------------------------------------------------

/// A file a plugin stored with an entry, and where it is.
pub struct StoredFile {
    pub filename: String,
    pub path: String,
}

/// The files a plugin stored, found in the entry's directory by the names
/// its metadata lists.
pub fn load_plugin_files(item_dir: &str, plugin_meta: &Json) -> (r: Vec<StoredFile>)
    ensures
        r@.len() == crate::store::stored_names(*plugin_meta).len(),
        forall|j: int|
            0 <= j < r@.len() ==> (#[trigger] r@[j]).filename@ == crate::store::stored_names(
                *plugin_meta,
            )[j] && r@[j].path@ == crate::layout::join_spec(item_dir@, r@[j].filename@),
{
    let names = crate::store::stored_file_names(plugin_meta);
    let mut r: Vec<StoredFile> = Vec::new();
    let mut i: usize = 0;
    while i < names.len()
        invariant
            i <= names.len(),
            strs(names@) == crate::store::stored_names(*plugin_meta),
            r@.len() == i,
            forall|j: int|
                0 <= j < i ==> (#[trigger] r@[j]).filename@ == names@[j]@ && r@[j].path@
                    == crate::layout::join_spec(item_dir@, r@[j].filename@),
        decreases names.len() - i,
    {
        let path = crate::layout::join(item_dir, names[i].as_str());
        r.push(StoredFile { filename: names[i].clone(), path });
        i = i + 1;
    }
    r
}

/// An image to show, with text to show where images cannot be.
pub struct ImageDisplay {
    pub path: String,
    pub fallback: Option<String>,
}

/// What a plugin shows of an entry.
pub enum DisplayContent {
    Text(String),
    Lines(Vec<String>),
    Image(ImageDisplay),
    Empty,
}

/// The files plugin.
pub struct FilesPlugin;

/// The image plugin.
pub struct ImagePlugin;

/// The plain-text plugin.
pub struct TextPlugin;

/// The HTML plugin.
pub struct HtmlPlugin;

/// The RTF plugin.
pub struct RtfPlugin;

impl FilesPlugin {
    /// Matches a snapshot that holds files.
    pub fn matches(&self, snapshot: &ClipboardSnapshot) -> (r: bool)
        ensures
            r == (snapshot.files@.len() > 0),
    {
        snapshot.files.len() > 0
    }

    /// What the plugin makes of the snapshot.
    pub fn capture(&self, snapshot: &ClipboardSnapshot) -> (r: Option<PluginCapture>)
        ensures
            snapshot.files@.len() == 0 <==> r is None,
    {
        files_capture(snapshot)
    }
}

impl TextPlugin {
    /// Matches a snapshot with non-empty text.
    pub fn matches(&self, snapshot: &ClipboardSnapshot) -> (r: bool)
        ensures
            r == (snapshot.text matches Some(t) && t@.len() > 0),
    {
        match &snapshot.text {
            Some(t) => !t.as_str().is_empty(),
            None => false,
        }
    }

    /// What the plugin makes of the snapshot.
    pub fn capture(&self, snapshot: &ClipboardSnapshot) -> (r: Option<PluginCapture>)
        ensures
            r is Some <==> (snapshot.text matches Some(t) && t@.len() > 0),
    {
        match &snapshot.text {
            Some(t) => text_capture(t.as_str()),
            None => None,
        }
    }
}

impl HtmlPlugin {
    /// Matches a snapshot with non-empty HTML.
    pub fn matches(&self, snapshot: &ClipboardSnapshot) -> (r: bool)
        ensures
            r == (snapshot.html matches Some(t) && t@.len() > 0),
    {
        match &snapshot.html {
            Some(t) => !t.as_str().is_empty(),
            None => false,
        }
    }

    /// What the plugin makes of the snapshot.
    pub fn capture(&self, snapshot: &ClipboardSnapshot) -> (r: Option<PluginCapture>)
        ensures
            r is Some <==> (snapshot.html matches Some(t) && t@.len() > 0),
    {
        match &snapshot.html {
            Some(t) => html_capture(t.as_str()),
            None => None,
        }
    }
}

impl RtfPlugin {
    /// Matches a snapshot with non-empty RTF data.
    pub fn matches(&self, snapshot: &ClipboardSnapshot) -> (r: bool)
        ensures
            r == (snapshot.rtf matches Some(b) && b@.len() > 0),
    {
        match &snapshot.rtf {
            Some(b) => b.len() > 0,
            None => false,
        }
    }

    /// What the plugin makes of the snapshot.
    pub fn capture(&self, snapshot: &ClipboardSnapshot) -> (r: Option<PluginCapture>)
        ensures
            r is Some <==> (snapshot.rtf matches Some(b) && b@.len() > 0),
    {
        match &snapshot.rtf {
            Some(b) => rtf_capture(b),
            None => None,
        }
    }
}

impl ImagePlugin {
    /// Matches a snapshot with non-empty image data.
    pub fn matches(&self, snapshot: &ClipboardSnapshot) -> (r: bool)
        ensures
            r == (snapshot.image_bytes matches Some(b) && b@.len() > 0),
    {
        match &snapshot.image_bytes {
            Some(b) => b.len() > 0,
            None => false,
        }
    }

    /// What the plugin makes of the snapshot: nothing for an image that
    /// does not decode.
    pub fn capture(&self, snapshot: &ClipboardSnapshot) -> (r: Option<PluginCapture>)
        ensures
            r is Some <==> (snapshot.image_bytes matches Some(b) && b@.len() > 0 && decoded_size(b@) is Some),
    {
        match &snapshot.image_bytes {
            Some(b) => image_capture(b, &snapshot.image_mime),
            None => None,
        }
    }
}

} // verus!
