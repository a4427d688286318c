//! Showing one entry in the terminal: which of its formats is shown and
//! from where, and the line of details logged beside it.

use vstd::prelude::*;
use crate::json::{get_spec, member, object_member, Json};
use crate::json_items::plugin_identity;
use crate::model::{opt_str, strs, EntryMetadata};
use crate::selector::{all_digits, digits_value};
use crate::store::{
    entry_paths, entry_paths_of, first_stored, source_of, stored_file_names, ContentSource,
    SourceView,
};
use crate::text::{chars_of, concat, decimal, owned, str_eq, u64_to_string, usize_to_string};

verus! {

/// The first plugin among `ids` that the entry recorded metadata for and
/// that is known.
pub open spec fn first_displayable(ids: Seq<Seq<char>>, map: Seq<(String, Json)>) -> Option<Seq<char>>
    decreases ids.len(),
{
    if ids.len() == 0 {
        None
    } else if member(map, ids[0]) is Some && plugin_identity(ids[0]) is Some {
        Some(ids[0])
    } else {
        first_displayable(ids.drop_first(), map)
    }
}

/// The plugin found for display has metadata and is known.
proof fn lemma_first_displayable_known(ids: Seq<Seq<char>>, map: Seq<(String, Json)>)
    ensures
        first_displayable(ids, map) matches Some(id) ==> member(map, id) is Some && plugin_identity(id)
            is Some,
    decreases ids.len(),
{
    if ids.len() > 0 {
        lemma_first_displayable_known(ids.drop_first(), map);
    }
}

/// The first plugin among `ids` that has metadata and is known.
pub(crate) fn find_displayable(ids: &Vec<String>, map: &Vec<(String, Json)>) -> (r: Option<String>)
    ensures
        opt_str(r) == first_displayable(strs(ids@), map@),
{
    proof {
        reveal_strlit("files");
        reveal_strlit("image");
        reveal_strlit("text");
        reveal_strlit("html");
        reveal_strlit("rtf");
    }
    let ghost gs = strs(ids@);
    assert(gs.skip(0) =~= gs);
    let mut i: usize = 0;
    while i < ids.len()
        invariant
            i <= ids.len(),
            gs == strs(ids@),
            first_displayable(gs, map@) == first_displayable(gs.skip(i as int), map@),
        decreases ids.len() - i,
    {
        assert(gs.skip(i as int).drop_first() =~= gs.skip(i + 1));
        assert(gs.skip(i as int)[0] == ids@[i as int]@);
        let id = ids[i].as_str();
        let known = str_eq(id, "files") || str_eq(id, "image") || str_eq(id, "text") || str_eq(id, "html")
            || str_eq(id, "rtf");
        if known && object_member(map, id).is_some() {
            return Some(owned(id));
        }
        i = i + 1;
    }
    assert(gs.skip(ids.len() as int) =~= Seq::<Seq<char>>::empty());
    None
}

/// What is shown of an entry.
pub enum DisplaySource {
    /// A text-like format, read from where its clipboard content comes from.
    Content(ContentSource),
    /// The stored image, and the text shown where images cannot be.
    Image(String, String),
    /// One line per recorded file path.
    Lines(Vec<String>),
    /// Nothing.
    Empty,
}

/// The model of a `DisplaySource`.
pub enum DisplayView {
    Content(SourceView),
    Image(Seq<char>, Seq<char>),
    Lines(Seq<Seq<char>>),
    Empty,
}

impl View for DisplaySource {
    type V = DisplayView;

    open spec fn view(&self) -> DisplayView {
        match self {
            DisplaySource::Content(c) => DisplayView::Content(c@),
            DisplaySource::Image(f, t) => DisplayView::Image(f@, t@),
            DisplaySource::Lines(l) => DisplayView::Lines(strs(l@)),
            DisplaySource::Empty => DisplayView::Empty,
        }
    }
}

/// What the plugin `id` shows of an entry: a text-like format its text;
/// an image its stored file, with the entry's summary (else `(image item)`)
/// where it cannot be drawn; files their recorded paths.
pub open spec fn display_of(id: Seq<char>, meta: Json, summary: Option<Seq<char>>) -> Result<DisplayView, Seq<char>> {
    if id == "image"@ {
        match first_stored(meta) {
            Some(n) => Ok(
                DisplayView::Image(
                    n,
                    match summary {
                        Some(s) => s,
                        None => "(image item)"@,
                    },
                ),
            ),
            None => Err("image plugin missing stored file"@),
        }
    } else if id == "files"@ {
        match get_spec(meta, "entries"@) {
            Some(Json::Array(a)) => Ok(DisplayView::Lines(entry_paths(a@))),
            _ => Err("file plugin metadata missing entries"@),
        }
    } else {
        Ok(DisplayView::Content(source_of(id, meta)->Ok_0))
    }
}

/// The plugins tried for display: the preferred one first, if any, then the
/// entry's plugin order.
pub open spec fn display_candidates(preferred: Option<Seq<char>>, order: Seq<Seq<char>>) -> Seq<Seq<char>> {
    match preferred {
        Some(p) => seq![p] + order,
        None => order,
    }
}

/// What `show` displays of an entry: the first plugin, the preferred one
/// before the entry's order, that has metadata and is known shows its
/// format; nothing is shown when none does.  An entry without plugin
/// metadata is refused.
pub fn display_plan(metadata: &EntryMetadata, preferred: Option<&str>) -> (r: Result<DisplaySource, String>)
    ensures
        !(get_spec(metadata.extra, "plugins"@) matches Some(Json::Object(_))) ==> (r matches Err(e)
            && e@ == "Missing plugin metadata for "@ + metadata.hash@),
        get_spec(metadata.extra, "plugins"@) matches Some(Json::Object(m)) ==> match first_displayable(
            display_candidates(
                match preferred {
                    Some(p) => Some(p@),
                    None => None,
                },
                crate::plugins::order_spec(metadata.extra, m@),
            ),
            m@,
        ) {
            None => r matches Ok(d) && d@ == DisplayView::Empty,
            Some(id) => match display_of(id, member(m@, id)->0, opt_str(metadata.summary)) {
                Ok(v) => r matches Ok(d) && d@ == v,
                Err(e) => r matches Err(re) && re@ == e,
            },
        },
{
    proof {
        reveal_strlit("files");
        reveal_strlit("image");
        reveal_strlit("text");
        reveal_strlit("html");
        reveal_strlit("rtf");
        assert("files"@.len() == 5 && "image"@.len() == 5 && "text"@.len() == 4);
        assert("html"@.len() == 4 && "rtf"@.len() == 3);
        assert("files"@[0] != "image"@[0] && "text"@[0] != "html"@[0]);
    }
    let (order, map) = match crate::plugins::extract_plugin_meta(metadata) {
        Some(x) => x,
        None => {
            return Err(concat("Missing plugin metadata for ", metadata.hash.as_str()));
        },
    };
    let ghost gorder = strs(order@);
    let mut ids: Vec<String> = Vec::new();
    match preferred {
        Some(p) => ids.push(owned(p)),
        None => {},
    }
    let ghost pre = strs(ids@);
    let mut rest = order;
    ids.append(&mut rest);
    assert(strs(ids@) =~= display_candidates(
        match preferred {
            Some(p) => Some(p@),
            None => None,
        },
        gorder,
    ));
    let id = match find_displayable(&ids, map) {
        Some(id) => id,
        None => {
            return Ok(DisplaySource::Empty);
        },
    };
    proof {
        lemma_first_displayable_known(strs(ids@), map@);
    }
    let meta = match object_member(map, id.as_str()) {
        Some(m) => m,
        None => {
            return Ok(DisplaySource::Empty);
        },
    };
    let names = stored_file_names(meta);
    if str_eq(id.as_str(), "image") {
        if names.len() == 0 {
            return Err("image plugin missing stored file".to_string());
        }
        let fallback = match &metadata.summary {
            Some(s) => s.clone(),
            None => "(image item)".to_string(),
        };
        return Ok(DisplaySource::Image(names[0].clone(), fallback));
    }
    if str_eq(id.as_str(), "files") {
        return match meta.get("entries") {
            Some(Json::Array(a)) => Ok(DisplaySource::Lines(entry_paths_of(a))),
            _ => Err("file plugin metadata missing entries".to_string()),
        };
    }
    let first = if names.len() > 0 {
        Some(names[0].clone())
    } else {
        None
    };
    assert(opt_str(first) == first_stored(*meta));
    if str_eq(id.as_str(), "text") {
        Ok(DisplaySource::Content(ContentSource::Text(first)))
    } else if str_eq(id.as_str(), "html") {
        Ok(DisplaySource::Content(ContentSource::Html(first)))
    } else {
        Ok(DisplaySource::Content(ContentSource::Rtf(first)))
    }
}

// ---------------------------------------------------------------------------
// The details logged beside a shown entry
// ---------------------------------------------------------------------------

/// The whole number a JSON number writes in plain digits, when it fits in
/// 64 bits (`Value::as_u64`).
pub open spec fn json_u64_spec(v: Json) -> Option<nat> {
    match v {
        Json::Number(t) => if t@.len() > 0 && all_digits(t@) && digits_value(t@) <= u64::MAX {
            Some(digits_value(t@))
        } else {
            None
        },
        _ => None,
    }
}

/// The whole number a JSON value holds, if it holds one that fits.
pub fn json_u64(v: &Json) -> (r: Option<u64>)
    ensures
        r matches Some(n) ==> json_u64_spec(*v) == Some(n as nat),
        r is None ==> json_u64_spec(*v) is None,
{
    let t = match v {
        Json::Number(t) => t,
        _ => {
            return None;
        },
    };
    let d = chars_of(t.as_str());
    if d.len() == 0 {
        return None;
    }
    let mut acc: u64 = 0;
    let mut overflow = false;
    let mut i: usize = 0;
    assert(d@.take(0) =~= Seq::<char>::empty());
    while i < d.len()
        invariant
            i <= d.len(),
            d@ == t@,
            *v == Json::Number(*t),
            forall|k: int| 0 <= k < i ==> '0' <= #[trigger] d@[k] && d@[k] <= '9',
            !overflow ==> acc as nat == digits_value(d@.take(i as int)),
            overflow ==> digits_value(d@.take(i as int)) > u64::MAX,
        decreases d.len() - i,
    {
        let c = d[i];
        if c < '0' || c > '9' {
            assert(!all_digits(t@));
            return None;
        }
        let dig = ((c as u32) - 48) as u64;
        assert(d@.take(i + 1).drop_last() =~= d@.take(i as int));
        assert(d@.take(i + 1).last() == c);
        if !overflow {
            match acc.checked_mul(10) {
                Some(m) => match m.checked_add(dig) {
                    Some(n) => {
                        acc = n;
                    },
                    None => {
                        overflow = true;
                    },
                },
                None => {
                    overflow = true;
                },
            }
        }
        i = i + 1;
    }
    assert(d@.take(d.len() as int) =~= d@);
    if overflow {
        None
    } else {
        Some(acc)
    }
}

/// The models of key and value pairs.
pub open spec fn pair_views(v: Seq<(String, String)>) -> Seq<(Seq<char>, Seq<char>)> {
    v.map_values(|p: (String, String)| (p.0@, p.1@))
}

/// The width or height an image noted, 0 when it noted none.
pub open spec fn noted_dimension(meta: Json, key: Seq<char>) -> nat {
    match get_spec(meta, key) {
        Some(v) => match json_u64_spec(v) {
            Some(n) => n,
            None => 0,
        },
        None => 0,
    }
}

/// What the plugin `id` logs of an entry, given the text of a text-like
/// format: its kind, then a text's or markup's length in characters, RTF's
/// length in bytes, an image's noted dimensions and type, or the number of
/// recorded files.
pub open spec fn details_spec(id: Seq<char>, meta: Json, content: Seq<char>) -> Seq<(Seq<char>, Seq<char>)> {
    if id == "text"@ || id == "html"@ {
        seq![("kind"@, id), ("length"@, decimal(content.len()))]
    } else if id == "rtf"@ {
        seq![("kind"@, "rtf"@), ("bytes"@, decimal(vstd::utf8::encode_utf8(content).len()))]
    } else if id == "image"@ {
        seq![
            ("kind"@, "image"@),
            ("dimensions"@, decimal(noted_dimension(meta, "width"@)) + "x"@ + decimal(
                noted_dimension(meta, "height"@),
            )),
            ("mime"@, crate::json_items::noted_image_mime(meta)),
        ]
    } else if id == "files"@ {
        seq![
            ("kind"@, "file"@),
            ("entries"@, decimal(
                match get_spec(meta, "entries"@) {
                    Some(Json::Array(a)) => a@.len(),
                    _ => 0,
                },
            )),
        ]
    } else {
        Seq::empty()
    }
}

/// A noted dimension.
fn dimension(meta: &Json, key: &str) -> (r: u64)
    ensures
        r as nat == noted_dimension(*meta, key@),
{
    match meta.get(key) {
        Some(v) => match json_u64(v) {
            Some(n) => n,
            None => 0,
        },
        None => 0,
    }
}

/// What the plugin `id` logs of an entry.
pub fn plugin_details(id: &str, plugin_meta: &Json, content: &str) -> (r: Vec<(String, String)>)
    ensures
        pair_views(r@) == details_spec(id@, *plugin_meta, content@),
{
    proof {
        reveal_strlit("files");
        reveal_strlit("image");
        reveal_strlit("text");
        reveal_strlit("html");
        reveal_strlit("rtf");
        assert("files"@.len() == 5 && "image"@.len() == 5 && "text"@.len() == 4);
        assert("html"@.len() == 4 && "rtf"@.len() == 3);
        assert("files"@[0] != "image"@[0] && "text"@[0] != "html"@[0]);
    }
    let mut r: Vec<(String, String)> = Vec::new();
    if str_eq(id, "text") || str_eq(id, "html") {
        let n = chars_of(content).len();
        r.push((owned("kind"), owned(id)));
        r.push((owned("length"), usize_to_string(n)));
    } else if str_eq(id, "rtf") {
        r.push((owned("kind"), owned("rtf")));
        r.push((owned("bytes"), usize_to_string(content.as_bytes().len())));
    } else if str_eq(id, "image") {
        let mut dims = u64_to_string(dimension(plugin_meta, "width"));
        dims.append("x");
        dims.append(u64_to_string(dimension(plugin_meta, "height")).as_str());
        let mime = match plugin_meta.get("mime") {
            Some(Json::Str(m)) => m.clone(),
            _ => owned("image/png"),
        };
        r.push((owned("kind"), owned("image")));
        r.push((owned("dimensions"), dims));
        r.push((owned("mime"), mime));
    } else if str_eq(id, "files") {
        let n: usize = match plugin_meta.get("entries") {
            Some(Json::Array(a)) => a.len(),
            _ => 0,
        };
        r.push((owned("kind"), owned("file")));
        r.push((owned("entries"), usize_to_string(n)));
    }
    assert(pair_views(r@) =~= details_spec(id@, *plugin_meta, content@));
    r
}

/// The plugin whose details are logged for an entry: the first in its
/// order that has metadata and is known; none without plugin metadata.
pub fn detail_plugin(metadata: &EntryMetadata) -> (r: Option<String>)
    ensures
        !(get_spec(metadata.extra, "plugins"@) matches Some(Json::Object(_))) ==> r is None,
        get_spec(metadata.extra, "plugins"@) matches Some(Json::Object(m)) ==> opt_str(r)
            == first_displayable(crate::plugins::order_spec(metadata.extra, m@), m@),
{
    match crate::plugins::extract_plugin_meta(metadata) {
        Some((order, map)) => find_displayable(&order, map),
        None => None,
    }
}

/// The details logged beside a shown entry, as `key=value` pairs separated
/// by spaces: its date, copy count, hash, size, directory and kind, its
/// summary on one line when it has one, then what its plugin logs.
pub open spec fn details_message_spec(
    metadata: EntryMetadata,
    item_path: Seq<char>,
    plugin: Seq<(Seq<char>, Seq<char>)>,
) -> Seq<char> {
    crate::text::joined_with(kv_texts(detail_pairs(metadata, item_path) + plugin), " "@)
}

/// The entry's own details: date, copy count, hash, size, directory, kind
/// and, when it has one, its summary on one line.
pub open spec fn detail_pairs(metadata: EntryMetadata, item_path: Seq<char>) -> Seq<(Seq<char>, Seq<char>)> {
    let base = seq![
        ("date"@, crate::timefmt::iso_text(metadata.last_seen as int)),
        ("copies"@, decimal(metadata.copy_count as nat)),
        ("hash"@, metadata.hash@),
        ("size"@, crate::numfmt::human_size_spec(metadata.byte_size as nat)),
        ("path"@, item_path),
        ("kind"@, crate::store::kind_name(metadata.kind)),
    ];
    match metadata.summary {
        Some(s) => base.push(("summary"@, crate::cli::clean_summary_spec(s@))),
        None => base,
    }
}

/// Each pair written as `key=value`.
pub open spec fn kv_texts(v: Seq<(Seq<char>, Seq<char>)>) -> Seq<Seq<char>> {
    Seq::new(v.len(), |i: int| v[i].0 + "="@ + v[i].1)
}

/// The details logged beside a shown entry.
pub fn details_message(metadata: &EntryMetadata, item_path: &str, plugin: &Vec<(String, String)>) -> (r: String)
    requires
        crate::timefmt::valid_timestamp(metadata.last_seen as int),
    ensures
        r@ == details_message_spec(*metadata, item_path@, pair_views(plugin@)),
{
    let mut pairs: Vec<(String, String)> = Vec::new();
    pairs.push((owned("date"), crate::timefmt::format_iso(metadata.last_seen)));
    pairs.push((owned("copies"), u64_to_string(metadata.copy_count)));
    pairs.push((owned("hash"), metadata.hash.clone()));
    pairs.push((owned("size"), crate::numfmt::human_size(metadata.byte_size)));
    pairs.push((owned("path"), owned(item_path)));
    pairs.push((owned("kind"), crate::store::kind_label(metadata.kind)));
    let ghost base = seq![
        ("date"@, crate::timefmt::iso_text(metadata.last_seen as int)),
        ("copies"@, decimal(metadata.copy_count as nat)),
        ("hash"@, metadata.hash@),
        ("size"@, crate::numfmt::human_size_spec(metadata.byte_size as nat)),
        ("path"@, item_path@),
        ("kind"@, crate::store::kind_name(metadata.kind)),
    ];
    assert(pair_views(pairs@) =~= base);
    match &metadata.summary {
        Some(s) => {
            pairs.push((owned("summary"), crate::cli::clean_summary(s.as_str())));
            assert(pair_views(pairs@) =~= base.push(("summary"@, crate::cli::clean_summary_spec(s@))));
        },
        None => {},
    }
    let ghost head = pair_views(pairs@);
    assert(head =~= detail_pairs(*metadata, item_path@));
    let mut i: usize = 0;
    while i < plugin.len()
        invariant
            i <= plugin.len(),
            pair_views(pairs@) == head + pair_views(plugin@).take(i as int),
        decreases plugin.len() - i,
    {
        let ghost before = pair_views(pairs@);
        pairs.push((plugin[i].0.clone(), plugin[i].1.clone()));
        assert(pair_views(pairs@) =~= before.push(pair_views(plugin@)[i as int]));
        assert(pair_views(plugin@).take(i + 1) =~= pair_views(plugin@).take(i as int).push(
            pair_views(plugin@)[i as int],
        ));
        i = i + 1;
        assert(pair_views(pairs@) =~= head + pair_views(plugin@).take(i as int));
    }
    assert(pair_views(plugin@).take(plugin.len() as int) =~= pair_views(plugin@));
    let mut parts: Vec<String> = Vec::new();
    let mut j: usize = 0;
    while j < pairs.len()
        invariant
            j <= pairs.len(),
            parts@.len() == j,
            forall|k: int| 0 <= k < j ==> #[trigger] parts@[k]@ == pairs@[k].0@ + "="@ + pairs@[k].1@,
        decreases pairs.len() - j,
    {
        let mut p = concat(pairs[j].0.as_str(), "=");
        p.append(pairs[j].1.as_str());
        parts.push(p);
        j = j + 1;
    }
    let ghost all = pair_views(pairs@);
    let ghost expected = detail_pairs(*metadata, item_path@) + pair_views(plugin@);
    assert(all =~= expected);
    assert(parts@.map_values(|p: String| p@) =~= kv_texts(expected));
    crate::text::join_strings(&parts, " ")
}

// ---------------------------------------------------------------------------
// Terminals that draw images
// ---------------------------------------------------------------------------

/// The terminal draws images inline: iTerm (a session id, or `TERM_PROGRAM`
/// `iTerm.app`), WezTerm (a pane id, or `TERM_PROGRAM` `WezTerm`, in any
/// case) or a `TERM` that names kitty or wezterm.
pub open spec fn supports_images_spec(
    iterm_session: bool,
    term_program: Option<Seq<char>>,
    term: Option<Seq<char>>,
    wezterm_pane: bool,
) -> bool {
    ||| iterm_session
    ||| (term_program matches Some(p) && (crate::text::ascii_lower_seq(p) == "wezterm"@
        || crate::text::ascii_lower_seq(p) == "iterm.app"@))
    ||| (term matches Some(t) && (crate::text::contains_seq(t, "kitty"@) || crate::text::contains_seq(
        t,
        "wezterm"@,
    )))
    ||| wezterm_pane
}

/// Whether the terminal described by these environment values draws images
/// inline.
pub fn terminal_supports_images(
    iterm_session: bool,
    term_program: Option<&str>,
    term: Option<&str>,
    wezterm_pane: bool,
) -> (r: bool)
    ensures
        r == supports_images_spec(
            iterm_session,
            match term_program {
                Some(p) => Some(p@),
                None => None,
            },
            match term {
                Some(t) => Some(t@),
                None => None,
            },
            wezterm_pane,
        ),
{
    proof {
        reveal_strlit("wezterm");
        reveal_strlit("iterm.app");
    }
    if iterm_session {
        return true;
    }
    let by_program = match term_program {
        Some(p) => {
            let lower = crate::text::ascii_lowercased(p);
            str_eq(lower.as_str(), "wezterm") || str_eq(lower.as_str(), "iterm.app")
        },
        None => false,
    };
    if by_program {
        return true;
    }
    let by_term = match term {
        Some(t) => crate::text::str_contains(t, "kitty") || crate::text::str_contains(t, "wezterm"),
        None => false,
    };
    by_term || wezterm_pane
}

} // verus!
