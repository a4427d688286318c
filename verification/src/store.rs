//! What is stored with an entry: its search text, its sources, its summary
//! and the metadata that a new capture merges into, and the labels and
//! previews shown for it.  Reading and writing the entry's files is left to
//! the caller.

use vstd::prelude::*;
use crate::json::{get_spec, member, strings_of, Json};
use crate::lists::{contains_str, dedupe_preserve_order, firsts, push_unique};
use crate::model::{opt_str, strs, EntryKind, EntryMetadata};
use crate::plugins::PluginCapture;
use crate::text::{
    concat, joined_with, join_strings, owned, str_eq, take_chars, trim, trimmed,
};

verus! {

/// The longest search text kept for an entry, in characters.
pub const MAX_SEARCH_TEXT_CHARS: usize = 65536;

/// The most capture texts that go into an entry's search text.
pub const MAX_SEARCH_TEXT_SEGMENTS: usize = 4;

/// `s` trimmed, then cut to at most `max` characters.
pub open spec fn clip_spec(s: Seq<char>, max: nat) -> Seq<char> {
    let t = trim(s);
    t.take(if t.len() < max { t.len() as int } else { max as int })
}

/// The input trimmed and cut to at most `max_chars` characters.
pub fn clip_search_text_to_max(input: &str, max_chars: usize) -> (r: String)
    ensures
        r@ == clip_spec(input@, max_chars as nat),
{
    let t = trimmed(input);
    take_chars(t.as_str(), max_chars)
}

/// The input trimmed and cut to the search-text limit.
pub fn clip_search_text(input: &str) -> (r: String)
    ensures
        r@ == clip_spec(input@, MAX_SEARCH_TEXT_CHARS as nat),
{
    clip_search_text_to_max(input, MAX_SEARCH_TEXT_CHARS)
}

/// The captures' search texts that are not blank, trimmed, in order.
pub open spec fn nonblank_texts(cs: Seq<PluginCapture>) -> Seq<Seq<char>>
    decreases cs.len(),
{
    if cs.len() == 0 {
        Seq::empty()
    } else {
        let rest = nonblank_texts(cs.drop_last());
        match cs.last().search_text {
            Some(t) => if trim(t@).len() > 0 {
                rest.push(trim(t@))
            } else {
                rest
            },
            None => rest,
        }
    }
}

/// The longest piece that one capture adds to the search text.
pub open spec fn segment_max() -> nat {
    (MAX_SEARCH_TEXT_CHARS / MAX_SEARCH_TEXT_SEGMENTS) as nat
}

/// A piece of search text cut to the segment limit.
pub open spec fn segment(t: Seq<char>) -> Seq<char> {
    t.take(if t.len() < segment_max() { t.len() as int } else { segment_max() as int })
}

/// The pieces of search text: the distinct non-blank capture texts, the
/// first four of them, each cut to a quarter of the limit.
pub open spec fn segments(cs: Seq<PluginCapture>) -> Seq<Seq<char>> {
    let d = firsts(nonblank_texts(cs));
    let n = if d.len() < 4 { d.len() as int } else { 4 };
    d.take(n).map_values(|t: Seq<char>| segment(t))
}

/// The search text of an entry: the override when it is not blank; else
/// the capture texts joined by blank lines; else the summary; always
/// trimmed and cut to the limit, and `None` when nothing is left.
pub open spec fn search_text_spec(
    cs: Seq<PluginCapture>,
    summary: Seq<char>,
    override_text: Option<Seq<char>>,
) -> Option<Seq<char>> {
    let max = MAX_SEARCH_TEXT_CHARS as nat;
    if override_text is Some && clip_spec(override_text->0, max).len() > 0 {
        Some(clip_spec(override_text->0, max))
    } else {
        let segs = segments(cs);
        let text = if segs.len() == 0 {
            clip_spec(summary, max)
        } else {
            clip_spec(joined_with(segs, "\n\n"@), max)
        };
        if text.len() == 0 {
            None
        } else {
            Some(text)
        }
    }
}

/// The search text of an entry.
pub fn build_search_text(
    captures: &[PluginCapture],
    summary: &str,
    override_text: Option<&str>,
) -> (r: Option<String>)
    ensures
        opt_str(r) == search_text_spec(captures@, summary@, match override_text {
            Some(o) => Some(o@),
            None => None,
        }),
{
    if let Some(o) = override_text {
        let clipped = clip_search_text(o);
        if !clipped.as_str().is_empty() {
            return Some(clipped);
        }
    }
    let mut seen: Vec<String> = Vec::new();
    let mut segs: Vec<String> = Vec::new();
    let mut i: usize = 0;
    while i < captures.len()
        invariant
            i <= captures.len(),
            strs(seen@) == firsts(nonblank_texts(captures@.take(i as int))),
            segs@.len() == (if seen@.len() < 4 { seen@.len() } else { 4 }),
            forall|j: int| 0 <= j < segs@.len() ==> #[trigger] segs@[j]@ == segment(seen@[j]@),
        decreases captures.len() - i,
    {
        assert(captures@.take(i + 1).drop_last() =~= captures@.take(i as int));
        assert(captures@.take(i + 1).last() == captures@[i as int]);
        let ghost prev = nonblank_texts(captures@.take(i as int));
        if let Some(text) = &captures[i].search_text {
            let t = trimmed(text.as_str());
            if !t.as_str().is_empty() {
                assert(nonblank_texts(captures@.take(i + 1)) == prev.push(t@));
                assert(prev.push(t@).drop_last() =~= prev);
                if !contains_str(&seen, t.as_str()) {
                    if segs.len() < MAX_SEARCH_TEXT_SEGMENTS {
                        let piece = take_chars(t.as_str(), MAX_SEARCH_TEXT_CHARS / MAX_SEARCH_TEXT_SEGMENTS);
                        segs.push(piece);
                    }
                    let ghost old_seen = seen@;
                    seen.push(t);
                    assert(strs(seen@) =~= strs(old_seen).push(seen@.last()@));
                }
            }
        }
        i = i + 1;
    }
    assert(captures@.take(captures.len() as int) =~= captures@);
    assert(strs(segs@) =~= segments(captures@));
    if segs.len() == 0 {
        let fallback = clip_search_text(summary);
        if fallback.as_str().is_empty() {
            None
        } else {
            Some(fallback)
        }
    } else {
        let joined = join_strings(&segs, "\n\n");
        assert(segs@.map_values(|p: String| p@) =~= strs(segs@));
        let clipped = clip_search_text(joined.as_str());
        if clipped.as_str().is_empty() {
            None
        } else {
            Some(clipped)
        }
    }
}

// ---------------------------------------------------------------------------
// Sources and formats
// ---------------------------------------------------------------------------

/// The sources of all captures, one capture after another.
pub open spec fn capture_sources(cs: Seq<PluginCapture>) -> Seq<Seq<char>>
    decreases cs.len(),
{
    if cs.len() == 0 {
        Seq::empty()
    } else {
        capture_sources(cs.drop_last()) + strs(cs.last().sources@)
    }
}

/// The captures' sources followed by the base sources, without repeats.
pub fn combine_sources(captures: &[PluginCapture], base_sources: Vec<String>) -> (r: Vec<String>)
    ensures
        strs(r@) == firsts(capture_sources(captures@) + strs(base_sources@)),
{
    let mut combined: Vec<String> = Vec::new();
    let mut i: usize = 0;
    while i < captures.len()
        invariant
            i <= captures.len(),
            strs(combined@) == firsts(capture_sources(captures@.take(i as int))),
        decreases captures.len() - i,
    {
        let ghost before = capture_sources(captures@.take(i as int));
        assert(captures@.take(i + 1).drop_last() =~= captures@.take(i as int));
        let srcs = &captures[i].sources;
        let mut j: usize = 0;
        while j < srcs.len()
            invariant
                j <= srcs.len(),
                strs(combined@) == firsts(before + strs(srcs@).take(j as int)),
            decreases srcs.len() - j,
        {
            assert((before + strs(srcs@).take(j + 1)).drop_last() =~= before + strs(srcs@).take(
                j as int,
            ));
            assert((before + strs(srcs@).take(j + 1)).last() == srcs@[j as int]@);
            push_unique(&mut combined, srcs[j].clone());
            j = j + 1;
        }
        assert(before + strs(srcs@).take(srcs.len() as int) =~= capture_sources(
            captures@.take(i + 1),
        ));
        i = i + 1;
    }
    assert(captures@.take(captures.len() as int) =~= captures@);
    let ghost before = capture_sources(captures@);
    let mut k: usize = 0;
    while k < base_sources.len()
        invariant
            k <= base_sources.len(),
            strs(combined@) == firsts(before + strs(base_sources@).take(k as int)),
        decreases base_sources.len() - k,
    {
        assert((before + strs(base_sources@).take(k + 1)).drop_last() =~= before + strs(
            base_sources@,
        ).take(k as int));
        assert((before + strs(base_sources@).take(k + 1)).last() == base_sources@[k as int]@);
        push_unique(&mut combined, base_sources[k].clone());
        k = k + 1;
    }
    assert(strs(base_sources@).take(base_sources.len() as int) =~= strs(base_sources@));
    combined
}

/// The pasteboard type that stands for a plugin's content.
pub open spec fn format_label(plugin_id: Seq<char>) -> Seq<char> {
    if plugin_id == "text"@ {
        "public.utf8-plain-text"@
    } else if plugin_id == "html"@ {
        "public.html"@
    } else if plugin_id == "rtf"@ {
        "public.rtf"@
    } else if plugin_id == "image"@ {
        "public.png"@
    } else if plugin_id == "files"@ {
        "public.file-url"@
    } else {
        "public.data"@
    }
}

/// The detected formats of an imported item that names none: the
/// pasteboard type of each capture's plugin, without repeats.
pub fn inferred_detected_formats(captures: &[PluginCapture]) -> (r: Vec<String>)
    ensures
        strs(r@) == firsts(captures@.map_values(|c: PluginCapture| format_label(c.plugin_id@))),
{
    let ghost labels = captures@.map_values(|c: PluginCapture| format_label(c.plugin_id@));
    let mut formats: Vec<String> = Vec::new();
    let mut i: usize = 0;
    while i < captures.len()
        invariant
            i <= captures.len(),
            labels == captures@.map_values(|c: PluginCapture| format_label(c.plugin_id@)),
            strs(formats@) == firsts(labels.take(i as int)),
        decreases captures.len() - i,
    {
        let id = captures[i].plugin_id.as_str();
        let label = if str_eq(id, "text") {
            "public.utf8-plain-text"
        } else if str_eq(id, "html") {
            "public.html"
        } else if str_eq(id, "rtf") {
            "public.rtf"
        } else if str_eq(id, "image") {
            "public.png"
        } else if str_eq(id, "files") {
            "public.file-url"
        } else {
            "public.data"
        };
        assert(labels.take(i + 1).drop_last() =~= labels.take(i as int));
        assert(labels.take(i + 1).last() == label@);
        push_unique(&mut formats, label.to_string());
        i = i + 1;
    }
    assert(labels.take(captures.len() as int) =~= labels);
    formats
}

// ---------------------------------------------------------------------------
// The metadata of a stored entry
// ---------------------------------------------------------------------------

/// How a store changes an entry's copy count: one more copy, or a count
/// given by an import.
pub enum CopyCountMode {
    Increment,
    Override(u64),
}

/// The copy count after a store: one more than before (saturating) or 1
/// for a new entry; an imported count, at least 1.
pub open spec fn copy_count_spec(mode: CopyCountMode, existing: Option<u64>) -> u64 {
    match mode {
        CopyCountMode::Increment => match existing {
            Some(c) => if c == u64::MAX {
                u64::MAX
            } else {
                (c + 1) as u64
            },
            None => 1,
        },
        CopyCountMode::Override(v) => if v < 1 {
            1
        } else {
            v
        },
    }
}

/// The name of the first file of the first capture that stores one.
pub open spec fn first_file_of(cs: Seq<PluginCapture>) -> Option<Seq<char>>
    decreases cs.len(),
{
    if cs.len() == 0 {
        None
    } else if cs[0].files@.len() > 0 {
        Some(cs[0].files@[0].filename@)
    } else {
        first_file_of(cs.drop_first())
    }
}

/// The summary of the first capture that has one.
pub open spec fn first_summary_of(cs: Seq<PluginCapture>) -> Option<Seq<char>>
    decreases cs.len(),
{
    if cs.len() == 0 {
        None
    } else if cs[0].summary is Some {
        opt_str(cs[0].summary)
    } else {
        first_summary_of(cs.drop_first())
    }
}

/// The entry's content file: the leading capture's first file, else the
/// first file of any capture, else `item.bin`.
pub open spec fn primary_spec(cs: Seq<PluginCapture>, p: int) -> Seq<char> {
    if cs[p].files@.len() > 0 {
        cs[p].files@[0].filename@
    } else {
        match first_file_of(cs) {
            Some(f) => f,
            None => "item.bin"@,
        }
    }
}

/// The entry's summary: the leading capture's, else the hint, else the
/// first summary of any capture, else the leading capture's kind.
pub open spec fn summary_choice(cs: Seq<PluginCapture>, p: int, hint: Option<Seq<char>>) -> Seq<char> {
    match opt_str(cs[p].summary) {
        Some(s) => s,
        None => match hint {
            Some(h) => h,
            None => match first_summary_of(cs) {
                Some(s) => s,
                None => cs[p].kind@,
            },
        },
    }
}

/// The sum of the captures' sizes.
pub open spec fn total_bytes(cs: Seq<PluginCapture>) -> int
    decreases cs.len(),
{
    if cs.len() == 0 {
        0
    } else {
        total_bytes(cs.drop_last()) + cs.last().byte_size
    }
}

/// The metadata of the last capture of plugin `k`.
pub open spec fn last_meta(cs: Seq<PluginCapture>, k: Seq<char>) -> Option<Json>
    decreases cs.len(),
{
    if cs.len() == 0 {
        None
    } else if cs.last().plugin_id@ == k {
        Some(cs.last().metadata)
    } else {
        last_meta(cs.drop_last(), k)
    }
}

proof fn lemma_total_bytes_prefix(cs: Seq<PluginCapture>, k: int)
    requires
        0 <= k <= cs.len(),
    ensures
        0 <= total_bytes(cs.take(k)) <= total_bytes(cs),
    decreases cs.len(),
{
    if cs.len() > 0 {
        if k == cs.len() {
            assert(cs.take(k) =~= cs);
            lemma_total_bytes_prefix(cs.drop_last(), k - 1);
        } else {
            assert(cs.drop_last().take(k) =~= cs.take(k));
            lemma_total_bytes_prefix(cs.drop_last(), k);
        }
    }
}

fn first_file(captures: &Vec<PluginCapture>) -> (r: Option<String>)
    ensures
        opt_str(r) == first_file_of(captures@),
{
    let mut i: usize = 0;
    assert(captures@.skip(0) =~= captures@);
    while i < captures.len()
        invariant
            i <= captures.len(),
            first_file_of(captures@) == first_file_of(captures@.skip(i as int)),
        decreases captures.len() - i,
    {
        assert(captures@.skip(i as int)[0] == captures@[i as int]);
        assert(captures@.skip(i as int).drop_first() =~= captures@.skip(i + 1));
        if captures[i].files.len() > 0 {
            return Some(captures[i].files[0].filename.clone());
        }
        i = i + 1;
    }
    None
}

fn first_summary(captures: &Vec<PluginCapture>) -> (r: Option<String>)
    ensures
        opt_str(r) == first_summary_of(captures@),
{
    let mut i: usize = 0;
    assert(captures@.skip(0) =~= captures@);
    while i < captures.len()
        invariant
            i <= captures.len(),
            first_summary_of(captures@) == first_summary_of(captures@.skip(i as int)),
        decreases captures.len() - i,
    {
        assert(captures@.skip(i as int)[0] == captures@[i as int]);
        assert(captures@.skip(i as int).drop_first() =~= captures@.skip(i + 1));
        if let Some(s) = &captures[i].summary {
            return Some(s.clone());
        }
        i = i + 1;
    }
    None
}

/// The checks before an entry is stored: some plugin captured the
/// snapshot, and some capture has a file to write.
pub fn check_captures(captures: &Vec<PluginCapture>) -> (r: Result<(), String>)
    ensures
        captures@.len() == 0 ==> (r matches Err(e) && e@ == "No plugin captures available"@),
        captures@.len() > 0 && first_file_of(captures@) is None ==> (r matches Err(e) && e@
            == "No plugin produced persisted files"@),
        captures@.len() > 0 && first_file_of(captures@) is Some ==> r is Ok,
{
    if captures.len() == 0 {
        return Err("No plugin captures available".to_string());
    }
    match first_file(captures) {
        Some(_) => Ok(()),
        None => Err("No plugin produced persisted files".to_string()),
    }
}

/// The extra metadata of a stored entry holds, under `plugins`, each
/// plugin's metadata (the last capture's, for a plugin that captured
/// twice), and under `pluginOrder` the captures' plugin ids in order.
pub open spec fn extra_ok(extra: Json, cs: Seq<PluginCapture>) -> bool {
    &&& (get_spec(extra, "plugins"@) matches Some(Json::Object(m)) && forall|k: Seq<char>|
        #[trigger] crate::json::member(m@, k) == last_meta(cs, k))
    &&& (get_spec(extra, "pluginOrder"@) matches Some(Json::Array(a)) && a@.len() == cs.len()
        && strings_of(a@) == cs.map_values(|c: PluginCapture| c.plugin_id@))
}

/// The metadata of an entry after a store, built from the plugins'
/// captures and merged into the entry's existing metadata when it has one
/// (which keeps its hash, first-seen time and version).
pub fn build_entry_metadata(
    hash: &str,
    timestamp: i64,
    captures: Vec<PluginCapture>,
    summary_hint: Option<String>,
    detected_formats: Vec<String>,
    base_sources: Vec<String>,
    copy_mode: CopyCountMode,
    search_override: Option<String>,
    first_seen_override: Option<i64>,
    existing: Option<EntryMetadata>,
    version: &str,
) -> (r: EntryMetadata)
    requires
        captures@.len() > 0,
        total_bytes(captures@) <= u64::MAX,
        crate::layout::hash_splittable(hash@),
    ensures
        ({
            let cs = captures@;
            let p = crate::plugins::min_priority_index(cs, cs.len() as int);
            let summary = summary_choice(cs, p, opt_str(summary_hint));
            &&& r.kind == cs[p].entry_kind
            &&& strs(r.detected_formats@) == strs(detected_formats@)
            &&& r.copy_count == copy_count_spec(copy_mode, match existing {
                Some(e) => Some(e.copy_count),
                None => None,
            })
            &&& r.last_seen == timestamp
            &&& r.byte_size == total_bytes(cs)
            &&& strs(r.sources@) == firsts(capture_sources(cs) + strs(base_sources@))
            &&& strs(r.files@) == strs(r.sources@)
            &&& opt_str(r.summary) == Some(summary)
            &&& opt_str(r.search_text) == search_text_spec(cs, summary, opt_str(search_override))
            &&& r.relative_path@ == crate::layout::relative_path_spec(hash@)
            &&& r.content_filename@ == primary_spec(cs, p)
            &&& extra_ok(r.extra, cs)
            &&& (match existing {
                Some(e) => r.hash@ == e.hash@ && r.first_seen == e.first_seen && r.version@
                    == e.version@,
                None => r.hash@ == hash@ && r.first_seen == (match first_seen_override {
                    Some(t) => t,
                    None => timestamp,
                }) && r.version@ == version@,
            })
        }),
{
    let ghost cs = captures@;
    let lead = crate::plugins::prioritized_capture(captures.as_slice());
    let lead = match lead {
        Some(c) => c,
        None => &captures[0],
    };
    let ghost p = crate::plugins::min_priority_index(cs, cs.len() as int);
    proof {
        crate::plugins::lemma_min_priority_index(cs, cs.len() as int);
    }
    let primary: String = if lead.files.len() > 0 {
        lead.files[0].filename.clone()
    } else {
        match first_file(&captures) {
            Some(f) => f,
            None => "item.bin".to_string(),
        }
    };
    let summary: String = match &lead.summary {
        Some(s) => s.clone(),
        None => match summary_hint {
            Some(h) => h,
            None => match first_summary(&captures) {
                Some(s) => s,
                None => lead.kind.clone(),
            },
        },
    };
    let entry_kind = lead.entry_kind;
    let override_ref: Option<&str> = match &search_override {
        Some(o) => Some(o.as_str()),
        None => None,
    };
    let search_text = build_search_text(captures.as_slice(), summary.as_str(), override_ref);
    assert(match override_ref {
        Some(o) => Some(o@),
        None => None::<Seq<char>>,
    } == opt_str(search_override));
    let mut total: u64 = 0;
    let mut i: usize = 0;
    while i < captures.len()
        invariant
            i <= captures.len(),
            cs == captures@,
            total == total_bytes(cs.take(i as int)),
            total_bytes(cs) <= u64::MAX,
        decreases captures.len() - i,
    {
        assert(cs.take(i + 1).drop_last() =~= cs.take(i as int));
        proof {
            lemma_total_bytes_prefix(cs, i + 1);
        }
        total = total + captures[i].byte_size;
        i = i + 1;
    }
    assert(cs.take(cs.len() as int) =~= cs);
    let combined = combine_sources(captures.as_slice(), base_sources);
    let order = crate::plugins::plugin_order(captures.as_slice());
    let mut order_json: Vec<Json> = Vec::new();
    let mut j: usize = 0;
    while j < order.len()
        invariant
            j <= order.len(),
            order_json@.len() == j,
            strings_of(order_json@) == strs(order@).take(j as int),
        decreases order.len() - j,
    {
        let ghost old_o = order_json@;
        order_json.push(Json::Str(order[j].clone()));
        assert(order_json@.drop_last() =~= old_o);
        j = j + 1;
        assert(strs(order@).take(j as int) =~= strs(order@).take(j - 1).push(order@[j - 1]@));
    }
    assert(strs(order@).take(order.len() as int) =~= strs(order@));
    assert(strs(order@) =~= cs.map_values(|c: PluginCapture| c.plugin_id@));
    let mut plugins: Vec<(String, Json)> = Vec::new();
    let mut rest = captures;
    let mut k: usize = 0;
    assert(cs.skip(0) =~= cs);
    while rest.len() > 0
        invariant
            k <= cs.len(),
            rest@.len() + k == cs.len(),
            cs.len() <= usize::MAX,
            rest@ == cs.skip(k as int),
            forall|key: Seq<char>| #[trigger] crate::json::member(plugins@, key) == last_meta(cs.take(k as int), key),
        decreases rest.len(),
    {
        let c = rest.remove(0);
        assert(cs.take(k + 1).drop_last() =~= cs.take(k as int));
        assert(cs.take(k + 1).last() == c);
        assert(cs.skip(k + 1) =~= cs.skip(k as int).drop_first());
        crate::json::object_insert(&mut plugins, c.plugin_id, c.metadata);
        k = k + 1;
    }
    assert(cs.take(k as int) =~= cs);
    let mut extra_members: Vec<(String, Json)> = Vec::new();
    proof {
        reveal_strlit("plugins");
        reveal_strlit("pluginOrder");
        assert("plugins"@.len() == 7);
        assert("pluginOrder"@.len() == 11);
    }
    crate::json::object_insert(&mut extra_members, "plugins".to_string(), Json::Object(plugins));
    crate::json::object_insert(&mut extra_members, "pluginOrder".to_string(), Json::Array(order_json));
    let extra = Json::Object(extra_members);
    let relative_path = crate::layout::relative_path_for_hash(hash);
    let files = crate::model::clone_strings(&combined);
    match existing {
        Some(mut e) => {
            let copy_count = match copy_mode {
                CopyCountMode::Increment => e.copy_count.saturating_add(1),
                CopyCountMode::Override(v) => if v < 1 {
                    1
                } else {
                    v
                },
            };
            e.last_seen = timestamp;
            e.byte_size = total;
            e.summary = Some(summary);
            e.search_text = search_text;
            e.detected_formats = detected_formats;
            e.sources = combined;
            e.files = files;
            e.content_filename = primary;
            e.extra = extra;
            e.kind = entry_kind;
            e.relative_path = relative_path;
            e.copy_count = copy_count;
            e
        },
        None => {
            let copy_count = match copy_mode {
                CopyCountMode::Increment => 1,
                CopyCountMode::Override(v) => if v < 1 {
                    1
                } else {
                    v
                },
            };
            EntryMetadata {
                hash: owned(hash),
                kind: entry_kind,
                detected_formats,
                copy_count,
                first_seen: match first_seen_override {
                    Some(t) => t,
                    None => timestamp,
                },
                last_seen: timestamp,
                byte_size: total,
                sources: combined,
                summary: Some(summary),
                search_text,
                version: owned(version),
                relative_path,
                content_filename: primary,
                files,
                extra,
            }
        },
    }
}

// ---------------------------------------------------------------------------
// History items
// ---------------------------------------------------------------------------

/// One line of the history: a search hit with its metadata.
pub struct HistoryItem {
    pub summary: String,
    pub kind: String,
    pub metadata: EntryMetadata,
    pub offset: usize,
    pub global_offset: usize,
}

/// The name of an entry kind as `Debug` writes it.
pub open spec fn kind_name(k: EntryKind) -> Seq<char> {
    match k {
        EntryKind::Text => "Text"@,
        EntryKind::Image => "Image"@,
        EntryKind::File => "File"@,
        EntryKind::Other => "Other"@,
    }
}

/// The name of an entry kind.
pub fn kind_label(k: EntryKind) -> (r: String)
    ensures
        r@ == kind_name(k),
{
    match k {
        EntryKind::Text => "Text".to_string(),
        EntryKind::Image => "Image".to_string(),
        EntryKind::File => "File".to_string(),
        EntryKind::Other => "Other".to_string(),
    }
}

/// The history line of a hit: the hit's summary, else the metadata's,
/// else `Clipboard item`; the hit's kind by name and its positions.
pub fn history_item(hit: &crate::search::SearchHit, metadata: EntryMetadata) -> (r: HistoryItem)
    ensures
        r.summary@ == (match opt_str(hit.summary) {
            Some(s) => s,
            None => match opt_str(metadata.summary) {
                Some(s) => s,
                None => "Clipboard item"@,
            },
        }),
        r.kind@ == kind_name(hit.kind),
        r.metadata == metadata,
        r.offset == hit.offset,
        r.global_offset == hit.global_offset,
{
    let summary = match &hit.summary {
        Some(s) => s.clone(),
        None => match &metadata.summary {
            Some(s) => s.clone(),
            None => "Clipboard item".to_string(),
        },
    };
    HistoryItem {
        summary,
        kind: kind_label(hit.kind),
        metadata,
        offset: hit.offset,
        global_offset: hit.global_offset,
    }
}

/// The summary listed for a history item: the entry's own summary, else
/// the item's.
pub fn listed_summary(item: &HistoryItem) -> (r: String)
    ensures
        r@ == (match opt_str(item.metadata.summary) {
            Some(s) => s,
            None => item.summary@,
        }),
{
    match &item.metadata.summary {
        Some(s) => s.clone(),
        None => item.summary.clone(),
    }
}

/// The metadata after one more copy: the copy count grows by one,
/// saturating; nothing else changes.
pub fn bump_copy_count(metadata: &mut EntryMetadata)
    ensures
        final(metadata).copy_count == (if old(metadata).copy_count == u64::MAX {
            u64::MAX
        } else {
            (old(metadata).copy_count + 1) as u64
        }),
        final(metadata).hash == old(metadata).hash,
        final(metadata).last_seen == old(metadata).last_seen,
        final(metadata).first_seen == old(metadata).first_seen,
        final(metadata).kind == old(metadata).kind,
        final(metadata).summary == old(metadata).summary,
        final(metadata).extra == old(metadata).extra,
        final(metadata).detected_formats == old(metadata).detected_formats,
        final(metadata).sources == old(metadata).sources,
        final(metadata).files == old(metadata).files,
        final(metadata).byte_size == old(metadata).byte_size,
        final(metadata).search_text == old(metadata).search_text,
        final(metadata).relative_path == old(metadata).relative_path,
        final(metadata).content_filename == old(metadata).content_filename,
        final(metadata).version == old(metadata).version,
{
    metadata.copy_count = metadata.copy_count.saturating_add(1);
}

// ---------------------------------------------------------------------------
// Files of an entry
// ---------------------------------------------------------------------------

/// The path an entry of the files plugin names: its `source_path`, else
/// its `path`, when that member is a string.
pub open spec fn entry_path(e: Json) -> Option<Seq<char>> {
    let v = match get_spec(e, "source_path"@) {
        Some(v) => Some(v),
        None => get_spec(e, "path"@),
    };
    match v {
        Some(Json::Str(s)) => Some(s@),
        _ => None,
    }
}

/// The paths that the entries name, in order.
pub open spec fn entry_paths(es: Seq<Json>) -> Seq<Seq<char>>
    decreases es.len(),
{
    if es.len() == 0 {
        Seq::empty()
    } else {
        let rest = entry_paths(es.drop_last());
        match entry_path(es.last()) {
            Some(p) => rest.push(p),
            None => rest,
        }
    }
}

/// The entries recorded by the files plugin, if the extra metadata holds
/// them.
pub open spec fn files_entries(extra: Json) -> Option<Seq<Json>> {
    match get_spec(extra, "plugins"@) {
        Some(plugins) => match get_spec(plugins, "files"@) {
            Some(files) => match get_spec(files, "entries"@) {
                Some(Json::Array(a)) => Some(a@),
                _ => None,
            },
            None => None,
        },
        None => None,
    }
}

/// The path named by one entry of the files plugin.
pub fn entry_path_of(e: &Json) -> (r: Option<String>)
    ensures
        opt_str(r) == entry_path(*e),
{
    let v = match e.get("source_path") {
        Some(v) => Some(v),
        None => e.get("path"),
    };
    match v {
        Some(Json::Str(s)) => Some(s.clone()),
        _ => None,
    }
}

/// The paths named by the entries, in order.
pub fn entry_paths_of(es: &Vec<Json>) -> (r: Vec<String>)
    ensures
        strs(r@) == entry_paths(es@),
{
    let mut r: Vec<String> = Vec::new();
    let mut i: usize = 0;
    while i < es.len()
        invariant
            i <= es.len(),
            strs(r@) == entry_paths(es@.take(i as int)),
        decreases es.len() - i,
    {
        assert(es@.take(i + 1).drop_last() =~= es@.take(i as int));
        let ghost old_r = strs(r@);
        match entry_path_of(&es[i]) {
            Some(p) => {
                r.push(p);
                assert(strs(r@) =~= old_r.push(r@.last()@));
            },
            None => {},
        }
        i = i + 1;
    }
    assert(es@.take(es.len() as int) =~= es@);
    r
}

/// The paths that the files plugin recorded for an entry (none when it
/// recorded nothing).
pub fn file_plugin_paths(metadata: &EntryMetadata) -> (r: Vec<String>)
    ensures
        strs(r@) == (match files_entries(metadata.extra) {
            Some(es) => entry_paths(es),
            None => Seq::empty(),
        }),
{
    let plugins = match metadata.extra.get("plugins") {
        Some(p) => p,
        None => {
            return Vec::new();
        },
    };
    let files = match plugins.get("files") {
        Some(f) => f,
        None => {
            return Vec::new();
        },
    };
    match files.get("entries") {
        Some(Json::Array(a)) => entry_paths_of(a),
        _ => Vec::new(),
    }
}

/// The files of an entry: the files plugin's paths, else the recorded
/// files, else the sources, each without repeats.
pub open spec fn resolved_paths_spec(m: EntryMetadata) -> Seq<Seq<char>> {
    let plugin_paths = match files_entries(m.extra) {
        Some(es) => entry_paths(es),
        None => Seq::empty(),
    };
    if plugin_paths.len() > 0 {
        firsts(plugin_paths)
    } else if m.files@.len() > 0 {
        firsts(strs(m.files@))
    } else {
        firsts(strs(m.sources@))
    }
}

/// The files of an entry.
pub fn resolved_file_paths(metadata: &EntryMetadata) -> (r: Vec<String>)
    ensures
        strs(r@) == resolved_paths_spec(*metadata),
{
    let plugin_paths = file_plugin_paths(metadata);
    if plugin_paths.len() > 0 {
        return dedupe_preserve_order(plugin_paths);
    }
    if metadata.files.len() > 0 {
        return dedupe_preserve_order(crate::model::clone_strings(&metadata.files));
    }
    if metadata.sources.len() > 0 {
        return dedupe_preserve_order(crate::model::clone_strings(&metadata.sources));
    }
    let r: Vec<String> = Vec::new();
    assert(strs(metadata.sources@) =~= Seq::<Seq<char>>::empty());
    assert(firsts(strs(metadata.sources@)) =~= Seq::<Seq<char>>::empty());
    r
}

// ---------------------------------------------------------------------------
// Format labels
// ---------------------------------------------------------------------------

/// A format's label with its first character in upper case.
pub open spec fn capitalized(v: Seq<char>) -> Seq<char> {
    if v.len() == 0 {
        Seq::empty()
    } else {
        crate::text::unicode_upper_char(v[0]) + v.drop_first()
    }
}

/// The label shown for a plugin type.
pub open spec fn plugin_label(t: Seq<char>) -> Seq<char> {
    if t == "file"@ || t == "files"@ {
        "Files"@
    } else if t == "text"@ {
        "Text"@
    } else if t == "html"@ {
        "HTML"@
    } else if t == "rtf"@ {
        "RTF"@
    } else if t == "image"@ {
        "Image"@
    } else {
        capitalized(t)
    }
}

/// The label with its first character in upper case.
pub fn capitalize_label(value: &str) -> (r: String)
    ensures
        r@ == capitalized(value@),
{
    let cs = crate::text::chars_of(value);
    if cs.len() == 0 {
        return String::new();
    }
    let mut label = crate::text::uppercased_char(cs[0]);
    let rest = crate::text::string_from_chars(&cs[1..cs.len()]);
    assert(cs@.subrange(1, cs.len() as int) =~= value@.drop_first());
    label.append(rest.as_str());
    label
}

/// The label shown for a plugin type.
pub fn normalize_plugin_label(plugin_type: &str) -> (r: String)
    ensures
        r@ == plugin_label(plugin_type@),
{
    if str_eq(plugin_type, "file") || str_eq(plugin_type, "files") {
        "Files".to_string()
    } else if str_eq(plugin_type, "text") {
        "Text".to_string()
    } else if str_eq(plugin_type, "html") {
        "HTML".to_string()
    } else if str_eq(plugin_type, "rtf") {
        "RTF".to_string()
    } else if str_eq(plugin_type, "image") {
        "Image".to_string()
    } else {
        capitalize_label(plugin_type)
    }
}

/// The label that a detected format suggests, if any: HTML, RTF, Text,
/// Image or Files, by the words in its lower-cased name.
pub open spec fn format_kind_label(f: Seq<char>) -> Option<Seq<char>> {
    let lower = crate::text::ascii_lower_seq(f);
    if crate::text::contains_seq(lower, "html"@) {
        Some("HTML"@)
    } else if crate::text::contains_seq(lower, "rtf"@) {
        Some("RTF"@)
    } else if crate::text::contains_seq(lower, "text"@) || crate::text::contains_seq(lower, "utf8"@) {
        Some("Text"@)
    } else if crate::text::contains_seq(lower, "image"@) || crate::text::contains_seq(lower, "png"@)
        || crate::text::contains_seq(lower, "jpeg"@) {
        Some("Image"@)
    } else if crate::text::contains_seq(lower, "file"@) {
        Some("Files"@)
    } else {
        None
    }
}

/// The labels suggested by the formats, in order.
pub open spec fn suggested_labels(fs: Seq<Seq<char>>) -> Seq<Seq<char>>
    decreases fs.len(),
{
    if fs.len() == 0 {
        Seq::empty()
    } else {
        let rest = suggested_labels(fs.drop_last());
        match format_kind_label(fs.last()) {
            Some(l) => rest.push(l),
            None => rest,
        }
    }
}

/// The labels that the detected formats suggest, without repeats.
pub fn fallback_format_labels(metadata: &EntryMetadata) -> (r: Vec<String>)
    ensures
        strs(r@) == firsts(suggested_labels(strs(metadata.detected_formats@))),
{
    let ghost fs = strs(metadata.detected_formats@);
    let mut labels: Vec<String> = Vec::new();
    let mut i: usize = 0;
    while i < metadata.detected_formats.len()
        invariant
            i <= metadata.detected_formats.len(),
            fs == strs(metadata.detected_formats@),
            strs(labels@) == firsts(suggested_labels(fs.take(i as int))),
        decreases metadata.detected_formats.len() - i,
    {
        assert(fs.take(i + 1).drop_last() =~= fs.take(i as int));
        assert(fs.take(i + 1).last() == metadata.detected_formats@[i as int]@);
        let ghost prev = suggested_labels(fs.take(i as int));
        let lower = crate::text::ascii_lowercased(metadata.detected_formats[i].as_str());
        let l = lower.as_str();
        let label: Option<&str> = if crate::text::str_contains(l, "html") {
            Some("HTML")
        } else if crate::text::str_contains(l, "rtf") {
            Some("RTF")
        } else if crate::text::str_contains(l, "text") || crate::text::str_contains(l, "utf8") {
            Some("Text")
        } else if crate::text::str_contains(l, "image") || crate::text::str_contains(l, "png")
            || crate::text::str_contains(l, "jpeg") {
            Some("Image")
        } else if crate::text::str_contains(l, "file") {
            Some("Files")
        } else {
            None
        };
        match label {
            Some(x) => {
                assert(suggested_labels(fs.take(i + 1)) == prev.push(x@));
                assert(prev.push(x@).drop_last() =~= prev);
                push_unique(&mut labels, x.to_string());
            },
            None => {},
        }
        i = i + 1;
    }
    assert(fs.take(metadata.detected_formats.len() as int) =~= fs);
    labels
}

/// The plugin ids whose labels are shown: the `pluginOrder` strings, or
/// the plugins' names when there is no order or it names none.
pub open spec fn saved_ids(extra: Json, plugins: Seq<(String, Json)>) -> Seq<Seq<char>> {
    let ids = match get_spec(extra, "pluginOrder"@) {
        Some(Json::Array(a)) => strings_of(a@),
        _ => crate::json::keys_of(plugins),
    };
    if ids.len() == 0 {
        crate::json::keys_of(plugins)
    } else {
        ids
    }
}

/// The type of the plugin `id`, when its metadata is an object: its
/// `pluginType` string, else the id itself.
pub open spec fn plugin_type_of(plugins: Seq<(String, Json)>, id: Seq<char>) -> Option<Seq<char>> {
    match crate::json::member(plugins, id) {
        Some(Json::Object(e)) => Some(
            match crate::json::member(e@, "pluginType"@) {
                Some(Json::Str(t)) => t@,
                _ => id,
            },
        ),
        _ => None,
    }
}

/// The non-empty labels of the plugins named by `ids`, in order.
pub open spec fn labels_raw(plugins: Seq<(String, Json)>, ids: Seq<Seq<char>>) -> Seq<Seq<char>>
    decreases ids.len(),
{
    if ids.len() == 0 {
        Seq::empty()
    } else {
        let rest = labels_raw(plugins, ids.drop_last());
        match plugin_type_of(plugins, ids.last()) {
            Some(t) => if plugin_label(t).len() > 0 {
                rest.push(plugin_label(t))
            } else {
                rest
            },
            None => rest,
        }
    }
}

/// The format labels of an entry: those of its plugins, in plugin order
/// and without repeats, or when that gives none, those its detected
/// formats suggest.
pub open spec fn saved_labels_spec(m: EntryMetadata) -> Seq<Seq<char>> {
    let from_plugins = match get_spec(m.extra, "plugins"@) {
        Some(Json::Object(p)) => firsts(labels_raw(p@, saved_ids(m.extra, p@))),
        _ => Seq::empty(),
    };
    if from_plugins.len() > 0 {
        from_plugins
    } else {
        firsts(suggested_labels(strs(m.detected_formats@)))
    }
}

/// The format labels of an entry.
pub fn saved_format_labels(metadata: &EntryMetadata) -> (r: Vec<String>)
    ensures
        strs(r@) == saved_labels_spec(*metadata),
{
    let mut labels: Vec<String> = Vec::new();
    match metadata.extra.get("plugins") {
        Some(Json::Object(plugins)) => {
            let ordered: Vec<String> = match metadata.extra.get("pluginOrder") {
                Some(Json::Array(a)) => crate::json::array_strings(a),
                _ => crate::json::object_keys(plugins),
            };
            assert(strs(ordered@) =~= match get_spec(metadata.extra, "pluginOrder"@) {
                Some(Json::Array(a)) => strings_of(a@),
                _ => crate::json::keys_of(plugins@),
            });
            let ordered = if ordered.len() == 0 {
                let k = crate::json::object_keys(plugins);
                assert(strs(k@) =~= crate::json::keys_of(plugins@));
                k
            } else {
                ordered
            };
            let ghost ids = strs(ordered@);
            assert(ids == saved_ids(metadata.extra, plugins@));
            let mut i: usize = 0;
            while i < ordered.len()
                invariant
                    i <= ordered.len(),
                    ids == strs(ordered@),
                    strs(labels@) == firsts(labels_raw(plugins@, ids.take(i as int))),
                decreases ordered.len() - i,
            {
                assert(ids.take(i + 1).drop_last() =~= ids.take(i as int));
                assert(ids.take(i + 1).last() == ordered@[i as int]@);
                let ghost prev = labels_raw(plugins@, ids.take(i as int));
                let id = ordered[i].as_str();
                let found = crate::json::object_member(plugins, id);
                match found {
                    Some(Json::Object(e)) => {
                        let plugin_type: &str = match crate::json::object_member(e, "pluginType") {
                            Some(Json::Str(t)) => t.as_str(),
                            _ => id,
                        };
                        let label = normalize_plugin_label(plugin_type);
                        if !label.as_str().is_empty() {
                            assert(labels_raw(plugins@, ids.take(i + 1)) == prev.push(label@));
                            assert(prev.push(label@).drop_last() =~= prev);
                            push_unique(&mut labels, label);
                        }
                    },
                    _ => {},
                }
                i = i + 1;
            }
            assert(ids.take(ordered.len() as int) =~= ids);
        },
        _ => {},
    }
    if labels.len() == 0 {
        fallback_format_labels(metadata)
    } else {
        labels
    }
}

// ---------------------------------------------------------------------------
// Previews
// ---------------------------------------------------------------------------

/// A file stored with an entry.
pub struct FileDescriptor {
    pub filename: String,
    pub path: String,
    pub size: u64,
}

/// What is shown of an entry: its content file, its text, its stored files
/// and, for an image, its dimensions.
pub struct ItemPreview {
    pub content_path: Option<String>,
    pub text: Option<String>,
    pub files: Vec<FileDescriptor>,
    pub dimensions: Option<(u32, u32)>,
}

/// A text as previewed: trimmed, carriage returns removed, at most
/// `max_len` characters.
pub open spec fn preview_text_spec(text: Seq<char>, max_len: nat) -> Seq<char> {
    crate::text::truncated(crate::text::remove_char(trim(text), '\r'), max_len)
}

/// The text as previewed.
pub fn truncate_for_preview(text: &str, max_len: usize) -> (r: String)
    ensures
        r@ == preview_text_spec(text@, max_len as nat),
{
    let t = trimmed(text);
    let clean = crate::text::without_char(t.as_str(), '\r');
    crate::text::truncate_chars(clean.as_str(), max_len)
}

/// The path without its last component (`Path::parent`), when it has one.
pub uninterp spec fn path_parent(p: Seq<char>) -> Option<Seq<char>>;

/// `Path::parent`, lossily as text; named `path_parent`.  A parent is a
/// proper prefix of the path, so it is shorter.
#[verifier::external_body]
fn parent_of(p: &str) -> (r: Option<String>)
    ensures
        r matches Some(q) ==> path_parent(p@) == Some(q@) && q@.len() < p@.len(),
        r is None ==> path_parent(p@) is None,
{
    std::path::Path::new(p).parent().map(|q| q.to_string_lossy().into_owned())
}

/// Whether `base` is a prefix of `p`, component by component.
pub uninterp spec fn path_starts_with(p: Seq<char>, base: Seq<char>) -> bool;

/// `Path::starts_with`; named `path_starts_with`.
#[verifier::external_body]
fn starts_with_path(p: &str, base: &str) -> (r: bool)
    ensures
        r == path_starts_with(p@, base@),
{
    std::path::Path::new(p).starts_with(base)
}

/// The parents of the paths that have one, in order.
pub open spec fn parents(ps: Seq<Seq<char>>) -> Seq<Seq<char>>
    decreases ps.len(),
{
    if ps.len() == 0 {
        Seq::empty()
    } else {
        let rest = parents(ps.drop_last());
        match path_parent(ps.last()) {
            Some(q) => rest.push(q),
            None => rest,
        }
    }
}

/// `common` shortened, one component at a time, until `path` starts with
/// it; `None` when it runs out of components first.
pub open spec fn narrow(common: Seq<char>, path: Seq<char>) -> Option<Seq<char>>
    decreases common.len(),
{
    if path_starts_with(path, common) {
        Some(common)
    } else {
        match path_parent(common) {
            Some(q) => if q.len() < common.len() {
                narrow(q, path)
            } else {
                None
            },
            None => None,
        }
    }
}

/// `common` narrowed by each of the paths in turn; `None` when it ran out.
pub open spec fn narrow_all(common: Seq<char>, rest: Seq<Seq<char>>) -> Option<Seq<char>>
    decreases rest.len(),
{
    if rest.len() == 0 {
        Some(common)
    } else {
        match narrow(common, rest[0]) {
            Some(c) => narrow_all(c, rest.drop_first()),
            None => None,
        }
    }
}

/// The deepest folder that holds all the paths: the common prefix of their
/// parents, `/` when they share none, and `None` when no path has a
/// parent.
pub open spec fn narrowest_spec(ps: Seq<Seq<char>>) -> Option<Seq<char>> {
    let pa = parents(ps);
    if pa.len() == 0 {
        None
    } else {
        match narrow_all(pa[0], pa.drop_first()) {
            Some(c) => Some(c),
            None => Some("/"@),
        }
    }
}

fn narrow_to(common: String, path: &str) -> (r: Option<String>)
    ensures
        opt_str(r) == narrow(common@, path@),
    decreases common@.len(),
{
    if starts_with_path(path, common.as_str()) {
        return Some(common);
    }
    match parent_of(common.as_str()) {
        Some(q) => narrow_to(q, path),
        None => None,
    }
}

/// The deepest folder that holds all the paths.
pub fn narrowest_folder(paths: &[String]) -> (r: Option<String>)
    ensures
        opt_str(r) == narrowest_spec(strs(paths@)),
{
    let ghost ps = strs(paths@);
    let mut pa: Vec<String> = Vec::new();
    let mut i: usize = 0;
    while i < paths.len()
        invariant
            i <= paths.len(),
            ps == strs(paths@),
            strs(pa@) == parents(ps.take(i as int)),
        decreases paths.len() - i,
    {
        assert(ps.take(i + 1).drop_last() =~= ps.take(i as int));
        assert(ps.take(i + 1).last() == paths@[i as int]@);
        let ghost old_pa = strs(pa@);
        match parent_of(paths[i].as_str()) {
            Some(q) => {
                pa.push(q);
                assert(strs(pa@) =~= old_pa.push(pa@.last()@));
            },
            None => {},
        }
        i = i + 1;
    }
    assert(ps.take(paths.len() as int) =~= ps);
    if pa.len() == 0 {
        return None;
    }
    let ghost sp = strs(pa@);
    let mut common = pa[0].clone();
    let mut j: usize = 1;
    assert(sp.skip(1) =~= sp.drop_first());
    while j < pa.len()
        invariant
            1 <= j <= pa.len(),
            sp == strs(pa@),
            sp == parents(ps),
            ps == strs(paths@),
            narrow_all(sp[0], sp.drop_first()) == narrow_all(common@, sp.skip(j as int)),
        decreases pa.len() - j,
    {
        assert(sp.skip(j as int)[0] == pa@[j as int]@);
        assert(sp.skip(j as int).drop_first() =~= sp.skip(j + 1));
        let ghost before = common@;
        match narrow_to(common, pa[j].as_str()) {
            Some(c) => {
                assert(narrow_all(before, sp.skip(j as int)) == narrow_all(c@, sp.skip(j + 1)));
                common = c;
            },
            None => {
                assert(narrow_all(before, sp.skip(j as int)) is None);
                return Some("/".to_string());
            },
        }
        j = j + 1;
    }
    assert(sp.skip(j as int) =~= Seq::<Seq<char>>::empty());
    Some(common)
}

/// The one-line preview of an entry: its text, else for files their
/// count, folder and total size, for an image its dimensions and size,
/// and otherwise its summary or kind.
pub open spec fn snippet_spec(p: ItemPreview, m: EntryMetadata) -> Seq<char> {
    match opt_str(p.text) {
        Some(t) => preview_text_spec(t, 160),
        None => if m.kind == EntryKind::File {
            let rp = resolved_paths_spec(m);
            let count: nat = if rp.len() > 0 {
                rp.len()
            } else if m.sources@.len() >= p.files@.len() {
                m.sources@.len()
            } else {
                p.files@.len()
            };
            let desc = if count == 1 { "file"@ } else { "files"@ };
            let hint = if rp.len() > 0 {
                narrowest_spec(rp)
            } else if m.sources@.len() > 0 {
                narrowest_spec(strs(m.sources@))
            } else {
                None
            };
            let loc = match hint {
                Some(l) => l,
                None => "(multiple locations)"@,
            };
            "["@ + crate::text::decimal(count) + " "@ + desc + " in "@ + loc + " - total "@
                + crate::numfmt::human_size_spec(m.byte_size as nat) + "]"@
        } else if m.kind == EntryKind::Image {
            let (w, h) = match p.dimensions {
                Some((w, h)) => if w > 0 && h > 0 {
                    (crate::text::decimal(w as nat), crate::text::decimal(h as nat))
                } else {
                    ("?"@, "?"@)
                },
                None => ("?"@, "?"@),
            };
            "(Image item ["@ + w + " x "@ + h + "] ["@ + crate::numfmt::human_size_spec(
                m.byte_size as nat,
            ) + "])"@
        } else {
            match opt_str(m.summary) {
                Some(s) => s,
                None => kind_name(m.kind),
            }
        },
    }
}

/// The one-line preview of an entry.
pub fn preview_snippet(preview: &ItemPreview, metadata: &EntryMetadata) -> (r: String)
    ensures
        r@ == snippet_spec(*preview, *metadata),
{
    if let Some(text) = &preview.text {
        return truncate_for_preview(text.as_str(), 160);
    }
    if metadata.kind == EntryKind::File {
        let resolved = resolved_file_paths(metadata);
        let count: usize = if resolved.len() > 0 {
            resolved.len()
        } else if metadata.sources.len() >= preview.files.len() {
            metadata.sources.len()
        } else {
            preview.files.len()
        };
        let desc = if count == 1 { "file" } else { "files" };
        let hint = if resolved.len() > 0 {
            narrowest_folder(resolved.as_slice())
        } else if metadata.sources.len() > 0 {
            narrowest_folder(metadata.sources.as_slice())
        } else {
            None
        };
        let loc = match hint {
            Some(l) => l,
            None => "(multiple locations)".to_string(),
        };
        let mut r = concat("[", crate::text::usize_to_string(count).as_str());
        r.append(" ");
        r.append(desc);
        r.append(" in ");
        r.append(loc.as_str());
        r.append(" - total ");
        r.append(crate::numfmt::human_size(metadata.byte_size).as_str());
        r.append("]");
        return r;
    }
    if metadata.kind == EntryKind::Image {
        let (w, h) = match preview.dimensions {
            Some((w, h)) => if w > 0 && h > 0 {
                (crate::text::u64_to_string(w as u64), crate::text::u64_to_string(h as u64))
            } else {
                ("?".to_string(), "?".to_string())
            },
            None => ("?".to_string(), "?".to_string()),
        };
        let mut r = concat("(Image item [", w.as_str());
        r.append(" x ");
        r.append(h.as_str());
        r.append("] [");
        r.append(crate::numfmt::human_size(metadata.byte_size).as_str());
        r.append("])");
        return r;
    }
    match &metadata.summary {
        Some(s) => s.clone(),
        None => kind_label(metadata.kind),
    }
}

/// The stored files that a plugin's metadata names: the strings of its
/// `storedFiles` array, none when it has no such array.
pub open spec fn stored_names(plugin_meta: Json) -> Seq<Seq<char>> {
    match get_spec(plugin_meta, "storedFiles"@) {
        Some(Json::Array(a)) => strings_of(a@),
        _ => Seq::empty(),
    }
}

/// The names of the files a plugin stored, in order.
pub fn stored_file_names(plugin_meta: &Json) -> (r: Vec<String>)
    ensures
        strs(r@) == stored_names(*plugin_meta),
{
    match plugin_meta.get("storedFiles") {
        Some(Json::Array(a)) => {
            let r = crate::json::array_strings(a);
            assert(strs(r@) =~= r@.map_values(|s: String| s@));
            r
        },
        _ => Vec::new(),
    }
}

// ---------------------------------------------------------------------------
// Copying an entry as plain text
// ---------------------------------------------------------------------------

/// How an entry is copied as plain text.
pub struct PlainCopyPlan {
    /// The entry is only an image: it goes back whole.
    pub whole_item_only: bool,
    /// The plugins whose text to try, in order (of `text`, `html`, `rtf`).
    pub text_plugins: Vec<String>,
    /// The recorded file paths, one per line, when there are any.
    pub file_text: Option<String>,
}

/// The plugin is in the order and has metadata.
pub open spec fn offered(order: Seq<Seq<char>>, plugins: Seq<(String, Json)>, id: Seq<char>) -> bool {
    order.contains(id) && crate::json::member(plugins, id) is Some
}

/// The plugins whose text is tried, in the order text, HTML, RTF.
pub open spec fn text_plugins_spec(order: Seq<Seq<char>>, plugins: Seq<(String, Json)>) -> Seq<Seq<char>> {
    let a: Seq<Seq<char>> = if offered(order, plugins, "text"@) { seq!["text"@] } else { Seq::empty() };
    let b: Seq<Seq<char>> = if offered(order, plugins, "html"@) { seq!["html"@] } else { Seq::empty() };
    let c: Seq<Seq<char>> = if offered(order, plugins, "rtf"@) { seq!["rtf"@] } else { Seq::empty() };
    a + b + c
}

/// The file paths recorded by the files plugin, one per line, when it is
/// in the order and recorded any.
pub open spec fn file_text_spec(order: Seq<Seq<char>>, plugins: Seq<(String, Json)>) -> Option<Seq<char>> {
    if order.contains("files"@) {
        match crate::json::member(plugins, "files"@) {
            Some(meta) => match get_spec(meta, "entries"@) {
                Some(Json::Array(a)) => if entry_paths(a@).len() > 0 {
                    Some(joined_with(entry_paths(a@), "\n"@))
                } else {
                    None
                },
                _ => None,
            },
            None => None,
        }
    } else {
        None
    }
}

/// How to copy the entry as plain text; an error when it has no plugin
/// metadata.
pub fn plain_copy_plan(metadata: &EntryMetadata) -> (r: Result<PlainCopyPlan, String>)
    ensures
        !(get_spec(metadata.extra, "plugins"@) matches Some(Json::Object(_))) <==> r is Err,
        r matches Err(e) ==> e@ == "No plugin metadata found"@,
        r matches Ok(plan) ==> (get_spec(metadata.extra, "plugins"@) matches Some(Json::Object(m))
            && {
            let order = crate::plugins::order_spec(metadata.extra, m@);
            &&& plan.whole_item_only == (order.contains("image"@) && !order.contains("text"@)
                && !order.contains("html"@) && !order.contains("rtf"@) && !order.contains(
                "files"@,
            ))
            &&& strs(plan.text_plugins@) == text_plugins_spec(order, m@)
            &&& opt_str(plan.file_text) == file_text_spec(order, m@)
        }),
{
    let (order, map) = match crate::plugins::extract_plugin_meta(metadata) {
        Some(x) => x,
        None => {
            return Err("No plugin metadata found".to_string());
        },
    };
    let has_text = contains_str(&order, "text");
    let has_image = contains_str(&order, "image");
    let has_html = contains_str(&order, "html");
    let has_rtf = contains_str(&order, "rtf");
    let has_files = contains_str(&order, "files");
    let whole_item_only = has_image && !has_text && !has_html && !has_rtf && !has_files;
    let mut text_plugins: Vec<String> = Vec::new();
    if has_text && crate::json::object_member(map, "text").is_some() {
        text_plugins.push("text".to_string());
    }
    if has_html && crate::json::object_member(map, "html").is_some() {
        text_plugins.push("html".to_string());
    }
    if has_rtf && crate::json::object_member(map, "rtf").is_some() {
        text_plugins.push("rtf".to_string());
    }
    assert(strs(text_plugins@) =~= text_plugins_spec(strs(order@), map@));
    let mut file_text: Option<String> = None;
    if has_files {
        if let Some(meta) = crate::json::object_member(map, "files") {
            if let Some(Json::Array(a)) = meta.get("entries") {
                let paths = entry_paths_of(a);
                if paths.len() > 0 {
                    let joined = join_strings(&paths, "\n");
                    assert(paths@.map_values(|p: String| p@) =~= strs(paths@));
                    file_text = Some(joined);
                }
            }
        }
    }
    Ok(PlainCopyPlan { whole_item_only, text_plugins, file_text })
}

// ---------------------------------------------------------------------------
// Laws
// ---------------------------------------------------------------------------

/// An entry's search text is never blank-empty and never longer than the
/// limit.
pub proof fn law_search_text_bounded(cs: Seq<PluginCapture>, summary: Seq<char>, override_text: Option<Seq<char>>)
    ensures
        search_text_spec(cs, summary, override_text) matches Some(t) ==> 0 < t.len()
            <= MAX_SEARCH_TEXT_CHARS,
{
}

/// Storing an entry again never lowers its copy count, and a stored entry
/// has been copied at least once.
pub proof fn law_copy_count(mode: CopyCountMode, existing: Option<u64>)
    ensures
        copy_count_spec(mode, existing) >= 1,
        mode is Increment ==> (existing matches Some(c) ==> copy_count_spec(mode, existing) >= c),
        mode is Increment ==> (existing matches Some(c) ==> (c < u64::MAX ==> copy_count_spec(mode, existing) == c + 1)),
{
}

// ---------------------------------------------------------------------------
// Putting an entry back on the clipboard
// ---------------------------------------------------------------------------

/// Where one format's clipboard content comes from when an entry is put
/// back on the clipboard.
pub enum ContentSource {
    /// Text read from the named stored file, or else from the entry's
    /// content file.
    Text(Option<String>),
    /// HTML, read as text is.
    Html(Option<String>),
    /// RTF, read leniently as text is.
    Rtf(Option<String>),
    /// The image in the named stored file.
    Image(String),
    /// The files at these `file://` URLs.
    Files(Vec<String>),
}

/// The model of a `ContentSource`.
pub enum SourceView {
    Text(Option<Seq<char>>),
    Html(Option<Seq<char>>),
    Rtf(Option<Seq<char>>),
    Image(Seq<char>),
    Files(Seq<Seq<char>>),
}

impl View for ContentSource {
    type V = SourceView;

    open spec fn view(&self) -> SourceView {
        match self {
            ContentSource::Text(f) => SourceView::Text(opt_str(*f)),
            ContentSource::Html(f) => SourceView::Html(opt_str(*f)),
            ContentSource::Rtf(f) => SourceView::Rtf(opt_str(*f)),
            ContentSource::Image(f) => SourceView::Image(f@),
            ContentSource::Files(u) => SourceView::Files(strs(u@)),
        }
    }
}

/// The first file a plugin stored, if it stored any.
pub open spec fn first_stored(plugin_meta: Json) -> Option<Seq<char>> {
    if stored_names(plugin_meta).len() > 0 {
        Some(stored_names(plugin_meta)[0])
    } else {
        None
    }
}

/// Where the plugin `id` takes its clipboard content from, given its
/// metadata, or why it cannot.
pub open spec fn source_of(id: Seq<char>, plugin_meta: Json) -> Result<SourceView, Seq<char>> {
    if id == "text"@ {
        Ok(SourceView::Text(first_stored(plugin_meta)))
    } else if id == "html"@ {
        Ok(SourceView::Html(first_stored(plugin_meta)))
    } else if id == "rtf"@ {
        Ok(SourceView::Rtf(first_stored(plugin_meta)))
    } else if id == "image"@ {
        match first_stored(plugin_meta) {
            Some(n) => Ok(SourceView::Image(n)),
            None => Err("image plugin missing stored file"@),
        }
    } else if id == "files"@ {
        match get_spec(plugin_meta, "entries"@) {
            Some(Json::Array(a)) => Ok(
                SourceView::Files(
                    entry_paths(a@).map_values(|p: Seq<char>| crate::json_items::file_url(p)),
                ),
            ),
            _ => Err("file plugin metadata missing entries"@),
        }
    } else {
        Err("Unknown clipboard plugin "@ + id)
    }
}

/// The source of the plugin `id`: its metadata must be recorded.
pub open spec fn plan_step(id: Seq<char>, map: Seq<(String, Json)>) -> Result<SourceView, Seq<char>> {
    match member(map, id) {
        None => Err("Missing plugin metadata for plugin "@ + id),
        Some(meta) => source_of(id, meta),
    }
}

/// The sources of the plugins in order, or the first reason one has none.
pub open spec fn plan_spec(order: Seq<Seq<char>>, map: Seq<(String, Json)>) -> Result<Seq<SourceView>, Seq<char>>
    decreases order.len(),
{
    if order.len() == 0 {
        Ok(Seq::empty())
    } else {
        match plan_spec(order.drop_last(), map) {
            Err(e) => Err(e),
            Ok(p) => match plan_step(order.last(), map) {
                Err(e) => Err(e),
                Ok(x) => Ok(p.push(x)),
            },
        }
    }
}

/// The clipboard format a source puts its content back in matches the
/// plugin it comes from: text as text, HTML as HTML, RTF as RTF, an image
/// as an image, files as files.
pub open spec fn restores_own_format(id: Seq<char>, v: SourceView) -> bool {
    &&& id == "text"@ ==> v is Text
    &&& id == "html"@ ==> v is Html
    &&& id == "rtf"@ ==> v is Rtf
    &&& id == "image"@ ==> v is Image
    &&& id == "files"@ ==> v is Files
}

/// Law: each plugin's content goes back on the clipboard in its own format,
/// from the first file it stored; text, HTML and RTF always have a source.
pub proof fn law_source_in_own_format(id: Seq<char>, meta: Json)
    ensures
        source_of(id, meta) matches Ok(v) ==> restores_own_format(id, v),
        id == "text"@ ==> source_of(id, meta) == Ok::<SourceView, Seq<char>>(SourceView::Text(first_stored(meta))),
        id == "html"@ ==> source_of(id, meta) == Ok::<SourceView, Seq<char>>(SourceView::Html(first_stored(meta))),
        id == "rtf"@ ==> source_of(id, meta) == Ok::<SourceView, Seq<char>>(SourceView::Rtf(first_stored(meta))),
{
    reveal_strlit("files");
    reveal_strlit("image");
    reveal_strlit("text");
    reveal_strlit("html");
    reveal_strlit("rtf");
    assert("files"@.len() == 5 && "image"@.len() == 5 && "text"@.len() == 4);
    assert("html"@.len() == 4 && "rtf"@.len() == 3);
    assert("files"@[0] != "image"@[0] && "text"@[0] != "html"@[0]);
}

/// Law: a restore plan lists one source per plugin of the entry's order, in
/// that order, each in the format of its plugin.
pub proof fn law_plan_in_plugin_formats(order: Seq<Seq<char>>, map: Seq<(String, Json)>)
    ensures
        plan_spec(order, map) matches Ok(p) ==> p.len() == order.len() && forall|i: int|
            0 <= i < p.len() ==> restores_own_format(order[i], #[trigger] p[i]),
    decreases order.len(),
{
    if order.len() > 0 {
        law_plan_in_plugin_formats(order.drop_last(), map);
        match plan_spec(order, map) {
            Ok(p) => {
                let prev = plan_spec(order.drop_last(), map)->Ok_0;
                let meta = member(map, order.last())->Some_0;
                law_source_in_own_format(order.last(), meta);
                assert forall|i: int| 0 <= i < p.len() implies restores_own_format(order[i], #[trigger] p[i]) by {
                    if i < p.len() - 1 {
                        assert(p[i] == prev[i]);
                        assert(order[i] == order.drop_last()[i]);
                    }
                }
            },
            Err(_) => {},
        }
    }
}

/// The models of a list of sources.
pub open spec fn source_views(v: Seq<ContentSource>) -> Seq<SourceView> {
    v.map_values(|c: ContentSource| c@)
}

/// Where the plugin `id` takes its clipboard content from.
pub fn content_source(id: &str, plugin_meta: &Json) -> (r: Result<ContentSource, String>)
    ensures
        source_of(id@, *plugin_meta) matches Ok(x) ==> (r matches Ok(c) && c@ == x),
        source_of(id@, *plugin_meta) matches Err(e) ==> (r matches Err(re) && re@ == e),
{
    proof {
        reveal_strlit("files");
        reveal_strlit("image");
        reveal_strlit("text");
        reveal_strlit("html");
        reveal_strlit("rtf");
        assert("files"@.len() == 5 && "image"@.len() == 5 && "text"@.len() == 4);
        assert("html"@.len() == 4 && "rtf"@.len() == 3);
        assert("files"@[0] != "image"@[0] && "text"@[0] != "html"@[0]);
    }
    let names = stored_file_names(plugin_meta);
    let first = if names.len() > 0 {
        Some(names[0].clone())
    } else {
        None
    };
    assert(opt_str(first) == first_stored(*plugin_meta));
    if str_eq(id, "text") {
        Ok(ContentSource::Text(first))
    } else if str_eq(id, "html") {
        Ok(ContentSource::Html(first))
    } else if str_eq(id, "rtf") {
        Ok(ContentSource::Rtf(first))
    } else if str_eq(id, "image") {
        match first {
            Some(n) => Ok(ContentSource::Image(n)),
            None => Err("image plugin missing stored file".to_string()),
        }
    } else if str_eq(id, "files") {
        match plugin_meta.get("entries") {
            Some(Json::Array(a)) => {
                let paths = entry_paths_of(a);
                let urls = crate::json_items::file_urls(&paths);
                Ok(ContentSource::Files(urls))
            },
            _ => Err("file plugin metadata missing entries".to_string()),
        }
    } else {
        Err(concat("Unknown clipboard plugin ", id))
    }
}

/// Where each format of an entry takes its clipboard content from, in the
/// entry's plugin order: an entry without plugin metadata, a plugin in the
/// order without metadata, an unknown plugin, an image without a stored
/// file and files without recorded entries are refused, the first such
/// failure in order.
pub fn clipboard_plan(metadata: &EntryMetadata) -> (r: Result<Vec<ContentSource>, String>)
    ensures
        !(get_spec(metadata.extra, "plugins"@) matches Some(Json::Object(_))) ==> (r matches Err(e)
            && e@ == "Missing plugin metadata for "@ + metadata.hash@),
        get_spec(metadata.extra, "plugins"@) matches Some(Json::Object(m)) ==> match plan_spec(
            crate::plugins::order_spec(metadata.extra, m@),
            m@,
        ) {
            Ok(p) => r matches Ok(v) && source_views(v@) == p,
            Err(e) => r matches Err(re) && re@ == e,
        },
{
    let (order, map) = match crate::plugins::extract_plugin_meta(metadata) {
        Some(x) => x,
        None => {
            return Err(concat("Missing plugin metadata for ", metadata.hash.as_str()));
        },
    };
    let ghost gorder = strs(order@);
    let mut out: Vec<ContentSource> = Vec::new();
    assert(gorder.take(0) =~= Seq::<Seq<char>>::empty());
    assert(source_views(out@) =~= Seq::<SourceView>::empty());
    let mut i: usize = 0;
    while i < order.len()
        invariant
            i <= order.len(),
            gorder == strs(order@),
            get_spec(metadata.extra, "plugins"@) == Some(Json::Object(*map)),
            gorder == crate::plugins::order_spec(metadata.extra, map@),
            plan_spec(gorder.take(i as int), map@) == Ok::<Seq<SourceView>, Seq<char>>(source_views(out@)),
        decreases order.len() - i,
    {
        assert(gorder.take(i + 1).drop_last() =~= gorder.take(i as int));
        assert(gorder.take(i + 1).last() == order@[i as int]@);
        let id = order[i].as_str();
        let meta = match crate::json::object_member(map, id) {
            Some(m) => m,
            None => {
                assert(plan_step(gorder[i as int], map@) == Err::<SourceView, Seq<char>>(
                    "Missing plugin metadata for plugin "@ + id@,
                ));
                proof {
                    lemma_plan_error_stays(gorder, map@, i as int + 1);
                }
                return Err(concat("Missing plugin metadata for plugin ", id));
            },
        };
        match content_source(id, meta) {
            Ok(c) => {
                let ghost before = source_views(out@);
                out.push(c);
                assert(source_views(out@) =~= before.push(out@.last()@));
            },
            Err(e) => {
                proof {
                    lemma_plan_error_stays(gorder, map@, i as int + 1);
                }
                return Err(e);
            },
        }
        i = i + 1;
    }
    assert(gorder.take(order.len() as int) =~= gorder);
    Ok(out)
}

/// Once a prefix of the order fails, the whole order fails the same way.
proof fn lemma_plan_error_stays(order: Seq<Seq<char>>, map: Seq<(String, Json)>, n: int)
    requires
        0 <= n <= order.len(),
        plan_spec(order.take(n), map) is Err,
    ensures
        plan_spec(order, map) == plan_spec(order.take(n), map),
    decreases order.len() - n,
{
    if n < order.len() {
        assert(order.take(n + 1).drop_last() =~= order.take(n));
        lemma_plan_error_stays(order, map, n + 1);
    } else {
        assert(order.take(n) =~= order);
    }
}

// ---------------------------------------------------------------------------
// Entries recorded before plugins
// ---------------------------------------------------------------------------

/// How an entry recorded without plugin metadata goes back on the
/// clipboard, from its content file or its recorded paths.
pub enum LegacySource {
    /// The content file as text, offered as HTML too when it was recorded
    /// with the `html` extension.
    Text(bool),
    /// The image in the content file.
    Image,
    /// The files at these `file://` URLs.
    Files(Vec<String>),
    /// The content file read leniently as RTF text.
    Rtf,
    /// The content file's bytes under this pasteboard type.
    Other(String),
}

/// The path a legacy file entry names: `path`, else `source_path`.
pub open spec fn legacy_entry_path(e: Json) -> Option<Seq<char>> {
    let v = match get_spec(e, "path"@) {
        Some(v) => Some(v),
        None => get_spec(e, "source_path"@),
    };
    match v {
        Some(Json::Str(s)) => Some(s@),
        _ => None,
    }
}

/// The paths that legacy file entries name, in order.
pub open spec fn legacy_entry_paths(es: Seq<Json>) -> Seq<Seq<char>>
    decreases es.len(),
{
    if es.len() == 0 {
        Seq::empty()
    } else {
        let rest = legacy_entry_paths(es.drop_last());
        match legacy_entry_path(es.last()) {
            Some(p) => rest.push(p),
            None => rest,
        }
    }
}

/// The paths a legacy file entry recorded: its file list, else the paths
/// of its `entries`.
pub open spec fn legacy_paths(metadata: EntryMetadata) -> Seq<Seq<char>> {
    if metadata.files@.len() > 0 {
        strs(metadata.files@)
    } else {
        match get_spec(metadata.extra, "entries"@) {
            Some(Json::Array(a)) => legacy_entry_paths(a@),
            _ => Seq::empty(),
        }
    }
}

/// The MIME type a legacy entry recorded, `application/octet-stream` when
/// none is.
pub open spec fn legacy_mime(extra: Json) -> Seq<char> {
    match get_spec(extra, "mime"@) {
        Some(Json::Str(m)) => m@,
        _ => "application/octet-stream"@,
    }
}

/// The text member `key` of a value, if it has one.
pub open spec fn text_member(v: Json, key: Seq<char>) -> Option<Seq<char>> {
    match get_spec(v, key) {
        Some(Json::Str(s)) => Some(s@),
        _ => None,
    }
}

/// How a legacy entry goes back on the clipboard, by the type it recorded:
/// text, an image, or files (which must have recorded paths); any other
/// entry's content goes back as RTF when its MIME type is RTF, else under
/// the pasteboard type of its MIME type.
pub open spec fn legacy_plan_spec(metadata: EntryMetadata) -> Result<LegacyView, Seq<char>> {
    let t = text_member(metadata.extra, "type"@);
    if t == Some("text"@) {
        Ok(LegacyView::Text(text_member(metadata.extra, "extension"@) == Some("html"@)))
    } else if t == Some("image"@) {
        Ok(LegacyView::Image)
    } else if t == Some("file"@) {
        if legacy_paths(metadata).len() == 0 {
            Err("Legacy file item missing recorded paths"@)
        } else {
            Ok(LegacyView::Files(legacy_paths(metadata).map_values(|p: Seq<char>| crate::json_items::file_url(p))))
        }
    } else {
        let mime = legacy_mime(metadata.extra);
        if mime == "text/rtf"@ || mime == "application/rtf"@ {
            Ok(LegacyView::Rtf)
        } else {
            Ok(LegacyView::Other(crate::plugins::uti_for(mime)))
        }
    }
}

/// The model of a `LegacySource`.
pub enum LegacyView {
    Text(bool),
    Image,
    Files(Seq<Seq<char>>),
    Rtf,
    Other(Seq<char>),
}

impl View for LegacySource {
    type V = LegacyView;

    open spec fn view(&self) -> LegacyView {
        match self {
            LegacySource::Text(h) => LegacyView::Text(*h),
            LegacySource::Image => LegacyView::Image,
            LegacySource::Files(u) => LegacyView::Files(strs(u@)),
            LegacySource::Rtf => LegacyView::Rtf,
            LegacySource::Other(t) => LegacyView::Other(t@),
        }
    }
}

/// The text member `key` of a value.
fn text_member_of(v: &Json, key: &str) -> (r: Option<String>)
    ensures
        opt_str(r) == text_member(*v, key@),
{
    match v.get(key) {
        Some(Json::Str(s)) => Some(s.clone()),
        _ => None,
    }
}

/// The paths that legacy file entries name.
fn legacy_entry_paths_of(es: &Vec<Json>) -> (r: Vec<String>)
    ensures
        strs(r@) == legacy_entry_paths(es@),
{
    let mut r: Vec<String> = Vec::new();
    let mut i: usize = 0;
    while i < es.len()
        invariant
            i <= es.len(),
            strs(r@) == legacy_entry_paths(es@.take(i as int)),
        decreases es.len() - i,
    {
        assert(es@.take(i + 1).drop_last() =~= es@.take(i as int));
        assert(es@.take(i + 1).last() == es@[i as int]);
        let e = &es[i];
        let v = match e.get("path") {
            Some(v) => Some(v),
            None => e.get("source_path"),
        };
        let ghost before = strs(r@);
        match v {
            Some(Json::Str(p)) => {
                r.push(p.clone());
                assert(strs(r@) =~= before.push(p@));
            },
            _ => {},
        }
        i = i + 1;
    }
    assert(es@.take(es.len() as int) =~= es@);
    r
}

/// Whether an optional text is `name`.
fn opt_is(t: &Option<String>, name: &str) -> (b: bool)
    ensures
        b == (opt_str(*t) == Some(name@)),
{
    match t {
        Some(v) => str_eq(v.as_str(), name),
        None => false,
    }
}

/// How an entry recorded without plugin metadata goes back on the
/// clipboard.
pub fn legacy_clipboard_plan(metadata: &EntryMetadata) -> (r: Result<LegacySource, String>)
    ensures
        legacy_plan_spec(*metadata) matches Ok(x) ==> (r matches Ok(c) && c@ == x),
        legacy_plan_spec(*metadata) matches Err(e) ==> (r matches Err(re) && re@ == e),
{
    proof {
        reveal_strlit("text");
        reveal_strlit("image");
        reveal_strlit("file");
        assert("text"@.len() == 4 && "image"@.len() == 5 && "file"@.len() == 4);
        assert("text"@[0] != "file"@[0]);
    }
    let t = text_member_of(&metadata.extra, "type");
    if opt_is(&t, "text") {
        let ext = text_member_of(&metadata.extra, "extension");
        let html = opt_is(&ext, "html");
        return Ok(LegacySource::Text(html));
    }
    if opt_is(&t, "image") {
        return Ok(LegacySource::Image);
    }
    if opt_is(&t, "file") {
        let paths = if metadata.files.len() > 0 {
            crate::model::clone_strings(&metadata.files)
        } else {
            match metadata.extra.get("entries") {
                Some(Json::Array(a)) => legacy_entry_paths_of(a),
                _ => Vec::new(),
            }
        };
        if paths.len() == 0 {
            return Err("Legacy file item missing recorded paths".to_string());
        }
        return Ok(LegacySource::Files(crate::json_items::file_urls(&paths)));
    }
    let mime = match metadata.extra.get("mime") {
        Some(Json::Str(m)) => m.clone(),
        _ => "application/octet-stream".to_string(),
    };
    if str_eq(mime.as_str(), "text/rtf") || str_eq(mime.as_str(), "application/rtf") {
        Ok(LegacySource::Rtf)
    } else {
        Ok(LegacySource::Other(crate::plugins::coerce_mime_to_uti(mime.as_str())))
    }
}

// ---------------------------------------------------------------------------
// What a preview lists and reads
// ---------------------------------------------------------------------------

/// Where a file goes among files sorted by name: in front of the first
/// whose name orders after its own.
pub open spec fn name_insert_pos(t: Seq<FileDescriptor>, x: FileDescriptor) -> int
    decreases t.len(),
{
    if t.len() == 0 {
        0
    } else if crate::strsort::lex_lt(x.filename@, t[0].filename@) {
        0
    } else {
        1 + name_insert_pos(t.drop_first(), x)
    }
}

/// The files sorted by name; files of equal names keep their order.
pub open spec fn sorted_by_name(s: Seq<FileDescriptor>) -> Seq<FileDescriptor>
    decreases s.len(),
{
    if s.len() == 0 {
        s
    } else {
        let t = sorted_by_name(s.drop_last());
        t.insert(name_insert_pos(t, s.last()), s.last())
    }
}

proof fn lemma_name_insert_pos_bound(t: Seq<FileDescriptor>, x: FileDescriptor)
    ensures
        0 <= name_insert_pos(t, x) <= t.len(),
    decreases t.len(),
{
    if t.len() > 0 {
        lemma_name_insert_pos_bound(t.drop_first(), x);
    }
}

proof fn lemma_sorted_by_name_len(s: Seq<FileDescriptor>)
    ensures
        sorted_by_name(s).len() == s.len(),
    decreases s.len(),
{
    if s.len() > 0 {
        lemma_sorted_by_name_len(s.drop_last());
        lemma_name_insert_pos_bound(sorted_by_name(s.drop_last()), s.last());
    }
}

/// The files of an entry's directory other than its `metadata.json`, in
/// order.
pub open spec fn listed_files(s: Seq<FileDescriptor>) -> Seq<FileDescriptor>
    decreases s.len(),
{
    if s.len() == 0 {
        s
    } else if s.last().filename@ == "metadata.json"@ {
        listed_files(s.drop_last())
    } else {
        listed_files(s.drop_last()).push(s.last())
    }
}

/// The files of an entry's directory that a preview lists: all but its
/// `metadata.json`, sorted by name.
pub fn preview_files(found: Vec<FileDescriptor>) -> (r: Vec<FileDescriptor>)
    ensures
        r@ == sorted_by_name(listed_files(found@)),
{
    let ghost orig = found@;
    assert(orig.len() == found.len());
    let mut rest = found;
    let mut out: Vec<FileDescriptor> = Vec::new();
    let mut k: usize = 0;
    assert(orig.take(0) =~= Seq::<FileDescriptor>::empty());
    while rest.len() > 0
        invariant
            k <= orig.len(),
            orig.len() <= usize::MAX,
            rest@.len() + k == orig.len(),
            rest@ == orig.skip(k as int),
            out@ == sorted_by_name(listed_files(orig.take(k as int))),
        decreases rest.len(),
    {
        let x = rest.remove(0);
        proof {
            assert(orig.take(k + 1).drop_last() =~= orig.take(k as int));
            assert(orig.take(k + 1).last() == x);
            assert(orig.skip(k + 1) =~= orig.skip(k as int).drop_first());
        }
        if !str_eq(x.filename.as_str(), "metadata.json") {
            let ghost before = listed_files(orig.take(k as int));
            assert(listed_files(orig.take(k + 1)) == before.push(x));
            assert(before.push(x).drop_last() =~= before);
            let mut p: usize = 0;
            let ghost t = out@;
            proof {
                lemma_sorted_by_name_len(before);
                assert(t.skip(0) =~= t);
            }
            while p < out.len() && !(crate::strsort::str_le(x.filename.as_str(), out[p].filename.as_str())
                && !str_eq(x.filename.as_str(), out[p].filename.as_str()))
                invariant
                    p <= out.len(),
                    t == out@,
                    name_insert_pos(t, x) == p + name_insert_pos(t.skip(p as int), x),
                decreases out.len() - p,
            {
                assert(t.skip(p as int)[0] == t[p as int]);
                assert(t.skip(p as int).drop_first() =~= t.skip(p + 1));
                p = p + 1;
            }
            proof {
                if p < out.len() {
                    assert(t.skip(p as int)[0] == t[p as int]);
                }
            }
            out.insert(p, x);
        } else {
            assert(listed_files(orig.take(k + 1)) == listed_files(orig.take(k as int)));
        }
        k = k + 1;
    }
    assert(orig.take(k as int) =~= orig);
    out
}

} // verus!
