//! The HTTP interface's own rules: reading its query parameters, and the
//! statistics and latest change it reports.

use vstd::prelude::*;
use crate::index::SearchIndex;
use crate::model::{opt_str, strs, RecordView, SearchIndexRecord};
use crate::search::{SelectionFilter, SortOrder};
use crate::selector::{ApiError, Selector};
use crate::text::{
    contains_seq, lowercased, owned, split_char, split_spec, str_contains, str_eq, trim, trimmed,
    unicode_lower,
};

verus! {

// ---------------------------------------------------------------------------
// Query parameters
// ---------------------------------------------------------------------------

/// The filter that a `formats` parameter selects: each comma-separated
/// name, trimmed and lower-cased, is a kind (`text`, `image`, `file` or
/// `files`) or else a format name.
pub open spec fn formats_filter_spec(names: Seq<Seq<char>>) -> (bool, bool, bool, Seq<Seq<char>>)
    decreases names.len(),
{
    if names.len() == 0 {
        (false, false, false, Seq::empty())
    } else {
        let (t, i, f, other) = formats_filter_spec(names.drop_last());
        let n = unicode_lower(trim(names.last()));
        if n == "text"@ {
            (true, i, f, other)
        } else if n == "image"@ {
            (t, true, f, other)
        } else if n == "file"@ || n == "files"@ {
            (t, i, true, other)
        } else {
            (t, i, f, other.push(n))
        }
    }
}

/// The filter that a `formats` parameter selects.
pub fn formats_filter(formats: &str) -> (r: SelectionFilter)
    ensures
        ({
            let (t, i, f, other) = formats_filter_spec(split_spec(formats@, ','));
            &&& r.include_text == t
            &&& r.include_image == i
            &&& r.include_file == f
            &&& !r.include_other
            &&& !r.include_html
            &&& strs(r.include_formats@) == other
        }),
{
    let names = split_char(formats, ',');
    let ghost gs = split_spec(formats@, ',');
    let mut filter = SelectionFilter::default();
    let mut i: usize = 0;
    assert(gs.take(0) =~= Seq::<Seq<char>>::empty());
    assert(strs(filter.include_formats@) =~= Seq::<Seq<char>>::empty());
    while i < names.len()
        invariant
            i <= names.len(),
            strs(names@) == gs,
            ({
                let (t, im, f, other) = formats_filter_spec(gs.take(i as int));
                &&& filter.include_text == t
                &&& filter.include_image == im
                &&& filter.include_file == f
                &&& !filter.include_other
                &&& !filter.include_html
                &&& strs(filter.include_formats@) == other
            }),
        decreases names.len() - i,
    {
        assert(gs.take(i + 1).drop_last() =~= gs.take(i as int));
        assert(gs.take(i + 1).last() == names@[i as int]@);
        let t = trimmed(names[i].as_str());
        let n = lowercased(t.as_str());
        if str_eq(n.as_str(), "text") {
            filter.include_text = true;
        } else if str_eq(n.as_str(), "image") {
            filter.include_image = true;
        } else if str_eq(n.as_str(), "file") || str_eq(n.as_str(), "files") {
            filter.include_file = true;
        } else {
            let ghost before = strs(filter.include_formats@);
            filter.include_formats.push(n);
            assert(strs(filter.include_formats@) =~= before.push(filter.include_formats@.last()@));
        }
        i = i + 1;
    }
    assert(gs.take(names.len() as int) =~= gs);
    filter
}

/// The order a `sort` parameter names, lower-cased: by date, copies or
/// type, or by relevance where the request allows it; anything else sorts
/// by date.
pub open spec fn api_sort_spec(sort: Seq<char>, relevance: bool) -> SortOrder {
    let s = unicode_lower(sort);
    if s == "copies"@ {
        SortOrder::Copies
    } else if s == "type"@ {
        SortOrder::Type
    } else if relevance && s == "relevance"@ {
        SortOrder::Relevance
    } else {
        SortOrder::Date
    }
}

/// The order a `sort` parameter names.
pub fn api_sort(sort: &str, relevance: bool) -> (r: SortOrder)
    ensures
        r == api_sort_spec(sort@, relevance),
{
    let s = lowercased(sort);
    if str_eq(s.as_str(), "copies") {
        SortOrder::Copies
    } else if str_eq(s.as_str(), "type") {
        SortOrder::Type
    } else if relevance && str_eq(s.as_str(), "relevance") {
        SortOrder::Relevance
    } else {
        SortOrder::Date
    }
}

/// The query a search request asks for, trimmed, and `None` when it is
/// blank; a request without a query, formats or a sort is refused.
pub fn search_query(query: Option<&str>, has_formats: bool, has_sort: bool) -> (r: Result<Option<String>, ApiError>)
    ensures
        ({
            let q = match query {
                Some(q) => trim(q@),
                None => Seq::<char>::empty(),
            };
            &&& (q.len() == 0 && !has_formats && !has_sort) ==> (r matches Err(ApiError::BadRequest(m))
                && m@ == "query, formats, or sort parameter must be provided"@)
            &&& !(q.len() == 0 && !has_formats && !has_sort) ==> (r matches Ok(o) && opt_str(o) == (if q.len()
                == 0 {
                None
            } else {
                Some(q)
            }))
        }),
{
    let q = match query {
        Some(q) => trimmed(q),
        None => String::new(),
    };
    if q.as_str().is_empty() {
        if !has_formats && !has_sort {
            return Err(
                ApiError::bad_request("query, formats, or sort parameter must be provided".to_string()),
            );
        }
        return Ok(None);
    }
    Ok(Some(q))
}

/// The selectors an `ids` parameter lists: its comma-separated parts,
/// trimmed, without the blank ones.
pub open spec fn id_parts(ids: Seq<Seq<char>>) -> Seq<Seq<char>>
    decreases ids.len(),
{
    if ids.len() == 0 {
        Seq::empty()
    } else {
        let rest = id_parts(ids.drop_last());
        let t = trim(ids.last());
        if t.len() == 0 {
            rest
        } else {
            rest.push(t)
        }
    }
}

/// The selectors an `ids` parameter lists, each read as a request path
/// segment is.
pub fn id_selectors(ids: &str) -> (r: Vec<Selector>)
    ensures
        r@.len() == id_parts(split_spec(ids@, ',')).len(),
        forall|k: int|
            0 <= k < r@.len() ==> {
                let part = id_parts(split_spec(ids@, ','))[k];
                &&& (#[trigger] r@[k] matches Selector::Hash(h) ==> crate::selector::selector_spec(part).0 && h@ == part)
                &&& (r@[k] matches Selector::Offset(n) ==> !crate::selector::selector_spec(part).0 && n
                    == crate::selector::selector_spec(part).2)
            },
{
    let pieces = split_char(ids, ',');
    let ghost gs = split_spec(ids@, ',');
    let mut r: Vec<Selector> = Vec::new();
    let ghost mut parts: Seq<Seq<char>> = Seq::empty();
    let mut i: usize = 0;
    assert(gs.take(0) =~= Seq::<Seq<char>>::empty());
    while i < pieces.len()
        invariant
            i <= pieces.len(),
            strs(pieces@) == gs,
            parts == id_parts(gs.take(i as int)),
            r@.len() == parts.len(),
            forall|k: int|
                0 <= k < r@.len() ==> {
                    &&& (#[trigger] r@[k] matches Selector::Hash(h) ==> crate::selector::selector_spec(parts[k]).0 && h@
                        == parts[k])
                    &&& (r@[k] matches Selector::Offset(n) ==> !crate::selector::selector_spec(parts[k]).0
                        && n == crate::selector::selector_spec(parts[k]).2)
                },
        decreases pieces.len() - i,
    {
        assert(gs.take(i + 1).drop_last() =~= gs.take(i as int));
        assert(gs.take(i + 1).last() == pieces@[i as int]@);
        let t = trimmed(pieces[i].as_str());
        if !t.as_str().is_empty() {
            let sel = Selector::parse(t.as_str());
            r.push(sel);
            proof {
                parts = parts.push(t@);
            }
        }
        i = i + 1;
    }
    assert(gs.take(pieces.len() as int) =~= gs);
    r
}

// ---------------------------------------------------------------------------
// Statistics
// ---------------------------------------------------------------------------

/// A record counts as HTML when one of its detected formats, lower-cased,
/// is `html` or names `public.html` or `text/html`.
pub open spec fn html_record(r: RecordView) -> bool {
    exists|i: int|
        0 <= i < r.detected_formats.len() && {
            let f = unicode_lower(#[trigger] r.detected_formats[i]);
            f == "html"@ || contains_seq(f, "public.html"@) || contains_seq(f, "text/html"@)
        }
}

/// How many records a key of the type counts covers: the records of that
/// kind, and for `html` the HTML records.
pub open spec fn type_count(s: Seq<RecordView>, key: Seq<char>) -> nat
    decreases s.len(),
{
    if s.len() == 0 {
        0
    } else {
        type_count(s.drop_last(), key) + (if crate::stats::kind_word(s.last().kind) == key {
            1nat
        } else {
            0nat
        }) + (if key == "html"@ && html_record(s.last()) {
            1nat
        } else {
            0nat
        })
    }
}

/// The day of a record: its time in ISO 8601 up to the `T`.
pub open spec fn day_of(r: RecordView) -> Seq<char> {
    split_spec(crate::timefmt::iso_text(r.last_seen), '\u{54}')[0]
}

/// The hashes of the records of a day and kind, in index order.
pub open spec fn day_kind_hashes(s: Seq<RecordView>, day: Seq<char>, kind: Seq<char>) -> Seq<Seq<char>>
    decreases s.len(),
{
    if s.len() == 0 {
        Seq::empty()
    } else {
        let rest = day_kind_hashes(s.drop_last(), day, kind);
        if day_of(s.last()) == day && crate::stats::kind_word(s.last().kind) == kind {
            rest.push(s.last().hash)
        } else {
            rest
        }
    }
}

/// The records of one day and kind.
pub struct DayKind {
    pub day: String,
    pub kind: String,
    pub count: usize,
    pub ids: Vec<String>,
}

/// The statistics the HTTP interface reports.
pub struct ApiStats {
    pub total_items: usize,
    pub total_size: u64,
    /// Records per kind, and HTML records under `html`, for the keys that
    /// cover any record.
    pub type_counts: Vec<(String, usize)>,
    /// Records per day and kind, for the pairs that have any.
    pub history: Vec<DayKind>,
}

/// The value counted under `key`, 0 when the key is absent.
pub open spec fn counted(m: Seq<(String, usize)>, key: Seq<char>) -> nat
    decreases m.len(),
{
    if m.len() == 0 {
        0
    } else if m.last().0@ == key {
        m.last().1 as nat
    } else {
        counted(m.drop_last(), key)
    }
}

/// The keys of the counts are distinct.
pub open spec fn distinct_keys(m: Seq<(String, usize)>) -> bool {
    forall|a: int, b: int| 0 <= a < b < m.len() ==> m[a].0@ != m[b].0@
}

proof fn lemma_counted_at(m: Seq<(String, usize)>, j: int)
    requires
        distinct_keys(m),
        0 <= j < m.len(),
    ensures
        counted(m, m[j].0@) == m[j].1,
    decreases m.len(),
{
    if j < m.len() - 1 {
        assert(m[m.len() - 1].0@ != m[j].0@);
        lemma_counted_at(m.drop_last(), j);
    }
}

proof fn lemma_counted_absent(m: Seq<(String, usize)>, key: Seq<char>)
    requires
        forall|j: int| 0 <= j < m.len() ==> m[j].0@ != key,
    ensures
        counted(m, key) == 0,
    decreases m.len(),
{
    if m.len() > 0 {
        assert(m[m.len() - 1].0@ != key);
        lemma_counted_absent(m.drop_last(), key);
    }
}

proof fn lemma_counted_update(m: Seq<(String, usize)>, j: int, v: usize, key: Seq<char>)
    requires
        distinct_keys(m),
        0 <= j < m.len(),
    ensures
        counted(m.update(j, (m[j].0, v)), key) == if key == m[j].0@ {
            v as nat
        } else {
            counted(m, key)
        },
    decreases m.len(),
{
    let u = m.update(j, (m[j].0, v));
    if j == m.len() - 1 {
        assert(u.drop_last() =~= m.drop_last());
        if key != m[j].0@ {
        }
    } else {
        assert(u.drop_last() =~= m.drop_last().update(j, (m[j].0, v)));
        assert(u.last() == m.last());
        lemma_counted_update(m.drop_last(), j, v, key);
        if key == m[j].0@ {
            assert(m.last().0@ != m[j].0@);
        }
    }
}

/// Counts one more record under `key`.
fn bump(m: &mut Vec<(String, usize)>, key: &str)
    requires
        distinct_keys(old(m)@),
        forall|j: int| 0 <= j < old(m)@.len() ==> old(m)@[j].1 > 0,
        counted(old(m)@, key@) < usize::MAX,
    ensures
        distinct_keys(final(m)@),
        forall|j: int| 0 <= j < final(m)@.len() ==> final(m)@[j].1 > 0,
        forall|k: Seq<char>| #[trigger] counted(final(m)@, k) == counted(old(m)@, k) + (if k == key@ {
            1nat
        } else {
            0nat
        }),
        final(m)@.len() >= old(m)@.len(),
        forall|j: int| 0 <= j < old(m)@.len() ==> final(m)@[j].0@ == old(m)@[j].0@,
{
    let ghost m0 = m@;
    let mut j: usize = 0;
    while j < m.len()
        invariant
            m@ == m0,
            old(m)@ == m0,
            j <= m@.len(),
            distinct_keys(m0),
            forall|t: int| 0 <= t < m0.len() ==> m0[t].1 > 0,
            counted(m0, key@) < usize::MAX,
            forall|t: int| 0 <= t < j ==> m@[t].0@ != key@,
        decreases m.len() - j,
    {
        if str_eq(m[j].0.as_str(), key) {
            proof {
                lemma_counted_at(m0, j as int);
            }
            let v = m[j].1 + 1;
            let k = m[j].0.clone();
            m.set(j, (k, v));
            proof {
                assert(m@ =~= m0.update(j as int, (m0[j as int].0, v)));
                lemma_counted_at(m0, j as int);
                assert forall|k2: Seq<char>| #[trigger] counted(m@, k2) == counted(m0, k2) + (if k2 == key@ {
                    1nat
                } else {
                    0nat
                }) by {
                    lemma_counted_update(m0, j as int, v, k2);
                }
            }
            return;
        }
        j = j + 1;
    }
    m.push((owned(key), 1));
    proof {
        assert(m@.drop_last() =~= m0);
        lemma_counted_absent(m0, key@);
        assert forall|k2: Seq<char>| #[trigger] counted(m@, k2) == counted(m0, k2) + (if k2 == key@ {
            1nat
        } else {
            0nat
        }) by {}
    }
}

/// Whether a record counts as HTML.
fn is_html_record(r: &SearchIndexRecord) -> (b: bool)
    ensures
        b == html_record(r@),
{
    let mut i: usize = 0;
    while i < r.detected_formats.len()
        invariant
            i <= r.detected_formats.len(),
            forall|t: int|
                0 <= t < i ==> {
                    let f = unicode_lower(#[trigger] r@.detected_formats[t]);
                    !(f == "html"@ || contains_seq(f, "public.html"@) || contains_seq(f, "text/html"@))
                },
        decreases r.detected_formats.len() - i,
    {
        let f = lowercased(r.detected_formats[i].as_str());
        assert(r@.detected_formats[i as int] == r.detected_formats@[i as int]@);
        if str_eq(f.as_str(), "html") || str_contains(f.as_str(), "public.html") || str_contains(
            f.as_str(),
            "text/html",
        ) {
            return true;
        }
        i = i + 1;
    }
    false
}

/// The day of a record.
fn record_day(r: &SearchIndexRecord) -> (d: String)
    requires
        crate::timefmt::valid_timestamp(r.last_seen as int),
    ensures
        d@ == day_of(r@),
{
    let iso = crate::timefmt::format_iso(r.last_seen);
    let parts = split_char(iso.as_str(), '\u{54}');
    proof {
        crate::text::lemma_split_nonempty(iso@, '\u{54}');
    }
    assert(strs(parts@)[0] == parts@[0]@);
    parts[0].clone()
}

/// No kind is named `html`, so a key counts records of a kind or HTML
/// records, never both, and at most one per record.
proof fn lemma_type_count_bound(s: Seq<RecordView>, key: Seq<char>)
    ensures
        type_count(s, key) <= s.len(),
    decreases s.len(),
{
    reveal_strlit("html");
    reveal_strlit("text");
    reveal_strlit("file");
    reveal_strlit("image");
    reveal_strlit("other");
    assert("html"@[0] != "text"@[0] && "html"@[0] != "file"@[0]);
    assert("html"@.len() != "image"@.len() && "html"@.len() != "other"@.len());
    if s.len() > 0 {
        lemma_type_count_bound(s.drop_last(), key);
        assert(crate::stats::kind_word(s.last().kind) != "html"@);
    }
}

/// A day and kind has at most one hash per record.
proof fn lemma_day_kind_bound(s: Seq<RecordView>, day: Seq<char>, kind: Seq<char>)
    ensures
        day_kind_hashes(s, day, kind).len() <= s.len(),
    decreases s.len(),
{
    if s.len() > 0 {
        lemma_day_kind_bound(s.drop_last(), day, kind);
    }
}

/// A record with that day and kind, when the day and kind has hashes.
proof fn lemma_day_kind_witness(s: Seq<RecordView>, day: Seq<char>, kind: Seq<char>) -> (j: int)
    requires
        day_kind_hashes(s, day, kind).len() > 0,
    ensures
        0 <= j < s.len(),
        day_of(s[j]) == day,
        crate::stats::kind_word(s[j].kind) == kind,
    decreases s.len(),
{
    if day_of(s.last()) == day && crate::stats::kind_word(s.last().kind) == kind {
        s.len() - 1
    } else {
        let j = lemma_day_kind_witness(s.drop_last(), day, kind);
        assert(s.drop_last()[j] == s[j]);
        j
    }
}

/// The history entries have distinct days and kinds, hold the hashes of
/// their records among the first `n`, and cover every one of those records.
pub open spec fn history_of(h: Seq<DayKind>, s: Seq<RecordView>) -> bool {
    &&& forall|a: int, b: int|
        0 <= a < b < h.len() ==> !(h[a].day@ == h[b].day@ && h[a].kind@ == h[b].kind@)
    &&& forall|a: int|
        0 <= a < h.len() ==> {
            &&& strs((#[trigger] h[a]).ids@) == day_kind_hashes(s, h[a].day@, h[a].kind@)
            &&& h[a].count == h[a].ids@.len()
            &&& h[a].count > 0
        }
    &&& forall|j: int|
        0 <= j < s.len() ==> exists|a: int|
            0 <= a < h.len() && h[a].day@ == day_of(#[trigger] s[j]) && h[a].kind@
                == crate::stats::kind_word(s[j].kind)
}

/// The statistics the HTTP interface reports: how many records there are
/// and their total size; records per kind and HTML records; and records per
/// day and kind with their hashes in index order.
pub fn api_stats(index: &SearchIndex) -> (r: ApiStats)
    requires
        crate::stats::sum_sizes(index@) <= u64::MAX,
        forall|j: int| 0 <= j < index@.len() ==> crate::timefmt::valid_timestamp(#[trigger] index@[j].last_seen),
    ensures
        r.total_items == index@.len(),
        r.total_size == crate::stats::sum_sizes(index@),
        distinct_keys(r.type_counts@),
        forall|j: int| 0 <= j < r.type_counts@.len() ==> r.type_counts@[j].1 > 0,
        forall|k: Seq<char>| #[trigger] counted(r.type_counts@, k) == type_count(index@, k),
        history_of(r.history@, index@),
{
    let recs = index.records();
    let ghost vs = index@;
    let mut total_size: u64 = 0;
    let mut counts: Vec<(String, usize)> = Vec::new();
    let mut history: Vec<DayKind> = Vec::new();
    let mut i: usize = 0;
    while i < recs.len()
        invariant
            i <= recs.len(),
            crate::index::views(recs@) == vs,
            vs == index@,
            crate::stats::sum_sizes(vs) <= u64::MAX,
            forall|j: int| 0 <= j < vs.len() ==> crate::timefmt::valid_timestamp(#[trigger] vs[j].last_seen),
            total_size == crate::stats::sum_sizes(vs.take(i as int)),
            distinct_keys(counts@),
            forall|j: int| 0 <= j < counts@.len() ==> counts@[j].1 > 0,
            forall|k: Seq<char>| #[trigger] counted(counts@, k) == type_count(vs.take(i as int), k),
            history_of(history@, vs.take(i as int)),
        decreases recs.len() - i,
    {
        let r = &recs[i];
        let ghost before = vs.take(i as int);
        let ghost after = vs.take(i + 1);
        assert(after.drop_last() =~= before);
        assert(after.last() == vs[i as int]);
        assert(vs[i as int] == r@);
        proof {
            crate::stats::lemma_sum_sizes_prefix(vs, i + 1);
        }
        total_size = total_size + r.byte_size;
        let kind = crate::stats::kind_str(r.kind);
        proof {
            lemma_type_count_bound(before, kind@);
            lemma_type_count_bound(before, "html"@);
        }
        let ghost c0 = counts@;
        bump(&mut counts, kind);
        let html = is_html_record(r);
        if html {
            proof {
                reveal_strlit("html");
                reveal_strlit("text");
                reveal_strlit("file");
                reveal_strlit("image");
                reveal_strlit("other");
                assert("html"@[0] != "text"@[0] && "html"@[0] != "file"@[0]);
                assert("html"@.len() != "image"@.len() && "html"@.len() != "other"@.len());
                assert(kind@ != "html"@);
            }
            bump(&mut counts, "html");
        }
        assert forall|k: Seq<char>| #[trigger] counted(counts@, k) == type_count(after, k) by {}
        assert(crate::timefmt::valid_timestamp(vs[i as int].last_seen));
        let day = record_day(r);
        let ghost h0 = history@;
        let mut p: usize = 0;
        let mut found = false;
        while p < history.len()
            invariant_except_break
                history@ == h0,
                p <= history.len(),
                !found,
                forall|t: int| 0 <= t < p ==> !(history@[t].day@ == day@ && history@[t].kind@ == kind@),
            ensures
                history@ == h0,
                found ==> p < history@.len() && history@[p as int].day@ == day@ && history@[p as int].kind@
                    == kind@,
                !found ==> forall|t: int|
                    0 <= t < history@.len() ==> !(history@[t].day@ == day@ && history@[t].kind@ == kind@),
            decreases history.len() - p,
        {
            if str_eq(history[p].day.as_str(), day.as_str()) && str_eq(history[p].kind.as_str(), kind) {
                found = true;
                break;
            }
            p = p + 1;
        }
        proof {
            lemma_day_kind_bound(before, day@, kind@);
        }
        let ghost rec = after.last();
        assert(day_of(rec) == day@ && crate::stats::kind_word(rec.kind) == kind@);
        if found {
            let mut ids = crate::model::clone_strings(&history[p].ids);
            let ghost old_ids = strs(ids@);
            ids.push(r.hash.clone());
            assert(strs(ids@) =~= old_ids.push(rec.hash));
            let entry = DayKind {
                day: history[p].day.clone(),
                kind: history[p].kind.clone(),
                count: history[p].count + 1,
                ids,
            };
            history.set(p, entry);
        } else {
            proof {
                if day_kind_hashes(before, day@, kind@).len() > 0 {
                    let j = lemma_day_kind_witness(before, day@, kind@);
                    let a0 = choose|a: int|
                        0 <= a < h0.len() && h0[a].day@ == day_of(before[j]) && h0[a].kind@
                            == crate::stats::kind_word(before[j].kind);
                    assert(h0[a0].day@ == day@ && h0[a0].kind@ == kind@);
                }
            }
            let mut ids: Vec<String> = Vec::new();
            ids.push(r.hash.clone());
            assert(strs(ids@) =~= day_kind_hashes(before, day@, kind@).push(rec.hash));
            history.push(DayKind { day, kind: owned(kind), count: 1, ids });
        }
        proof {
            assert forall|a: int| 0 <= a < history@.len() implies {
                &&& strs((#[trigger] history@[a]).ids@) == day_kind_hashes(after, history@[a].day@, history@[a].kind@)
                &&& history@[a].count == history@[a].ids@.len()
                &&& history@[a].count > 0
            } by {
                let e = history@[a];
                if found && a == p {
                } else if !found && a == h0.len() {
                } else {
                    assert(e == h0[a]);
                    assert(!(e.day@ == day@ && e.kind@ == kind@));
                }
            }
            assert forall|a: int, b: int|
                0 <= a < b < history@.len() implies !(history@[a].day@ == history@[b].day@
                && history@[a].kind@ == history@[b].kind@) by {
                if found {
                    assert(history@[a].day@ == h0[a].day@ && history@[b].day@ == h0[b].day@);
                    assert(history@[a].kind@ == h0[a].kind@ && history@[b].kind@ == h0[b].kind@);
                } else if b == h0.len() {
                    assert(history@[a] == h0[a]);
                }
            }
            assert forall|j: int| 0 <= j < after.len() implies exists|a: int|
                0 <= a < history@.len() && history@[a].day@ == day_of(#[trigger] after[j]) && history@[a].kind@
                    == crate::stats::kind_word(after[j].kind) by {
                if j < before.len() {
                    assert(after[j] == before[j]);
                    let a0 = choose|a: int|
                        0 <= a < h0.len() && h0[a].day@ == day_of(before[j]) && h0[a].kind@
                            == crate::stats::kind_word(before[j].kind);
                    assert(history@[a0].day@ == h0[a0].day@);
                } else {
                    if found {
                        assert(history@[p as int].day@ == day@);
                    } else {
                        assert(history@[h0.len() as int].day@ == day@);
                    }
                }
            }
        }
        i = i + 1;
    }
    assert(vs.take(recs.len() as int) =~= vs);
    ApiStats { total_items: recs.len(), total_size, type_counts: counts, history }
}

// ---------------------------------------------------------------------------
// The latest change
// ---------------------------------------------------------------------------

/// The position of the record seen last: one with the greatest
/// `last_seen`, the last such in index order; `None` for an empty index.
pub fn latest_record(index: &SearchIndex) -> (r: Option<usize>)
    ensures
        r is None <==> index@.len() == 0,
        r matches Some(j) ==> j < index@.len() && (forall|k: int|
            0 <= k < index@.len() ==> index@[k].last_seen <= index@[j as int].last_seen) && (forall|k: int|
            j < k < index@.len() ==> index@[k].last_seen < index@[j as int].last_seen),
{
    let recs = index.records();
    if recs.len() == 0 {
        return None;
    }
    let mut best: usize = 0;
    let mut i: usize = 1;
    while i < recs.len()
        invariant
            1 <= i <= recs.len(),
            crate::index::views(recs@) == index@,
            best < i,
            forall|k: int| 0 <= k < i ==> index@[k].last_seen <= index@[best as int].last_seen,
            forall|k: int| best < k < i ==> index@[k].last_seen < index@[best as int].last_seen,
        decreases recs.len() - i,
    {
        assert(index@[i as int] == recs@[i as int]@);
        assert(index@[best as int] == recs@[best as int]@);
        if recs[i].last_seen >= recs[best].last_seen {
            best = i;
        }
        i = i + 1;
    }
    Some(best)
}

/// Every record is of exactly one kind, so the counts of the four kinds add
/// up to the number of records.
pub proof fn law_kind_counts_cover_all(s: Seq<RecordView>)
    ensures
        type_count(s, "text"@) + type_count(s, "image"@) + type_count(s, "file"@) + type_count(
            s,
            "other"@,
        ) == s.len(),
    decreases s.len(),
{
    reveal_strlit("html");
    reveal_strlit("text");
    reveal_strlit("file");
    reveal_strlit("image");
    reveal_strlit("other");
    assert("html"@[0] != "text"@[0] && "html"@[0] != "file"@[0]);
    assert("html"@.len() != "image"@.len() && "html"@.len() != "other"@.len());
    assert("text"@[0] != "file"@[0] && "image"@[0] != "other"@[0]);
    assert("text"@.len() != "image"@.len() && "file"@.len() != "other"@.len());
    assert("text"@.len() != "other"@.len() && "file"@.len() != "image"@.len());
    if s.len() > 0 {
        law_kind_counts_cover_all(s.drop_last());
    }
}

} // verus!
