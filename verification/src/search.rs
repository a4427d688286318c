//! Searching the history: filters by kind and format, date ranges, text
//! and pattern queries, the four sort orders and paging.

use vstd::prelude::*;
use vstd::utf8::encode_utf8;
use crate::index::{SearchIndex, date_order, positions_by_date, views};
use crate::model::{EntryKind, RecordView, SearchIndexRecord, clone_opt, opt_str, strs};
use crate::sort::{is_perm, order_by_key_desc, ordering};
use crate::text::{
    ascii_lower_seq, ascii_lowercased, contains_seq, lowercased, starts_with_seq, str_contains,
    str_ends_with, str_eq, str_starts_with, trim, trimmed, unicode_lower, split_spec, joined_with,
};

verus! {

// ---------------------------------------------------------------------------
// Case-insensitive patterns (the `regex` crate)
// ---------------------------------------------------------------------------

#[verifier::external_type_specification]
#[verifier::external_body]
pub struct ExRegex(regex::Regex);

/// Whether `RegexBuilder::new(pattern).case_insensitive(true).build()`
/// succeeds.
pub uninterp spec fn ci_pattern_compiles(pattern: Seq<char>) -> bool;

/// Whether the case-insensitive regular expression `pattern` matches
/// somewhere in `text` (`Regex::is_match`).
pub uninterp spec fn ci_pattern_matches(pattern: Seq<char>, text: Seq<char>) -> bool;

/// A compiled case-insensitive regular expression with its source.
pub struct CasePattern {
    source: String,
    re: regex::Regex,
}

impl CasePattern {
    /// The pattern's source text.
    pub closed spec fn source(&self) -> Seq<char> {
        self.source@
    }
}

/// Compiles `pattern` case-insensitively (`RegexBuilder::new(..)
/// .case_insensitive(true).build()`); `Some` exactly when the pattern is a
/// valid expression, which the crate's parser decides.
#[verifier::external_body]
pub fn compile_case_insensitive(pattern: &str) -> (r: Option<CasePattern>)
    ensures
        r.is_some() == ci_pattern_compiles(pattern@),
        r matches Some(p) ==> p.source() == pattern@,
{
    match regex::RegexBuilder::new(pattern).case_insensitive(true).build() {
        Ok(re) => Some(CasePattern { source: pattern.to_string(), re }),
        Err(_) => None,
    }
}

/// Whether the compiled pattern matches somewhere in `text`
/// (`Regex::is_match`); the result is named `ci_pattern_matches` of the
/// source and the text.
#[verifier::external_body]
pub fn pattern_is_match(p: &CasePattern, text: &str) -> (r: bool)
    ensures
        r == ci_pattern_matches(p.source(), text@),
{
    p.re.is_match(text)
}

// ---------------------------------------------------------------------------
// Selection filters
// ---------------------------------------------------------------------------

/// Which entries a command acts on: kinds, the HTML format, and format
/// name fragments.  A filter with nothing selected lets everything through.
pub struct SelectionFilter {
    pub include_text: bool,
    pub include_image: bool,
    pub include_file: bool,
    pub include_other: bool,
    pub include_html: bool,
    pub include_formats: Vec<String>,
}

impl Default for SelectionFilter {
    fn default() -> (r: Self)
        ensures
            !r.include_text && !r.include_image && !r.include_file && !r.include_other
                && !r.include_html && r.include_formats@.len() == 0,
    {
        SelectionFilter {
            include_text: false,
            include_image: false,
            include_file: false,
            include_other: false,
            include_html: false,
            include_formats: Vec::new(),
        }
    }
}

/// Some detected format, lower-cased (ASCII), contains `needle`.
pub open spec fn has_format(formats: Seq<Seq<char>>, needle: Seq<char>) -> bool {
    exists|i: int| 0 <= i < formats.len() && contains_seq(ascii_lower_seq(#[trigger] formats[i]), needle)
}

/// Whether the record passes the filter.
pub open spec fn filter_matches(f: SelectionFilter, r: RecordView) -> bool {
    let kind_active = f.include_text || f.include_image || f.include_file || f.include_other
        || f.include_html;
    let format_active = f.include_formats@.len() > 0;
    if !kind_active && !format_active {
        true
    } else {
        let by_kind = kind_active && ((f.include_text && r.kind == EntryKind::Text) || (
        f.include_image && r.kind == EntryKind::Image) || (f.include_file && r.kind
            == EntryKind::File) || (f.include_other && r.kind == EntryKind::Other) || (
        f.include_html && has_format(r.detected_formats, "html"@)));
        let by_format = format_active && exists|j: int|
            0 <= j < f.include_formats@.len() && has_format(
                r.detected_formats,
                #[trigger] f.include_formats@[j]@,
            );
        by_kind || by_format
    }
}

/// Whether some of `formats`, lower-cased, contains `needle`.
pub fn contains_format(formats: &[String], needle: &str) -> (r: bool)
    ensures
        r == has_format(strs(formats@), needle@),
{
    let mut i: usize = 0;
    while i < formats.len()
        invariant
            i <= formats.len(),
            forall|j: int|
                0 <= j < i ==> !contains_seq(ascii_lower_seq(#[trigger] strs(formats@)[j]), needle@),
        decreases formats.len() - i,
    {
        let lower = ascii_lowercased(formats[i].as_str());
        if str_contains(lower.as_str(), needle) {
            assert(contains_seq(ascii_lower_seq(strs(formats@)[i as int]), needle@));
            return true;
        }
        i = i + 1;
    }
    false
}

/// Whether some of `needles` occurs in one of `formats`, lower-cased.
fn any_format_matches(formats: &Vec<String>, needles: &Vec<String>) -> (r: bool)
    ensures
        r == exists|j: int|
            0 <= j < needles@.len() && has_format(strs(formats@), #[trigger] needles@[j]@),
{
    let mut j: usize = 0;
    while j < needles.len()
        invariant
            j <= needles.len(),
            forall|k: int|
                0 <= k < j ==> !has_format(strs(formats@), #[trigger] needles@[k]@),
        decreases needles.len() - j,
    {
        if contains_format(formats, needles[j].as_str()) {
            return true;
        }
        j = j + 1;
    }
    false
}

impl SelectionFilter {
    /// Whether the record passes this filter.
    pub fn matches(&self, record: &SearchIndexRecord) -> (r: bool)
        ensures
            r == filter_matches(*self, record@),
    {
        let kind_filter_active = self.include_text || self.include_image || self.include_file
            || self.include_other || self.include_html;
        let format_filter_active = self.include_formats.len() > 0;
        if !kind_filter_active && !format_filter_active {
            return true;
        }
        let matches_kind = if kind_filter_active {
            (self.include_text && record.kind == EntryKind::Text) || (self.include_image
                && record.kind == EntryKind::Image) || (self.include_file && record.kind
                == EntryKind::File) || (self.include_other && record.kind == EntryKind::Other) || (
            self.include_html && contains_format(&record.detected_formats, "html"))
        } else {
            false
        };
        let matches_format = format_filter_active && any_format_matches(
            &record.detected_formats,
            &self.include_formats,
        );
        matches_kind || matches_format
    }
}

// ---------------------------------------------------------------------------
// Options and results
// ---------------------------------------------------------------------------

/// How results are ordered before the direction is applied.
#[derive(Clone, Copy, Debug, PartialEq, Eq, Structural)]
pub enum SortOrder {
    Date,
    Copies,
    Type,
    Relevance,
}

/// Largest first (`Desc`) or reversed (`Asc`).
#[derive(Clone, Copy, Debug, PartialEq, Eq, Structural)]
pub enum SortDirection {
    Desc,
    Asc,
}

/// A search request.  Times are Unix seconds.
pub struct SearchOptions {
    pub query: Option<String>,
    pub limit: Option<usize>,
    pub offset: usize,
    pub filter: SelectionFilter,
    pub from: Option<i64>,
    pub to: Option<i64>,
    pub sort: SortOrder,
    pub order: SortDirection,
    pub regex: bool,
}

impl Default for SearchOptions {
    fn default() -> (r: Self)
        ensures
            r.query is None,
            r.limit is None,
            r.offset == 0,
            !r.filter.include_text && !r.filter.include_image && !r.filter.include_file
                && !r.filter.include_other && !r.filter.include_html
                && r.filter.include_formats@.len() == 0,
            r.from is None,
            r.to is None,
            r.sort == SortOrder::Date,
            r.order == SortDirection::Desc,
            !r.regex,
    {
        SearchOptions {
            query: None,
            limit: None,
            offset: 0,
            filter: SelectionFilter::default(),
            from: None,
            to: None,
            sort: SortOrder::Date,
            order: SortDirection::Desc,
            regex: false,
        }
    }
}

/// One entry of a result page.
pub struct SearchHit {
    pub hash: String,
    pub summary: Option<String>,
    pub kind: EntryKind,
    pub byte_size: u64,
    /// Position among all entries that matched.
    pub offset: usize,
    /// Position in the full history, most recent first.
    pub global_offset: usize,
}

/// A page of results.
pub struct SearchResult {
    pub hits: Vec<SearchHit>,
    pub has_more: bool,
    pub total: usize,
}

// ---------------------------------------------------------------------------
// Matching and ranking
// ---------------------------------------------------------------------------

/// The query as matched: trimmed and lower-cased, or none when blank.
pub open spec fn normalized_query(q: Option<Seq<char>>) -> Option<Seq<char>> {
    match q {
        Some(s) => if trim(s).len() == 0 {
            None
        } else {
            Some(unicode_lower(trim(s)))
        },
        None => None,
    }
}

/// The record was last seen within `[from, to]` (either end optional).
pub open spec fn in_range_spec(r: RecordView, from: Option<i64>, to: Option<i64>) -> bool {
    match (from, to) {
        (Some(a), Some(b)) => r.last_seen >= a && r.last_seen <= b,
        (Some(a), None) => r.last_seen >= a,
        (None, Some(b)) => r.last_seen <= b,
        (None, None) => true,
    }
}

/// Whether the record was last seen within `[from, to]`.
pub fn in_range(record: &SearchIndexRecord, from: Option<i64>, to: Option<i64>) -> (r: bool)
    ensures
        r == in_range_spec(record@, from, to),
{
    match (from, to) {
        (Some(start), Some(end)) => record.last_seen >= start && record.last_seen <= end,
        (Some(start), None) => record.last_seen >= start,
        (None, Some(end)) => record.last_seen <= end,
        (None, None) => true,
    }
}

/// The record matches the (normalized) query: as a case-insensitive
/// regular expression when asked for and valid, else as a substring of the
/// lower-cased hash, summary or search text.
pub open spec fn query_matches_spec(r: RecordView, q: Seq<char>, is_regex: bool) -> bool {
    if is_regex && ci_pattern_compiles(q) {
        ||| ci_pattern_matches(q, r.hash)
        ||| (r.summary matches Some(s) && ci_pattern_matches(q, s))
        ||| (r.search_text matches Some(t) && ci_pattern_matches(q, t))
    } else {
        ||| contains_seq(unicode_lower(r.hash), q)
        ||| (r.summary matches Some(s) && contains_seq(unicode_lower(s), q))
        ||| (r.search_text matches Some(t) && contains_seq(unicode_lower(t), q))
    }
}

/// Whether the record matches the query.
pub fn query_matches(record: &SearchIndexRecord, query: &str, is_regex: bool) -> (r: bool)
    ensures
        r == query_matches_spec(record@, query@, is_regex),
{
    if is_regex {
        match compile_case_insensitive(query) {
            Some(re) => {
                if pattern_is_match(&re, record.hash.as_str()) {
                    return true;
                }
                let in_summary = match &record.summary {
                    Some(summary) => pattern_is_match(&re, summary.as_str()),
                    None => false,
                };
                if in_summary {
                    return true;
                }
                return match &record.search_text {
                    Some(text) => pattern_is_match(&re, text.as_str()),
                    None => false,
                };
            },
            None => {},
        }
    }
    let hash = lowercased(record.hash.as_str());
    if str_contains(hash.as_str(), query) {
        return true;
    }
    let in_summary = match &record.summary {
        Some(summary) => {
            let s = lowercased(summary.as_str());
            str_contains(s.as_str(), query)
        },
        None => false,
    };
    if in_summary {
        return true;
    }
    match &record.search_text {
        Some(text) => {
            let t = lowercased(text.as_str());
            str_contains(t.as_str(), query)
        },
        None => false,
    }
}

/// The text score of a record for a query, before the length adjustment:
/// exact hash 100, summary equal 90, hash containing 80, summary starting
/// with 70, summary containing 60, search text containing 40.
pub open spec fn base_score(r: RecordView, q: Seq<char>) -> nat {
    let hash = unicode_lower(r.hash);
    let text_score: nat = match r.search_text {
        Some(t) => if contains_seq(unicode_lower(t), q) {
            40
        } else {
            0
        },
        None => 0,
    };
    if hash == q {
        100
    } else if contains_seq(hash, q) {
        80
    } else {
        match r.summary {
            Some(s) => {
                let ls = unicode_lower(s);
                if ls == q {
                    90
                } else if starts_with_seq(ls, q) {
                    70
                } else if contains_seq(ls, q) {
                    60
                } else {
                    text_score
                }
            },
            None => text_score,
        }
    }
}

/// The length (in bytes) that the score is adjusted by: the summary's, else
/// the search text's.
pub open spec fn content_len(r: RecordView) -> nat {
    match r.summary {
        Some(s) => (encode_utf8(s).len() as usize) as nat,
        None => match r.search_text {
            Some(t) => (encode_utf8(t).len() as usize) as nat,
            None => 0,
        },
    }
}

/// A positive score scaled by `max(1000 / (len + 100), 1/2)` (by 1 when the
/// length is 0) and rounded half away from zero.
pub open spec fn adjusted_score(score: nat, len: nat) -> nat {
    if score == 0 {
        0
    } else if len == 0 {
        score
    } else if len + 100 <= 2000 {
        ((2 * score * 1000 + (len + 100)) / (2 * (len + 100))) as nat
    } else {
        ((score + 1) / 2) as nat
    }
}

/// The relevance of a record to a query.
pub open spec fn relevance_spec(r: RecordView, q: Seq<char>) -> nat {
    adjusted_score(base_score(r, q), content_len(r))
}

/// The relevance of a record to a (normalized) query.
pub fn calculate_relevance(record: &SearchIndexRecord, query: &str) -> (r: u32)
    ensures
        r == relevance_spec(record@, query@),
{
    let hash = lowercased(record.hash.as_str());
    let text_score: u32 = match &record.search_text {
        Some(t) => {
            let lt = lowercased(t.as_str());
            if str_contains(lt.as_str(), query) {
                40
            } else {
                0
            }
        },
        None => 0,
    };
    let score: u32 = if str_eq(hash.as_str(), query) {
        100
    } else if str_contains(hash.as_str(), query) {
        80
    } else {
        match &record.summary {
            Some(s) => {
                let ls = lowercased(s.as_str());
                if str_eq(ls.as_str(), query) {
                    90
                } else if str_starts_with(ls.as_str(), query) {
                    70
                } else if str_contains(ls.as_str(), query) {
                    60
                } else {
                    text_score
                }
            },
            None => text_score,
        }
    };
    let len: usize = match &record.summary {
        Some(s) => s.as_str().len(),
        None => match &record.search_text {
            Some(t) => t.as_str().len(),
            None => 0,
        },
    };
    assert(score as nat == base_score(record@, query@));
    assert(len as nat == content_len(record@));
    if score == 0 {
        0
    } else if len == 0 {
        score
    } else if len <= 1900 {
        let d: u64 = (len as u64) + 100;
        let v = (2 * (score as u64) * 1000 + d) / (2 * d);
        assert(v <= 2000) by (nonlinear_arith)
            requires
                v == (2 * (score as u64) * 1000 + d) / (2 * d),
                d >= 101,
                score <= 100,
        ;
        v as u32
    } else {
        (score + 1) / 2
    }
}

// ---------------------------------------------------------------------------
// The search
// ---------------------------------------------------------------------------

/// The rank of a kind when sorting by type: by the kind's name, ascending.
pub open spec fn kind_rank(k: EntryKind) -> int {
    match k {
        EntryKind::File => 0,
        EntryKind::Image => 1,
        EntryKind::Other => 2,
        EntryKind::Text => 3,
    }
}

/// The record at history position `j` (most recent first).
pub open spec fn at_date_rank(s: Seq<RecordView>, j: int) -> RecordView {
    s[date_order(s)[j] as int]
}

/// The secondary sort key of history position `j`.
pub open spec fn secondary_key(
    s: Seq<RecordView>,
    sort: SortOrder,
    q: Option<Seq<char>>,
    j: int,
) -> i128 {
    let r = at_date_rank(s, j);
    match sort {
        SortOrder::Copies => r.copy_count as i128,
        SortOrder::Type => (-kind_rank(r.kind)) as i128,
        SortOrder::Relevance => match q {
            Some(qq) => relevance_spec(r, qq) as i128,
            None => 0,
        },
        SortOrder::Date => 0,
    }
}

/// The history positions `0..n` in identity order.
pub open spec fn identity(n: nat) -> Seq<usize> {
    Seq::new(n, |i: int| i as usize)
}

/// `s` backwards.
pub open spec fn rev(s: Seq<usize>) -> Seq<usize> {
    Seq::new(s.len(), |i: int| s[s.len() - 1 - i])
}

/// The history positions in the requested order: most recent first, then
/// stably by the requested key, then reversed for ascending order.
pub open spec fn arranged(s: Seq<RecordView>, o: SearchOptions) -> Seq<usize> {
    let q = normalized_query(opt_str(o.query));
    let by_key = if o.sort == SortOrder::Date || (o.sort == SortOrder::Relevance && q is None) {
        identity(s.len())
    } else {
        ordering(Seq::new(s.len(), |j: int| secondary_key(s, o.sort, q, j)), s.len())
    };
    if o.order == SortDirection::Asc {
        rev(by_key)
    } else {
        by_key
    }
}

/// The requested order lists each history position once.
pub proof fn lemma_arranged(s: Seq<RecordView>, o: SearchOptions)
    requires
        s.len() <= usize::MAX,
    ensures
        arranged(s, o).len() == s.len(),
        forall|k: int| 0 <= k < s.len() ==> (#[trigger] arranged(s, o)[k] as int) < s.len(),
{
    let q = normalized_query(opt_str(o.query));
    let keys = Seq::new(s.len(), |j: int| secondary_key(s, o.sort, q, j));
    crate::sort::lemma_ordering(keys, s.len());
}

/// The history position `j` passes the date range, the filter and the
/// query.
pub open spec fn selected(s: Seq<RecordView>, o: SearchOptions, j: int) -> bool {
    let r = at_date_rank(s, j);
    &&& in_range_spec(r, o.from, o.to)
    &&& filter_matches(o.filter, r)
    &&& match normalized_query(opt_str(o.query)) {
        Some(q) => query_matches_spec(r, q, o.regex),
        None => true,
    }
}

/// The selected positions among `ps`, in order.
pub open spec fn selected_of(s: Seq<RecordView>, o: SearchOptions, ps: Seq<usize>) -> Seq<usize>
    decreases ps.len(),
{
    if ps.len() == 0 {
        Seq::empty()
    } else {
        let rest = selected_of(s, o, ps.drop_last());
        if selected(s, o, ps.last() as int) {
            rest.push(ps.last())
        } else {
            rest
        }
    }
}

/// All matching history positions, in result order.
pub open spec fn all_matches(s: Seq<RecordView>, o: SearchOptions) -> Seq<usize> {
    selected_of(s, o, arranged(s, o))
}

/// The page size: the limit, or no limit.
pub open spec fn page_size(o: SearchOptions) -> int {
    match o.limit {
        Some(l) => l as int,
        None => usize::MAX as int,
    }
}

/// More matches exist past the page.
pub open spec fn more_after_page(s: Seq<RecordView>, o: SearchOptions) -> bool {
    all_matches(s, o).len() > o.offset + page_size(o)
}

/// How many matches were counted: all of them, or, when the page is full,
/// up to the first one past it.
pub open spec fn counted(s: Seq<RecordView>, o: SearchOptions) -> int {
    if more_after_page(s, o) {
        o.offset + page_size(o) + 1
    } else {
        all_matches(s, o).len() as int
    }
}

/// How many hits the page holds.
pub open spec fn page_len(s: Seq<RecordView>, o: SearchOptions) -> int {
    if more_after_page(s, o) {
        page_size(o)
    } else if all_matches(s, o).len() > o.offset {
        all_matches(s, o).len() - o.offset
    } else {
        0
    }
}

/// Hit `i` of the page describes the record at the matching history
/// position `o.offset + i`.
pub open spec fn hit_ok(s: Seq<RecordView>, o: SearchOptions, h: SearchHit, i: int) -> bool {
    let j = all_matches(s, o)[o.offset + i];
    let r = at_date_rank(s, j as int);
    &&& h.hash@ == r.hash
    &&& opt_str(h.summary) == r.summary
    &&& h.kind == r.kind
    &&& h.byte_size == r.byte_size
    &&& h.offset == o.offset + i
    &&& h.global_offset == j
}

/// Two searches that differ at most in the query, whose normalized forms
/// agree.
pub open spec fn same_search(o1: SearchOptions, o2: SearchOptions) -> bool {
    &&& normalized_query(opt_str(o1.query)) == normalized_query(opt_str(o2.query))
    &&& o1.limit == o2.limit
    &&& o1.offset == o2.offset
    &&& o1.filter == o2.filter
    &&& o1.from == o2.from
    &&& o1.to == o2.to
    &&& o1.sort == o2.sort
    &&& o1.order == o2.order
    &&& o1.regex == o2.regex
}

proof fn lemma_selected_of_same(s: Seq<RecordView>, o1: SearchOptions, o2: SearchOptions, ps: Seq<usize>)
    requires
        same_search(o1, o2),
    ensures
        selected_of(s, o1, ps) == selected_of(s, o2, ps),
    decreases ps.len(),
{
    if ps.len() > 0 {
        lemma_selected_of_same(s, o1, o2, ps.drop_last());
        assert(selected(s, o1, ps.last() as int) == selected(s, o2, ps.last() as int));
    }
}

/// Law: a search depends on its query only through the query's normalized
/// form (trimmed, lower-cased, none when blank), so searching with a query
/// already in that form gives the same page, `has_more` and total, for
/// every query whose normalized form normalizes to itself.
pub proof fn law_search_by_normalized_query(s: Seq<RecordView>, o1: SearchOptions, o2: SearchOptions)
    requires
        same_search(o1, o2),
    ensures
        more_after_page(s, o1) == more_after_page(s, o2),
        counted(s, o1) == counted(s, o2),
        page_len(s, o1) == page_len(s, o2),
        forall|h: SearchHit, i: int| hit_ok(s, o1, h, i) == hit_ok(s, o2, h, i),
{
    assert(arranged(s, o1) == arranged(s, o2));
    lemma_selected_of_same(s, o1, o2, arranged(s, o1));
    assert(all_matches(s, o1) == all_matches(s, o2));
}

/// Whether std's lower-casing of `t` is its ASCII lower-casing, as
/// `lowercased` states for every ASCII text.
pub open spec fn lowers_as_ascii(t: Seq<char>) -> bool {
    unicode_lower(t) == ascii_lower_seq(t)
}

/// A normalized ASCII query normalizes to itself.
pub proof fn lemma_ascii_query_normalizes_once(q: Seq<char>)
    requires
        vstd::utf8::is_ascii_chars(q),
        lowers_as_ascii(trim(q)),
        lowers_as_ascii(ascii_lower_seq(trim(q))),
    ensures
        normalized_query(normalized_query(Some(q))) == normalized_query(Some(q)),
{
    let t = trim(q);
    crate::text::lemma_trim_shape(q);
    if t.len() > 0 {
        let n = ascii_lower_seq(t);
        assert(!crate::text::is_ws(n[0])) by {
            assert(n[0] == crate::text::ascii_lower(t[0]));
            assert(!crate::text::is_ws(t[0]));
        }
        assert(!crate::text::is_ws(n.last())) by {
            assert(n.last() == crate::text::ascii_lower(t.last()));
            assert(!crate::text::is_ws(t.last()));
        }
        crate::text::lemma_trim_plain(n);
        assert(ascii_lower_seq(n) =~= n);
    }
}

/// Law: for an ASCII query, searching with the query already trimmed and
/// lower-cased (none when blank) gives the same page, `has_more` and total
/// as searching with the query as typed.  Its last two conditions hold
/// wherever the text has been lower-cased with `lowercased`, which states
/// them for ASCII text.
pub proof fn law_search_with_normalized_ascii_query(s: Seq<RecordView>, o1: SearchOptions, o2: SearchOptions, q: Seq<char>)
    requires
        opt_str(o1.query) == Some(q),
        vstd::utf8::is_ascii_chars(q),
        lowers_as_ascii(trim(q)),
        lowers_as_ascii(ascii_lower_seq(trim(q))),
        opt_str(o2.query) == normalized_query(Some(q)),
        o1.limit == o2.limit,
        o1.offset == o2.offset,
        o1.filter == o2.filter,
        o1.from == o2.from,
        o1.to == o2.to,
        o1.sort == o2.sort,
        o1.order == o2.order,
        o1.regex == o2.regex,
    ensures
        more_after_page(s, o1) == more_after_page(s, o2),
        counted(s, o1) == counted(s, o2),
        page_len(s, o1) == page_len(s, o2),
        forall|h: SearchHit, i: int| hit_ok(s, o1, h, i) == hit_ok(s, o2, h, i),
{
    lemma_ascii_query_normalizes_once(q);
    law_search_by_normalized_query(s, o1, o2);
}

/// Selecting from positions keeps each selected position's place: every
/// selected position is one of `ps`, and two selected positions keep the
/// order they have in `ps`.
proof fn lemma_selected_of_keeps_order(s: Seq<RecordView>, o: SearchOptions, ps: Seq<usize>, keys: Seq<i128>)
    requires
        forall|i: int, j: int| 0 <= i < j < ps.len() ==> crate::sort::before(keys, ps[i] as int, ps[j] as int),
    ensures
        forall|i: int|
            0 <= i < selected_of(s, o, ps).len() ==> exists|k: int|
                0 <= k < ps.len() && #[trigger] selected_of(s, o, ps)[i] == ps[k],
        forall|i: int, j: int|
            0 <= i < j < selected_of(s, o, ps).len() ==> crate::sort::before(
                keys,
                selected_of(s, o, ps)[i] as int,
                selected_of(s, o, ps)[j] as int,
            ),
    decreases ps.len(),
{
    if ps.len() > 0 {
        let init = ps.drop_last();
        lemma_selected_of_keeps_order(s, o, init, keys);
        let rest = selected_of(s, o, init);
        let sel = selected_of(s, o, ps);
        assert forall|i: int| 0 <= i < sel.len() implies exists|k: int|
            0 <= k < ps.len() && #[trigger] sel[i] == ps[k] by {
            if i < rest.len() {
                let k = choose|k: int| 0 <= k < init.len() && rest[i] == init[k];
                assert(sel[i] == ps[k]);
            } else {
                assert(sel[i] == ps[ps.len() - 1]);
            }
        }
        assert forall|i: int, j: int| 0 <= i < j < sel.len() implies crate::sort::before(
            keys,
            sel[i] as int,
            sel[j] as int,
        ) by {
            if j < rest.len() {
                assert(sel[i] == rest[i] && sel[j] == rest[j]);
            } else {
                let k = choose|k: int| 0 <= k < init.len() && rest[i] == init[k];
                assert(sel[i] == ps[k]);
                assert(sel[j] == ps[ps.len() - 1]);
            }
        }
    }
}

/// Law: sorted by copies, most first, the matches run from the most copied
/// record to the least, and records copied equally often stay most
/// recently seen first.  So does every result page: a hit before another
/// names a record copied at least as often.
pub proof fn law_copies_sort_most_copied_first(s: Seq<RecordView>, o: SearchOptions)
    requires
        s.len() <= usize::MAX,
        o.sort == SortOrder::Copies,
        o.order == SortDirection::Desc,
        forall|k: int| 0 <= k < s.len() ==> #[trigger] s[k].copy_count <= u64::MAX,
    ensures
        forall|i: int, j: int|
            #![trigger all_matches(s, o)[i], all_matches(s, o)[j]]
            0 <= i < j < all_matches(s, o).len() ==> {
                let a = all_matches(s, o)[i] as int;
                let b = all_matches(s, o)[j] as int;
                &&& at_date_rank(s, a).copy_count >= at_date_rank(s, b).copy_count
                &&& at_date_rank(s, a).copy_count == at_date_rank(s, b).copy_count ==> a < b
            },
        forall|h1: SearchHit, h2: SearchHit, i: int, j: int|
            #![trigger hit_ok(s, o, h1, i), hit_ok(s, o, h2, j)]
            0 <= i < j && o.offset + j < all_matches(s, o).len() && hit_ok(s, o, h1, i) && hit_ok(
                s,
                o,
                h2,
                j,
            ) ==> at_date_rank(s, h1.global_offset as int).copy_count >= at_date_rank(
                s,
                h2.global_offset as int,
            ).copy_count,
{
    let q = normalized_query(opt_str(o.query));
    let keys = Seq::new(s.len(), |j: int| secondary_key(s, o.sort, q, j));
    crate::sort::lemma_ordering(keys, s.len());
    crate::sort::lemma_ordering(crate::index::date_keys(s), s.len());
    let arr = arranged(s, o);
    assert(arr == crate::sort::ordering(keys, s.len()));
    lemma_selected_of_keeps_order(s, o, arr, keys);
    let m = all_matches(s, o);
    assert forall|i: int, j: int|
        #![trigger m[i], m[j]]
        0 <= i < j < m.len() implies {
        let a = m[i] as int;
        let b = m[j] as int;
        &&& at_date_rank(s, a).copy_count >= at_date_rank(s, b).copy_count
        &&& at_date_rank(s, a).copy_count == at_date_rank(s, b).copy_count ==> a < b
    } by {
        let a = m[i] as int;
        let b = m[j] as int;
        assert(crate::sort::before(keys, a, b));
        let ka = choose|k: int| 0 <= k < arr.len() && #[trigger] m[i] == arr[k];
        let kb = choose|k: int| 0 <= k < arr.len() && #[trigger] m[j] == arr[k];
        assert(0 <= a < s.len() && 0 <= b < s.len());
        let ra = date_order(s)[a] as int;
        let rb = date_order(s)[b] as int;
        assert(0 <= ra < s.len() && 0 <= rb < s.len());
        assert(s[ra].copy_count <= u64::MAX && s[rb].copy_count <= u64::MAX);
        assert(keys[a] == at_date_rank(s, a).copy_count as i128);
        assert(keys[b] == at_date_rank(s, b).copy_count as i128);
    }
}

/// The query, trimmed and lower-cased, or none when blank.
pub fn normalize_query(query: &Option<String>) -> (r: Option<String>)
    ensures
        opt_str(r) == normalized_query(opt_str(*query)),
{
    match query {
        Some(q) => {
            let t = trimmed(q.as_str());
            if t.as_str().is_empty() {
                None
            } else {
                Some(lowercased(t.as_str()))
            }
        },
        None => None,
    }
}

fn reversed(v: &Vec<usize>) -> (r: Vec<usize>)
    ensures
        r@ == rev(v@),
{
    let mut r: Vec<usize> = Vec::new();
    let n = v.len();
    let mut i: usize = 0;
    while i < n
        invariant
            n == v.len(),
            i <= n,
            r@ == rev(v@).take(i as int),
        decreases n - i,
    {
        r.push(v[n - 1 - i]);
        i = i + 1;
        assert(r@ =~= rev(v@).take(i as int));
    }
    assert(r@ =~= rev(v@));
    r
}

/// The history positions in the requested order.
fn arrange(index: &SearchIndex, options: &SearchOptions, q: &Option<String>, date: &Vec<usize>) -> (r: Vec<usize>)
    requires
        opt_str(*q) == normalized_query(opt_str(options.query)),
        date@ == date_order(index@),
        is_perm(date@, index@.len()),
    ensures
        r@ == arranged(index@, *options),
{
    let recs = index.records();
    let n = date.len();
    let ghost s = index@;
    let identity_order = options.sort == SortOrder::Date || (options.sort == SortOrder::Relevance
        && q.is_none());
    let by_key = if identity_order {
        let mut ids: Vec<usize> = Vec::new();
        let mut i: usize = 0;
        while i < n
            invariant
                i <= n,
                n == s.len(),
                ids@ == identity(s.len()).take(i as int),
            decreases n - i,
        {
            ids.push(i);
            i = i + 1;
            assert(ids@ =~= identity(s.len()).take(i as int));
        }
        assert(ids@ =~= identity(s.len()));
        ids
    } else {
        let ghost qv = normalized_query(opt_str(options.query));
        let ghost keys_spec = Seq::new(s.len(), |j: int| secondary_key(s, options.sort, qv, j));
        let mut keys: Vec<i128> = Vec::new();
        let mut i: usize = 0;
        while i < n
            invariant
                i <= n,
                n == s.len(),
                views(recs@) == s,
                date@ == date_order(s),
                is_perm(date@, s.len()),
                opt_str(*q) == qv,
                keys_spec == Seq::new(s.len(), |j: int| secondary_key(s, options.sort, qv, j)),
                keys@ == keys_spec.take(i as int),
            decreases n - i,
        {
            let rec = &recs[date[i]];
            assert(rec@ == at_date_rank(s, i as int));
            let k: i128 = match options.sort {
                SortOrder::Copies => rec.copy_count as i128,
                SortOrder::Type => match rec.kind {
                    EntryKind::File => 0,
                    EntryKind::Image => -1,
                    EntryKind::Other => -2,
                    EntryKind::Text => -3,
                },
                SortOrder::Relevance => match q {
                    Some(qs) => calculate_relevance(rec, qs.as_str()) as i128,
                    None => 0,
                },
                SortOrder::Date => 0,
            };
            keys.push(k);
            i = i + 1;
            assert(keys@ =~= keys_spec.take(i as int));
        }
        assert(keys@ =~= keys_spec);
        order_by_key_desc(&keys)
    };
    if options.order == SortDirection::Asc {
        reversed(&by_key)
    } else {
        by_key
    }
}

/// Searches the index: orders the history, keeps the entries that pass the
/// date range, filter and query, and returns the page `offset..offset+limit`
/// of them with whether more follow.
pub fn search(index: &SearchIndex, options: &SearchOptions) -> (r: SearchResult)
    ensures
        r.has_more == more_after_page(index@, *options),
        r.total == counted(index@, *options),
        r.hits@.len() == page_len(index@, *options),
        forall|i: int| 0 <= i < r.hits@.len() ==> hit_ok(index@, *options, #[trigger] r.hits@[i], i),
{
    let ghost s = index@;
    let q = normalize_query(&options.query);
    let date = positions_by_date(index);
    let order = arrange(index, options, &q, &date);
    let recs = index.records();
    let n_recs = recs.len();
    assert(s.len() == n_recs);
    proof {
        crate::sort::lemma_ordering(crate::index::date_keys(s), s.len());
    }
    // All matching positions, in order.
    let mut matches: Vec<usize> = Vec::new();
    let mut i: usize = 0;
    proof {
        lemma_arranged(s, *options);
    }
    while i < order.len()
        invariant
            i <= order.len(),
            order@ == arranged(s, *options),
            order@.len() == s.len(),
            views(recs@) == s,
            date@ == date_order(s),
            is_perm(date@, s.len()),
            opt_str(q) == normalized_query(opt_str(options.query)),
            forall|k: int| 0 <= k < order@.len() ==> (order@[k] as int) < s.len(),
            matches@ == selected_of(s, *options, order@.take(i as int)),
            forall|k: int| 0 <= k < matches@.len() ==> (matches@[k] as int) < s.len(),
        decreases order.len() - i,
    {
        let j = order[i];
        let rec = &recs[date[j]];
        assert(rec@ == at_date_rank(s, j as int));
        let ok = in_range(rec, options.from, options.to) && options.filter.matches(rec) && match &q {
            Some(qs) => query_matches(rec, qs.as_str(), options.regex),
            None => true,
        };
        assert(order@.take(i + 1).drop_last() =~= order@.take(i as int));
        if ok {
            matches.push(j);
        }
        i = i + 1;
    }
    assert(order@.take(order.len() as int) =~= order@);
    let ghost all = matches@;
    assert(all == all_matches(s, *options));
    let limit: usize = match options.limit {
        Some(l) => l,
        None => usize::MAX,
    };
    let has_more = matches.len() > options.offset && matches.len() - options.offset > limit;
    let total: usize = if has_more {
        options.offset + limit + 1
    } else {
        matches.len()
    };
    let count: usize = if has_more {
        limit
    } else if matches.len() > options.offset {
        matches.len() - options.offset
    } else {
        0
    };
    assert(has_more == more_after_page(s, *options));
    assert(count == page_len(s, *options));
    assert(count == 0 || options.offset + count <= matches@.len());
    let mlen = matches.len();
    let mut hits: Vec<SearchHit> = Vec::new();
    let mut k: usize = 0;
    while k < count
        invariant
            k <= count,
            count == page_len(s, *options),
            matches@ == all_matches(s, *options),
            count == 0 || options.offset + count <= matches@.len(),
            mlen == matches@.len(),
            views(recs@) == s,
            date@ == date_order(s),
            is_perm(date@, s.len()),
            forall|t: int| 0 <= t < matches@.len() ==> (matches@[t] as int) < s.len(),
            hits@.len() == k,
            forall|t: int| 0 <= t < k ==> hit_ok(s, *options, #[trigger] hits@[t], t),
        decreases count - k,
    {
        let j = matches[options.offset + k];
        let rec = &recs[date[j]];
        assert(rec@ == at_date_rank(s, j as int));
        hits.push(
            SearchHit {
                hash: rec.hash.clone(),
                summary: clone_opt(&rec.summary),
                kind: rec.kind,
                byte_size: rec.byte_size,
                offset: options.offset + k,
                global_offset: j,
            },
        );
        k = k + 1;
    }
    SearchResult { hits, has_more, total }
}

// ---------------------------------------------------------------------------
// Query shortcuts
// ---------------------------------------------------------------------------

/// The operators that select a kind of entry: `type:text`, `type:image`,
/// `type:file`, `type:html` and `type:other`.
pub open spec fn is_type_operator(t: Seq<char>) -> bool {
    ||| t == "type:text"@
    ||| t == "type:image"@
    ||| t == "type:file"@
    ||| t == "type:html"@
    ||| t == "type:other"@
}

/// The tokens that are not type operators, in order.
pub open spec fn plain_tokens(ts: Seq<Seq<char>>) -> Seq<Seq<char>>
    decreases ts.len(),
{
    if ts.len() == 0 {
        Seq::empty()
    } else if is_type_operator(ts.last()) {
        plain_tokens(ts.drop_last())
    } else {
        plain_tokens(ts.drop_last()).push(ts.last())
    }
}

/// Whether one of the tokens is `t`.
pub open spec fn has_token(ts: Seq<Seq<char>>, t: Seq<char>) -> bool
    decreases ts.len(),
{
    ts.len() > 0 && (has_token(ts.drop_last(), t) || ts.last() == t)
}

/// Whether one of the tokens is a type operator.
pub open spec fn has_operator(ts: Seq<Seq<char>>) -> bool
    decreases ts.len(),
{
    ts.len() > 0 && (has_operator(ts.drop_last()) || is_type_operator(ts.last()))
}

/// Whether the query is one of the shortcuts: `@link`, `@email`, `@image`,
/// `@file`, `@html`, `@color`, `@path` or `@[expr]`.
pub open spec fn is_shortcut(q: Seq<char>) -> bool {
    ||| q == "@link"@
    ||| q == "@email"@
    ||| q == "@image"@
    ||| q == "@file"@
    ||| q == "@html"@
    ||| q == "@color"@
    ||| q == "@path"@
    ||| (starts_with_seq(q, "@["@) && q.len() >= 3 && q.last() == ']')
}

/// A query with its type operators taken out: the space-separated tokens
/// that are not operators, joined by single spaces; the query as written
/// when it has no operator.
pub open spec fn operator_query(q: Seq<char>) -> Seq<char> {
    let ts = split_spec(q, ' ');
    if has_operator(ts) {
        joined_with(plain_tokens(ts), " "@)
    } else {
        q
    }
}

/// Whether a query that is no shortcut holds the operator `t` as one of
/// its space-separated tokens.
pub open spec fn names_type(q: Seq<char>, t: Seq<char>) -> bool {
    !is_shortcut(q) && has_token(split_spec(q, ' '), t)
}

/// The query, pattern flag and filter that a query shortcut stands for:
/// `@link`, `@email`, `@color` and `@path` become patterns, `@image`,
/// `@file` and `@html` become filters, `@[expr]` is the pattern `expr`;
/// any other query loses its type operators, which become filters.
pub open spec fn shortcut_query(q: Seq<char>) -> Seq<char> {
    if q == "@link"@ {
        "^https?://[^\\s]+$"@
    } else if q == "@email"@ {
        "^[\\w\\-\\.]+@([\\w-]+\\.)+[\\w-]{2,4}$"@
    } else if q == "@image"@ || q == "@file"@ || q == "@html"@ {
        Seq::empty()
    } else if q == "@color"@ {
        "(#[0-9a-fA-F]{3,6}|rgba?\\([^)]+\\)|hsla?\\([^)]+\\))"@
    } else if q == "@path"@ {
        "(/[^/ ]*)+/?|[a-zA-Z]:\\\\[^\\\\]*"@
    } else if starts_with_seq(q, "@["@) && q.len() >= 3 && q.last() == ']' {
        q.subrange(2, q.len() - 1)
    } else {
        operator_query(q)
    }
}

/// The query without its type operators, and which operators it held:
/// text, image, file, html and other, in that order.
fn take_type_operators(query: &str) -> (r: (String, bool, bool, bool, bool, bool))
    ensures
        r.0@ == operator_query(query@),
        r.1 == has_token(split_spec(query@, ' '), "type:text"@),
        r.2 == has_token(split_spec(query@, ' '), "type:image"@),
        r.3 == has_token(split_spec(query@, ' '), "type:file"@),
        r.4 == has_token(split_spec(query@, ' '), "type:html"@),
        r.5 == has_token(split_spec(query@, ' '), "type:other"@),
{
    let toks = crate::text::split_char(query, ' ');
    let ghost ts = strs(toks@);
    let mut kept: Vec<String> = Vec::new();
    let mut any = false;
    let mut text = false;
    let mut image = false;
    let mut file = false;
    let mut html = false;
    let mut other = false;
    let mut i: usize = 0;
    while i < toks.len()
        invariant
            i <= toks@.len(),
            ts == strs(toks@),
            strs(kept@) == plain_tokens(ts.take(i as int)),
            any == has_operator(ts.take(i as int)),
            text == has_token(ts.take(i as int), "type:text"@),
            image == has_token(ts.take(i as int), "type:image"@),
            file == has_token(ts.take(i as int), "type:file"@),
            html == has_token(ts.take(i as int), "type:html"@),
            other == has_token(ts.take(i as int), "type:other"@),
        decreases toks@.len() - i,
    {
        assert(ts.take(i + 1).drop_last() =~= ts.take(i as int));
        assert(ts.take(i + 1).last() == toks@[i as int]@);
        let t = toks[i].as_str();
        let is_text = str_eq(t, "type:text");
        let is_image = str_eq(t, "type:image");
        let is_file = str_eq(t, "type:file");
        let is_html = str_eq(t, "type:html");
        let is_other = str_eq(t, "type:other");
        text = text || is_text;
        image = image || is_image;
        file = file || is_file;
        html = html || is_html;
        other = other || is_other;
        if is_text || is_image || is_file || is_html || is_other {
            any = true;
        } else {
            let ghost before = strs(kept@);
            kept.push(toks[i].clone());
            assert(strs(kept@) =~= before.push(toks@[i as int]@));
        }
        i = i + 1;
    }
    assert(ts.take(toks.len() as int) =~= ts);
    if any {
        assert(kept@.map_values(|p: String| p@) =~= strs(kept@));
        (crate::text::join_strings(&kept, " "), text, image, file, html, other)
    } else {
        (crate::text::owned(query), text, image, file, html, other)
    }
}

/// The colour forms the `@color` shortcut finds, each as a pattern: a
/// `#` and three to six hex digits, an `rgb(...)` or `rgba(...)` call, an
/// `hsl(...)` or `hsla(...)` call.
pub open spec fn hex_colour_form() -> Seq<char> {
    "#[0-9a-fA-F]{3,6}"@
}

pub open spec fn rgb_colour_form() -> Seq<char> {
    "rgba?\\([^)]+\\)"@
}

pub open spec fn hsl_colour_form() -> Seq<char> {
    "hsla?\\([^)]+\\)"@
}

/// Law: `@color` searches by pattern for any of the three colour forms: its
/// pattern is the group of the hex, `rgb`/`rgba` and `hsl`/`hsla`
/// alternatives, it is a pattern whether or not one was asked for, and it
/// selects no kind of entry.
pub proof fn law_color_shortcut_finds_every_colour_form(force_regex: bool)
    ensures
        shortcut_query("@color"@) == "("@ + hex_colour_form() + "|"@ + rgb_colour_form() + "|"@
            + hsl_colour_form() + ")"@,
        shortcut_is_regex("@color"@, force_regex),
        !names_type("@color"@, "type:text"@) && !names_type("@color"@, "type:image"@)
            && !names_type("@color"@, "type:file"@) && !names_type("@color"@, "type:html"@)
            && !names_type("@color"@, "type:other"@),
{
    reveal_strlit("@link");
    reveal_strlit("@email");
    reveal_strlit("@image");
    reveal_strlit("@file");
    reveal_strlit("@html");
    reveal_strlit("@color");
    reveal_strlit("(#[0-9a-fA-F]{3,6}|rgba?\\([^)]+\\)|hsla?\\([^)]+\\))");
    reveal_strlit("#[0-9a-fA-F]{3,6}");
    reveal_strlit("rgba?\\([^)]+\\)");
    reveal_strlit("hsla?\\([^)]+\\)");
    reveal_strlit("(");
    reveal_strlit("|");
    reveal_strlit(")");
    assert("@color"@ != "@link"@ && "@color"@ != "@email"@) by {
        assert("@color"@[1] != "@link"@[1] && "@color"@[1] != "@email"@[1]);
    }
    assert("@color"@ != "@image"@ && "@color"@ != "@file"@ && "@color"@ != "@html"@) by {
        assert("@color"@[1] != "@image"@[1] && "@color"@[1] != "@file"@[1]
            && "@color"@[1] != "@html"@[1]);
    }
    assert(shortcut_query("@color"@) =~= "("@ + hex_colour_form() + "|"@ + rgb_colour_form()
        + "|"@ + hsl_colour_form() + ")"@);
}

/// Whether the shortcut makes the query a pattern.
pub open spec fn shortcut_is_regex(q: Seq<char>, force: bool) -> bool {
    if q == "@link"@ || q == "@email"@ || q == "@color"@ || q == "@path"@ {
        true
    } else if q == "@image"@ || q == "@file"@ || q == "@html"@ {
        force
    } else if starts_with_seq(q, "@["@) && q.len() >= 3 && q.last() == ']' {
        true
    } else {
        force
    }
}

/// Expands a query shortcut.
pub fn parse_search_query(query: &str, force_regex: bool) -> (r: (String, bool, SelectionFilter))
    ensures
        r.0@ == shortcut_query(query@),
        r.1 == shortcut_is_regex(query@, force_regex),
        r.2.include_image == (query@ == "@image"@ || names_type(query@, "type:image"@)),
        r.2.include_file == (query@ == "@file"@ || query@ == "@path"@ || names_type(
            query@,
            "type:file"@,
        )),
        r.2.include_html == (query@ == "@html"@ || names_type(query@, "type:html"@)),
        r.2.include_text == (query@ == "@path"@ || names_type(query@, "type:text"@)),
        r.2.include_other == names_type(query@, "type:other"@),
        r.2.include_formats@.len() == 0,
{
    proof {
        reveal_strlit("@link");
        reveal_strlit("@email");
        reveal_strlit("@image");
        reveal_strlit("@file");
        reveal_strlit("@html");
        reveal_strlit("@color");
        reveal_strlit("@path");
        reveal_strlit("@[");
        reveal_strlit("]");
        assert("@link"@ != "@image"@ && "@link"@ != "@file"@ && "@link"@ != "@html"@
            && "@link"@ != "@path"@) by {
            assert("@link"@[1] != "@file"@[1] && "@link"@[1] != "@html"@[1]
                && "@link"@[1] != "@path"@[1]);
        };
        assert("@email"@ != "@image"@ && "@email"@ != "@file"@ && "@email"@ != "@html"@
            && "@email"@ != "@path"@) by {
            assert("@email"@[1] != "@image"@[1]);
        };
        assert("@image"@ != "@file"@ && "@image"@ != "@html"@ && "@image"@ != "@path"@
            && "@image"@ != "@color"@) by {
            assert("@image"@[1] != "@color"@[1]);
        };
        assert("@file"@ != "@html"@ && "@file"@ != "@path"@ && "@file"@ != "@color"@) by {
            assert("@file"@[1] != "@html"@[1] && "@file"@[1] != "@path"@[1]);
        };
        assert("@html"@ != "@path"@ && "@html"@ != "@color"@) by {
            assert("@html"@[1] != "@path"@[1]);
        };
        assert("@path"@ != "@color"@) by {
            assert("@path"@.len() != "@color"@.len());
        };
    }
    let mut filter = SelectionFilter::default();
    if str_eq(query, "@link") {
        return (String::from_str("^https?://[^\\s]+$"), true, filter);
    }
    if str_eq(query, "@email") {
        return (String::from_str("^[\\w\\-\\.]+@([\\w-]+\\.)+[\\w-]{2,4}$"), true, filter);
    }
    if str_eq(query, "@image") {
        filter.include_image = true;
        return (String::new(), force_regex, filter);
    }
    if str_eq(query, "@file") {
        filter.include_file = true;
        return (String::new(), force_regex, filter);
    }
    if str_eq(query, "@html") {
        filter.include_html = true;
        return (String::new(), force_regex, filter);
    }
    if str_eq(query, "@color") {
        return (
            String::from_str("(#[0-9a-fA-F]{3,6}|rgba?\\([^)]+\\)|hsla?\\([^)]+\\))"),
            true,
            filter,
        );
    }
    if str_eq(query, "@path") {
        filter.include_file = true;
        filter.include_text = true;
        return (String::from_str("(/[^/ ]*)+/?|[a-zA-Z]:\\\\[^\\\\]*"), true, filter);
    }
    let starts = str_starts_with(query, "@[");
    let ends = str_ends_with(query, "]");
    proof {
        if query@.len() >= 1 {
            assert(query@.skip(query@.len() - 1)[0] == query@.last());
            if query@.last() == ']' {
                assert(query@.skip(query@.len() - 1) =~= "]"@);
            }
        }
        if starts {
            assert(query@[0] == query@.take(2)[0] && query@[1] == query@.take(2)[1]);
        }
    }
    if starts && ends {
        let cs = crate::text::chars_of(query);
        let inner = crate::text::string_from_chars(&cs[2..cs.len() - 1]);
        return (inner, true, filter);
    }
    let (rest, text, image, file, html, other) = take_type_operators(query);
    filter.include_text = text;
    filter.include_image = image;
    filter.include_file = file;
    filter.include_html = html;
    filter.include_other = other;
    (rest, force_regex, filter)
}

} // verus!
