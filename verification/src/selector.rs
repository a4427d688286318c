//! Naming entries: by hash, or by position in the history (most recent
//! first), as the command line and the HTTP interface accept them.

use vstd::prelude::*;
use vstd::utf8::encode_utf8;
use crate::index::{SearchIndex, date_order, find, positions_by_date, views};
use crate::model::RecordView;
use crate::search::{SelectionFilter, filter_matches};
use crate::sort::is_perm;
use crate::text::{chars_of, concat, decimal, str_eq, usize_to_string};

verus! {

// ---------------------------------------------------------------------------
// Decimal numbers (`str::parse::<usize>`)
// ---------------------------------------------------------------------------

/// The length in bytes of the UTF-8 encoding, as `str::len` reports it.
pub open spec fn byte_len(s: Seq<char>) -> nat {
    (encode_utf8(s).len() as usize) as nat
}

/// Every character is an ASCII digit.
pub open spec fn all_digits(d: Seq<char>) -> bool {
    forall|i: int| 0 <= i < d.len() ==> '0' <= #[trigger] d[i] && d[i] <= '9'
}

/// The number written by the digits `d`.
pub open spec fn digits_value(d: Seq<char>) -> nat
    decreases d.len(),
{
    if d.len() == 0 {
        0
    } else {
        digits_value(d.drop_last()) * 10 + ((d.last() as u32) - 48) as nat
    }
}

/// What `str::parse::<usize>` accepts: an optional `+`, then one or more
/// ASCII digits whose value fits in `usize`.
pub open spec fn parse_usize_spec(s: Seq<char>) -> Option<nat> {
    let d = if s.len() > 0 && s[0] == '+' {
        s.drop_first()
    } else {
        s
    };
    if d.len() == 0 || !all_digits(d) || digits_value(d) > usize::MAX {
        None
    } else {
        Some(digits_value(d))
    }
}

/// Parses a decimal `usize` the way `str::parse` does.
pub fn parse_usize(s: &str) -> (r: Option<usize>)
    ensures
        r matches Some(v) ==> parse_usize_spec(s@) == Some(v as nat),
        r is None ==> parse_usize_spec(s@) is None,
{
    let cs = chars_of(s);
    let start: usize = if cs.len() > 0 && cs[0] == '+' {
        1
    } else {
        0
    };
    let ghost d = cs@.skip(start as int);
    assert(d == (if s@.len() > 0 && s@[0] == '+' {
        s@.drop_first()
    } else {
        s@
    })) by {
        if start == 1 {
            assert(cs@.skip(1) =~= cs@.drop_first());
        } else {
            assert(cs@.skip(0) =~= cs@);
        }
    };
    if start == cs.len() {
        assert(d.len() == 0);
        return None;
    }
    let mut acc: usize = 0;
    let mut overflow = false;
    let mut i: usize = start;
    assert(d.take(0) =~= Seq::<char>::empty());
    while i < cs.len()
        invariant
            start <= i <= cs.len(),
            d == cs@.skip(start as int),
            d == (if s@.len() > 0 && s@[0] == '+' {
                s@.drop_first()
            } else {
                s@
            }),
            forall|k: int| 0 <= k < i - start ==> '0' <= #[trigger] d[k] && d[k] <= '9',
            !overflow ==> acc as nat == digits_value(d.take(i - start)),
            overflow ==> digits_value(d.take(i - start)) > usize::MAX,
        decreases cs.len() - i,
    {
        let c = cs[i];
        if c < '0' || c > '9' {
            assert(d[i - start] == c);
            assert(!all_digits(d));
            return None;
        }
        let dig = ((c as u32) - 48) as usize;
        let ghost k = i - start;
        assert(d.take(k + 1).drop_last() =~= d.take(k));
        assert(d.take(k + 1).last() == c);
        if !overflow {
            match acc.checked_mul(10) {
                Some(m) => match m.checked_add(dig) {
                    Some(v) => {
                        acc = v;
                    },
                    None => {
                        overflow = true;
                    },
                },
                None => {
                    overflow = true;
                },
            }
        }
        i = i + 1;
    }
    assert(d.take(d.len() as int) =~= d);
    if overflow {
        None
    } else {
        Some(acc)
    }
}

// ---------------------------------------------------------------------------
// Selectors of the command line
// ---------------------------------------------------------------------------

/// Why a selector named no entry.
pub enum SelectorError {
    /// The hash named an entry that the active filters exclude.
    FilterMismatch,
    /// The selector is neither a known hash nor a position.
    InvalidSelector(String),
    /// No entry at that position.
    NoEntryAt(usize),
}

impl SelectorError {
    /// The message shown for the error.
    pub fn message(&self) -> (r: String)
        ensures
            r@ == match self {
                SelectorError::FilterMismatch => "Selector did not match active filters"@,
                SelectorError::InvalidSelector(s) => "Invalid selector "@ + s@,
                SelectorError::NoEntryAt(n) => "No entry at offset "@ + decimal(*n as nat),
            },
    {
        match self {
            SelectorError::FilterMismatch => crate::text::owned(
                "Selector did not match active filters",
            ),
            SelectorError::InvalidSelector(s) => concat("Invalid selector ", s.as_str()),
            SelectorError::NoEntryAt(n) => {
                let digits = usize_to_string(*n);
                concat("No entry at offset ", digits.as_str())
            },
        }
    }
}

/// The history positions whose records pass the filter, most recent first.
pub open spec fn filtered_by_date(s: Seq<RecordView>, f: SelectionFilter, ps: Seq<usize>) -> Seq<
    usize,
>
    decreases ps.len(),
{
    if ps.len() == 0 {
        Seq::empty()
    } else {
        let rest = filtered_by_date(s, f, ps.drop_last());
        if filter_matches(f, s[date_order(s)[ps.last() as int] as int]) {
            rest.push(ps.last())
        } else {
            rest
        }
    }
}

/// The history positions `0..n`.
pub open spec fn all_positions(n: nat) -> Seq<usize> {
    Seq::new(n, |i: int| i as usize)
}

/// The entries that pass the filter, most recent first, as history
/// positions.
pub open spec fn visible(s: Seq<RecordView>, f: SelectionFilter) -> Seq<usize> {
    filtered_by_date(s, f, all_positions(s.len()))
}

/// What a command-line selector names: a hash of six or more bytes that is
/// in the index (if the filter lets it through), else a position among the
/// entries that the filter lets through.
pub open spec fn resolve_spec(s: Seq<RecordView>, sel: Seq<char>, f: SelectionFilter) -> Result<
    Seq<char>,
    SelectorError,
> {
    if byte_len(sel) >= 6 && find(s, sel) is Some {
        if filter_matches(f, find(s, sel)->0) {
            Ok(sel)
        } else {
            Err(SelectorError::FilterMismatch)
        }
    } else {
        match parse_usize_spec(sel) {
            None => Err(SelectorError::InvalidSelector(arbitrary())),
            Some(n) => if n < visible(s, f).len() {
                Ok(s[date_order(s)[visible(s, f)[n as int] as int] as int].hash)
            } else {
                Err(SelectorError::NoEntryAt(n as usize))
            },
        }
    }
}

/// The history positions, most recent first, of the entries that pass the
/// filter.
pub fn visible_positions(index: &SearchIndex, filter: &SelectionFilter, date: &Vec<usize>) -> (r:
    Vec<usize>)
    requires
        date@ == date_order(index@),
        is_perm(date@, index@.len()),
    ensures
        r@ == visible(index@, *filter),
{
    let recs = index.records();
    let n = recs.len();
    let ghost s = index@;
    let mut out: Vec<usize> = Vec::new();
    let mut j: usize = 0;
    while j < n
        invariant
            j <= n,
            n == s.len(),
            views(recs@) == s,
            date@ == date_order(s),
            is_perm(date@, s.len()),
            out@ == filtered_by_date(s, *filter, all_positions(n as nat).take(j as int)),
        decreases n - j,
    {
        assert(all_positions(n as nat).take(j + 1).drop_last() =~= all_positions(n as nat).take(
            j as int,
        ));
        assert(all_positions(n as nat).take(j + 1).last() == j);
        if filter.matches(&recs[date[j]]) {
            out.push(j);
        }
        j = j + 1;
    }
    assert(all_positions(n as nat).take(n as int) =~= all_positions(n as nat));
    out
}

/// Resolves a command-line selector to a hash.
pub fn resolve_selector(index: &SearchIndex, selector: &str, filter: &SelectionFilter) -> (r:
    Result<String, SelectorError>)
    ensures
        r matches Ok(h) ==> resolve_spec(index@, selector@, *filter) == Ok::<
            Seq<char>,
            SelectorError,
        >(h@),
        r matches Err(SelectorError::FilterMismatch) ==> resolve_spec(
            index@,
            selector@,
            *filter,
        ) == Err::<Seq<char>, SelectorError>(SelectorError::FilterMismatch),
        r matches Err(SelectorError::InvalidSelector(m)) ==> m@ == selector@ && resolve_spec(
            index@,
            selector@,
            *filter,
        ) is Err && resolve_spec(index@, selector@, *filter)->Err_0 is InvalidSelector,
        r matches Err(SelectorError::NoEntryAt(n)) ==> resolve_spec(index@, selector@, *filter)
            == Err::<Seq<char>, SelectorError>(SelectorError::NoEntryAt(n)),
{
    proof {
        crate::index::lemma_pos(index@, selector@);
    }
    if selector.len() >= 6 {
        match index.get(selector) {
            Some(record) => {
                if !filter.matches(record) {
                    return Err(SelectorError::FilterMismatch);
                }
                return Ok(record.hash.clone());
            },
            None => {},
        }
    }
    let offset = match parse_usize(selector) {
        Some(n) => n,
        None => {
            return Err(SelectorError::InvalidSelector(crate::text::owned(selector)));
        },
    };
    let date = positions_by_date(index);
    let visible_list = visible_positions(index, filter, &date);
    let recs = index.records();
    if offset < visible_list.len() {
        let j = visible_list[offset];
        assert((j as int) < index@.len()) by {
            lemma_visible_bounded(index@, *filter, all_positions(index@.len()));
        };
        Ok(recs[date[j]].hash.clone())
    } else {
        Err(SelectorError::NoEntryAt(offset))
    }
}

proof fn lemma_visible_bounded(s: Seq<RecordView>, f: SelectionFilter, ps: Seq<usize>)
    requires
        forall|i: int| 0 <= i < ps.len() ==> (ps[i] as int) < s.len(),
    ensures
        forall|i: int|
            0 <= i < filtered_by_date(s, f, ps).len() ==> (#[trigger] filtered_by_date(s, f, ps)[i]
                as int) < s.len(),
    decreases ps.len(),
{
    if ps.len() > 0 {
        assert forall|i: int| 0 <= i < ps.drop_last().len() implies (ps.drop_last()[i] as int)
            < s.len() by {
            assert(ps.drop_last()[i] == ps[i]);
        }
        lemma_visible_bounded(s, f, ps.drop_last());
        assert((ps.last() as int) < s.len());
        let rest = filtered_by_date(s, f, ps.drop_last());
        let r = filtered_by_date(s, f, ps);
        assert forall|i: int| 0 <= i < r.len() implies (#[trigger] r[i] as int) < s.len() by {
            if i < rest.len() {
                assert(r[i] == rest[i]);
            }
        }
    }
}

// ---------------------------------------------------------------------------
// Selectors of the HTTP interface
// ---------------------------------------------------------------------------

/// An item named in a request path: by hash, or by history position.
pub enum Selector {
    Hash(String),
    Offset(usize),
}

/// How a request path names an item: six bytes or more are a hash; else a
/// number is a position; anything else is a hash.
pub open spec fn selector_spec(input: Seq<char>) -> (bool, Seq<char>, nat) {
    if byte_len(input) >= 6 {
        (true, input, 0)
    } else {
        match parse_usize_spec(input) {
            Some(n) => (false, Seq::empty(), n),
            None => (true, input, 0),
        }
    }
}

impl Selector {
    /// Reads a request path segment.
    pub fn parse(input: &str) -> (r: Selector)
        ensures
            r matches Selector::Hash(h) ==> selector_spec(input@).0 && h@ == input@,
            r matches Selector::Offset(n) ==> !selector_spec(input@).0 && n
                == selector_spec(input@).2,
    {
        if input.len() >= 6 {
            Selector::Hash(crate::text::owned(input))
        } else {
            match parse_usize(input) {
                Some(n) => Selector::Offset(n),
                None => Selector::Hash(crate::text::owned(input)),
            }
        }
    }
}

/// A failed HTTP request.
pub enum ApiError {
    NotFound(String),
    BadRequest(String),
    Internal(String),
}

impl ApiError {
    /// A "not found" answer with this message.
    pub fn not_found(message: String) -> (r: ApiError)
        ensures
            r matches ApiError::NotFound(m) && m@ == message@,
    {
        ApiError::NotFound(message)
    }

    /// A "bad request" answer with this message.
    pub fn bad_request(message: String) -> (r: ApiError)
        ensures
            r matches ApiError::BadRequest(m) && m@ == message@,
    {
        ApiError::BadRequest(message)
    }

    /// The HTTP status code of the answer.
    pub fn status(&self) -> (r: u16)
        ensures
            r == match self {
                ApiError::NotFound(_) => 404u16,
                ApiError::BadRequest(_) => 400u16,
                ApiError::Internal(_) => 500u16,
            },
    {
        match self {
            ApiError::NotFound(_) => 404,
            ApiError::BadRequest(_) => 400,
            ApiError::Internal(_) => 500,
        }
    }
}

/// The history: positions of the index's records, most recent first.
pub fn ordered_index(index: &SearchIndex) -> (r: Vec<usize>)
    ensures
        r@ == date_order(index@),
        is_perm(r@, index@.len()),
{
    positions_by_date(index)
}

/// The history position of the entry with this hash (`offsets.get(hash)`).
pub fn offset_of(index: &SearchIndex, ordered: &Vec<usize>, hash: &str) -> (r: Option<usize>)
    requires
        ordered@ == date_order(index@),
        is_perm(ordered@, index@.len()),
    ensures
        r matches Some(j) ==> j < ordered@.len() && index@[ordered@[j as int] as int].hash
            == hash@,
        r is None ==> forall|j: int|
            0 <= j < ordered@.len() ==> index@[ordered@[j] as int].hash != hash@,
{
    let recs = index.records();
    let mut j: usize = 0;
    while j < ordered.len()
        invariant
            j <= ordered.len(),
            views(recs@) == index@,
            is_perm(ordered@, index@.len()),
            forall|k: int| 0 <= k < j ==> index@[ordered@[k] as int].hash != hash@,
        decreases ordered.len() - j,
    {
        if str_eq(recs[ordered[j]].hash.as_str(), hash) {
            return Some(j);
        }
        j = j + 1;
    }
    None
}

/// Resolves a request path segment against the history: the hash and its
/// history position.
pub fn resolve_request_selector(index: &SearchIndex, ordered: &Vec<usize>, selector: &str) -> (r:
    Result<(String, usize), ApiError>)
    requires
        ordered@ == date_order(index@),
        is_perm(ordered@, index@.len()),
    ensures
        r matches Ok((h, j)) ==> j < ordered@.len() && index@[ordered@[j as int] as int].hash
            == h@,
        r matches Ok((h, j)) ==> (selector_spec(selector@).0 ==> h@ == selector@),
        r matches Ok((h, j)) ==> (!selector_spec(selector@).0 ==> j == selector_spec(selector@).2),
        r is Err ==> if selector_spec(selector@).0 {
            forall|j: int|
                0 <= j < ordered@.len() ==> index@[ordered@[j] as int].hash != selector@
        } else {
            selector_spec(selector@).2 >= ordered@.len()
        },
{
    match Selector::parse(selector) {
        Selector::Hash(hash) => match offset_of(index, ordered, hash.as_str()) {
            Some(j) => Ok((hash, j)),
            None => Err(ApiError::not_found(concat("Unknown item ", hash.as_str()))),
        },
        Selector::Offset(i) => {
            if i < ordered.len() {
                let recs = index.records();
                Ok((recs[ordered[i]].hash.clone(), i))
            } else {
                let digits = usize_to_string(i);
                Err(ApiError::not_found(concat("No item at offset ", digits.as_str())))
            }
        },
    }
}

/// Resolves a request path segment against the entries that pass a filter:
/// the hash, its position among those entries and its history position.
pub fn resolve_request_selector_filtered(
    index: &SearchIndex,
    ordered: &Vec<usize>,
    filter: &SelectionFilter,
    selector: &str,
) -> (r: Result<(String, usize, usize), ApiError>)
    requires
        ordered@ == date_order(index@),
        is_perm(ordered@, index@.len()),
    ensures
        r matches Ok((h, k, j)) ==> k < visible(index@, *filter).len() && j == visible(
            index@,
            *filter,
        )[k as int] && index@[ordered@[j as int] as int].hash == h@,
        r matches Ok((h, k, j)) ==> (selector_spec(selector@).0 ==> h@ == selector@),
        r matches Ok((h, k, j)) ==> (!selector_spec(selector@).0 ==> k == selector_spec(selector@).2),
        r is Err ==> if selector_spec(selector@).0 {
            forall|k: int|
                0 <= k < visible(index@, *filter).len() ==> index@[ordered@[visible(
                    index@,
                    *filter,
                )[k] as int] as int].hash != selector@
        } else {
            selector_spec(selector@).2 >= visible(index@, *filter).len()
        },
{
    let recs = index.records();
    let vis = visible_positions(index, filter, ordered);
    proof {
        lemma_visible_bounded(index@, *filter, all_positions(index@.len()));
    }
    match Selector::parse(selector) {
        Selector::Hash(hash) => {
            let mut k: usize = 0;
            while k < vis.len()
                invariant
                    k <= vis.len(),
                    vis@ == visible(index@, *filter),
                    views(recs@) == index@,
                    is_perm(ordered@, index@.len()),
                    forall|t: int| 0 <= t < vis@.len() ==> (vis@[t] as int) < index@.len(),
                    hash@ == selector@,
                    selector_spec(selector@).0,
                    forall|t: int|
                        0 <= t < k ==> index@[ordered@[vis@[t] as int] as int].hash != hash@,
                decreases vis.len() - k,
            {
                let j = vis[k];
                if str_eq(recs[ordered[j]].hash.as_str(), hash.as_str()) {
                    return Ok((hash, k, j));
                }
                k = k + 1;
            }
            Err(ApiError::not_found(concat("Unknown item ", hash.as_str())))
        },
        Selector::Offset(i) => {
            if i < vis.len() {
                let j = vis[i];
                Ok((recs[ordered[j]].hash.clone(), i, j))
            } else {
                let digits = usize_to_string(i);
                Err(ApiError::not_found(concat("No item at offset ", digits.as_str())))
            }
        },
    }
}

} // verus!
