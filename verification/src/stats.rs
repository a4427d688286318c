//! Statistics of the history: how many entries of each kind, their
//! reported and stored sizes, and the entries that take the most room.
//! Measuring the stored files is left to the caller.

use vstd::prelude::*;
use crate::index::{date_order, SearchIndex};
use crate::model::{opt_str, EntryKind, RecordView, SearchIndexRecord};
use crate::selector::{offset_of, ordered_index};
use crate::sort::{is_perm, order_by_key_desc, ordering};
use crate::text::{concat, decimal, str_eq, usize_to_string};

verus! {

broadcast use vstd::utf8::encode_utf8_decode_utf8;

/// The name of an entry kind in the statistics.
pub open spec fn kind_word(k: EntryKind) -> Seq<char> {
    match k {
        EntryKind::Text => "text"@,
        EntryKind::Image => "image"@,
        EntryKind::File => "file"@,
        EntryKind::Other => "other"@,
    }
}

/// The name of an entry kind in the statistics.
pub fn kind_str(k: EntryKind) -> (r: &'static str)
    ensures
        r@ == kind_word(k),
{
    match k {
        EntryKind::Text => "text",
        EntryKind::Image => "image",
        EntryKind::File => "file",
        EntryKind::Other => "other",
    }
}

/// One of the largest entries.
pub struct LargeItem {
    pub hash: String,
    pub kind: String,
    pub storage_size: u64,
    pub summary: Option<String>,
}

/// The statistics of the history.
pub struct StatsOutput {
    pub total_items: usize,
    pub total_size: u64,
    pub actual_storage_size: u64,
    /// Entries per kind, for the kinds present, in order of first record.
    pub type_counts: Vec<(String, usize)>,
    /// The largest entries with their history positions.
    pub largest_items: Vec<(LargeItem, usize)>,
}

/// The sum of the records' reported sizes.
pub open spec fn sum_sizes(s: Seq<RecordView>) -> int
    decreases s.len(),
{
    if s.len() == 0 {
        0
    } else {
        sum_sizes(s.drop_last()) + s.last().byte_size
    }
}

/// The sum of the measured sizes.
pub open spec fn sum_u64(s: Seq<u64>) -> int
    decreases s.len(),
{
    if s.len() == 0 {
        0
    } else {
        sum_u64(s.drop_last()) + s.last()
    }
}

/// How many records are of the kind named `w`.
pub open spec fn kind_count(s: Seq<RecordView>, w: Seq<char>) -> nat
    decreases s.len(),
{
    if s.len() == 0 {
        0
    } else {
        kind_count(s.drop_last(), w) + if kind_word(s.last().kind) == w {
            1nat
        } else {
            0nat
        }
    }
}

/// The kinds present among the records, in order of first record.
pub open spec fn present_kinds(s: Seq<RecordView>) -> Seq<Seq<char>> {
    crate::lists::firsts(s.map_values(|r: RecordView| kind_word(r.kind)))
}

pub proof fn lemma_sum_sizes_prefix(s: Seq<RecordView>, k: int)
    requires
        0 <= k <= s.len(),
    ensures
        0 <= sum_sizes(s.take(k)) <= sum_sizes(s),
    decreases s.len(),
{
    if s.len() > 0 {
        if k == s.len() {
            assert(s.take(k) =~= s);
            lemma_sum_sizes_prefix(s.drop_last(), k - 1);
        } else {
            assert(s.drop_last().take(k) =~= s.take(k));
            lemma_sum_sizes_prefix(s.drop_last(), k);
        }
    }
}

proof fn lemma_sum_u64_prefix(s: Seq<u64>, k: int)
    requires
        0 <= k <= s.len(),
    ensures
        0 <= sum_u64(s.take(k)) <= sum_u64(s),
    decreases s.len(),
{
    if s.len() > 0 {
        if k == s.len() {
            assert(s.take(k) =~= s);
            lemma_sum_u64_prefix(s.drop_last(), k - 1);
        } else {
            assert(s.drop_last().take(k) =~= s.take(k));
            lemma_sum_u64_prefix(s.drop_last(), k);
        }
    }
}

proof fn lemma_kind_count_bound(s: Seq<RecordView>, w: Seq<char>)
    ensures
        kind_count(s, w) <= s.len(),
    decreases s.len(),
{
    if s.len() > 0 {
        lemma_kind_count_bound(s.drop_last(), w);
    }
}

/// The storage sizes as sort keys.
pub open spec fn storage_keys(st: Seq<u64>) -> Seq<i128> {
    st.map_values(|x: u64| x as i128)
}

/// Counts the records of each kind present.
fn count_kinds(recs: &Vec<SearchIndexRecord>) -> (r: Vec<(String, usize)>)
    ensures
        r@.map_values(|p: (String, usize)| p.0@) == present_kinds(crate::index::views(recs@)),
        forall|j: int|
            0 <= j < r@.len() ==> (#[trigger] r@[j]).1 == kind_count(crate::index::views(recs@), r@[j].0@),
{
    let ghost vs = crate::index::views(recs@);
    let ghost words = vs.map_values(|r: RecordView| kind_word(r.kind));
    let mut out: Vec<(String, usize)> = Vec::new();
    let mut i: usize = 0;
    while i < recs.len()
        invariant
            i <= recs.len(),
            vs == crate::index::views(recs@),
            words == vs.map_values(|r: RecordView| kind_word(r.kind)),
            out@.map_values(|p: (String, usize)| p.0@) == crate::lists::firsts(words.take(i as int)),
            forall|j: int|
                0 <= j < out@.len() ==> (#[trigger] out@[j]).1 == kind_count(vs.take(i as int), out@[j].0@),
        decreases recs.len() - i,
    {
        let w = kind_str(recs[i].kind);
        assert(words.take(i + 1).drop_last() =~= words.take(i as int));
        assert(words.take(i + 1).last() == w@);
        assert(vs.take(i + 1).drop_last() =~= vs.take(i as int));
        assert(vs.take(i + 1).last() == recs@[i as int]@);
        proof {
            lemma_kind_count_bound(vs.take(i as int), w@);
        }
        let ghost keys = out@.map_values(|p: (String, usize)| p.0@);
        let mut k: usize = 0;
        while k < out.len() && !str_eq(out[k].0.as_str(), w)
            invariant
                k <= out.len(),
                keys == out@.map_values(|p: (String, usize)| p.0@),
                forall|m: int| 0 <= m < k ==> out@[m].0@ != w@,
            decreases out.len() - k,
        {
            k = k + 1;
        }
        proof {
            crate::lists::lemma_firsts_distinct(words.take(i as int));
        }
        if k < out.len() {
            let ghost before = out@;
            let name = out[k].0.clone();
            let c = out[k].1;
            assert(c == kind_count(vs.take(i as int), w@));
            assert(c < recs.len());
            out.set(k, (name, c + 1));
            assert(out@.map_values(|p: (String, usize)| p.0@) =~= keys);
            assert(keys.contains(w@)) by {
                assert(keys[k as int] == w@);
            }
            assert forall|j: int| 0 <= j < out@.len() implies (#[trigger] out@[j]).1 == kind_count(
                vs.take(i + 1),
                out@[j].0@,
            ) by {
                if j != k {
                    assert(keys[j] == before[j].0@);
                    assert(keys[k as int] == w@);
                    assert(keys[j] != keys[k as int]);
                }
            }
        } else {
            assert(!keys.contains(w@)) by {
                if keys.contains(w@) {
                    let m = choose|m: int| 0 <= m < keys.len() && keys[m] == w@;
                    assert(out@[m].0@ == w@);
                }
            }
            proof {
                assert(words.take(i as int) =~= vs.take(i as int).map_values(
                    |r: RecordView| kind_word(r.kind),
                ));
                assert(kind_count(vs.take(i as int), w@) == 0) by {
                    lemma_kind_absent(vs.take(i as int), w@, words.take(i as int));
                }
            }
            let ghost before = out@;
            out.push((w.to_string(), 1));
            assert(out@.map_values(|p: (String, usize)| p.0@) =~= keys.push(w@));
            assert forall|j: int| 0 <= j < out@.len() implies (#[trigger] out@[j]).1 == kind_count(
                vs.take(i + 1),
                out@[j].0@,
            ) by {
                if j < before.len() {
                    assert(keys[j] == before[j].0@);
                    assert(keys[j] != w@);
                }
            }
        }
        i = i + 1;
    }
    assert(words.take(recs.len() as int) =~= words);
    assert(vs.take(recs.len() as int) =~= vs);
    out
}

proof fn lemma_kind_absent(s: Seq<RecordView>, w: Seq<char>, words: Seq<Seq<char>>)
    requires
        words == s.map_values(|r: RecordView| kind_word(r.kind)),
        !crate::lists::firsts(words).contains(w),
    ensures
        kind_count(s, w) == 0,
    decreases s.len(),
{
    if s.len() > 0 {
        let t = crate::lists::firsts(words.drop_last());
        assert(words.drop_last() =~= s.drop_last().map_values(|r: RecordView| kind_word(r.kind)));
        if t.contains(w) {
        } else {
            if t.contains(words.last()) {
            } else {
                assert(crate::lists::firsts(words) == t.push(words.last()));
                assert(crate::lists::firsts(words)[t.len() as int] == words.last());
            }
        }
        assert(!t.contains(w)) by {
            if t.contains(w) {
                let m = choose|m: int| 0 <= m < t.len() && t[m] == w;
                if t.contains(words.last()) {
                    assert(crate::lists::firsts(words) == t);
                } else {
                    assert(crate::lists::firsts(words) == t.push(words.last()));
                    assert(crate::lists::firsts(words)[m] == w);
                }
            }
        }
        lemma_kind_absent(s.drop_last(), w, words.drop_last());
        assert(words.last() == kind_word(s.last().kind));
        if kind_word(s.last().kind) == w {
            if t.contains(words.last()) {
            } else {
                assert(crate::lists::firsts(words) == t.push(words.last()));
                assert(crate::lists::firsts(words)[t.len() as int] == w);
            }
        }
    }
}

/// The statistics of the history, given the measured storage of each
/// record's directory (in index order).  The largest entries are the
/// twenty with the most storage, largest first, ties in index order.
pub fn compute_stats(index: &SearchIndex, storage: &Vec<u64>) -> (r: StatsOutput)
    requires
        storage@.len() == index@.len(),
        sum_sizes(index@) <= u64::MAX,
        sum_u64(storage@) <= u64::MAX,
    ensures
        r.total_items == index@.len(),
        r.total_size == sum_sizes(index@),
        r.actual_storage_size == sum_u64(storage@),
        r.type_counts@.map_values(|p: (String, usize)| p.0@) == present_kinds(index@),
        forall|j: int|
            0 <= j < r.type_counts@.len() ==> (#[trigger] r.type_counts@[j]).1 == kind_count(
                index@,
                r.type_counts@[j].0@,
            ),
        r.largest_items@.len() == (if index@.len() < 20 { index@.len() as int } else { 20 }),
        forall|j: int|
            0 <= j < r.largest_items@.len() ==> {
                let p = ordering(storage_keys(storage@), index@.len())[j] as int;
                let item = #[trigger] r.largest_items@[j];
                &&& 0 <= p < index@.len()
                &&& item.0.hash@ == index@[p].hash
                &&& item.0.kind@ == kind_word(index@[p].kind)
                &&& item.0.storage_size == storage@[p]
                &&& opt_str(item.0.summary) == index@[p].summary
                &&& item.1 < index@.len()
                &&& index@[date_order(index@)[item.1 as int] as int].hash == index@[p].hash
            },
{
    let recs = index.records();
    let ghost vs = index@;
    assert(crate::index::views(recs@) == vs);
    let mut total_size: u64 = 0;
    let mut actual: u64 = 0;
    let mut i: usize = 0;
    while i < recs.len()
        invariant
            i <= recs.len(),
            crate::index::views(recs@) == vs,
            storage@.len() == vs.len(),
            total_size == sum_sizes(vs.take(i as int)),
            actual == sum_u64(storage@.take(i as int)),
            sum_sizes(vs) <= u64::MAX,
            sum_u64(storage@) <= u64::MAX,
        decreases recs.len() - i,
    {
        assert(vs.take(i + 1).drop_last() =~= vs.take(i as int));
        assert(storage@.take(i + 1).drop_last() =~= storage@.take(i as int));
        assert(vs.take(i + 1).last() == recs@[i as int]@);
        proof {
            lemma_sum_sizes_prefix(vs, i + 1);
            lemma_sum_u64_prefix(storage@, i + 1);
        }
        total_size = total_size + recs[i].byte_size;
        actual = actual + storage[i];
        i = i + 1;
    }
    assert(vs.take(recs.len() as int) =~= vs);
    assert(storage@.take(recs.len() as int) =~= storage@);
    let type_counts = count_kinds(recs);
    let mut keys: Vec<i128> = Vec::new();
    let mut k: usize = 0;
    while k < storage.len()
        invariant
            k <= storage.len(),
            keys@ == storage_keys(storage@).take(k as int),
        decreases storage.len() - k,
    {
        keys.push(storage[k] as i128);
        k = k + 1;
        assert(keys@ =~= storage_keys(storage@).take(k as int));
    }
    assert(keys@ =~= storage_keys(storage@));
    let by_size = order_by_key_desc(&keys);
    let ordered = ordered_index(index);
    let n: usize = if by_size.len() < 20 { by_size.len() } else { 20 };
    let mut largest: Vec<(LargeItem, usize)> = Vec::new();
    let mut j: usize = 0;
    while j < n
        invariant
            j <= n,
            n <= by_size@.len(),
            n == (if vs.len() < 20 { vs.len() as int } else { 20 }),
            by_size@ == ordering(storage_keys(storage@), vs.len()),
            is_perm(by_size@, vs.len()),
            ordered@ == date_order(vs),
            is_perm(ordered@, vs.len()),
            crate::index::views(recs@) == vs,
            vs == index@,
            storage@.len() == vs.len(),
            largest@.len() == j,
            forall|m: int|
                0 <= m < j ==> {
                    let p = by_size@[m] as int;
                    let item = #[trigger] largest@[m];
                    &&& 0 <= p < vs.len()
                    &&& item.0.hash@ == vs[p].hash
                    &&& item.0.kind@ == kind_word(vs[p].kind)
                    &&& item.0.storage_size == storage@[p]
                    &&& opt_str(item.0.summary) == vs[p].summary
                    &&& item.1 < vs.len()
                    &&& vs[date_order(vs)[item.1 as int] as int].hash == vs[p].hash
                },
        decreases n - j,
    {
        let p = by_size[j];
        let rec = &recs[p];
        assert(recs@[p as int]@ == vs[p as int]);
        let offset = match offset_of(index, &ordered, rec.hash.as_str()) {
            Some(o) => o,
            None => {
                proof {
                    crate::sort::lemma_perm_covers(ordered@, vs.len(), p as int);
                    let q = choose|q: int| 0 <= q < ordered@.len() && ordered@[q] as int == p as int;
                    assert(vs[ordered@[q] as int].hash == rec@.hash);
                }
                0
            },
        };
        largest.push(
            (
                LargeItem {
                    hash: rec.hash.clone(),
                    kind: kind_str(rec.kind).to_string(),
                    storage_size: storage[p],
                    summary: crate::model::clone_opt(&rec.summary),
                },
                offset,
            ),
        );
        j = j + 1;
    }
    StatsOutput {
        total_items: recs.len(),
        total_size,
        actual_storage_size: actual,
        type_counts,
        largest_items: largest,
    }
}

/// `s` padded with spaces on the right to `w` characters (`{:<w}`).
pub open spec fn padded(s: Seq<char>, w: nat) -> Seq<char> {
    if s.len() >= w {
        s
    } else {
        s + Seq::new((w - s.len()) as nat, |i: int| ' ')
    }
}

/// `s` padded to `w` characters.
pub fn pad_right(s: &str, w: usize) -> (r: String)
    ensures
        r@ == padded(s@, w as nat),
{
    let n = crate::text::chars_of(s).len();
    let mut r = crate::text::owned(s);
    let mut k: usize = n;
    while k < w
        invariant
            n == s@.len(),
            n <= k <= w || (k == n && n >= w),
            r@ == s@ + Seq::new((k - n) as nat, |i: int| ' '),
        decreases w - k,
    {
        crate::text::push_char(&mut r, ' ');
        k = k + 1;
        assert(r@ =~= s@ + Seq::new((k - n) as nat, |i: int| ' '));
    }
    assert(s@ + Seq::new(0, |i: int| ' ') =~= s@);
    r
}

/// A summary as the table shows it: `(no summary)` when there is none,
/// cut to its first 37 bytes and `...` when longer than 40 bytes, line
/// feeds as spaces.
pub open spec fn cell_spec(summary: Option<Seq<char>>) -> Seq<char> {
    match summary {
        Some(s) => crate::text::replace_char(
            if crate::selector::byte_len(s) > 40 {
                crate::layout::byte_range(s, 0, 37) + "..."@
            } else {
                s
            },
            '\n',
            ' ',
        ),
        None => "(no summary)"@,
    }
}

/// The summary can be cut at its 37th byte when it is longer than 40
/// bytes.
pub open spec fn cell_cuttable(summary: Option<Seq<char>>) -> bool {
    match summary {
        Some(s) => crate::selector::byte_len(s) > 40 ==> vstd::utf8::is_char_boundary(
            vstd::utf8::encode_utf8(s),
            37,
        ),
        None => true,
    }
}

/// The summary as the table shows it.
pub fn summary_cell(summary: &Option<String>) -> (r: String)
    requires
        cell_cuttable(opt_str(*summary)),
    ensures
        r@ == cell_spec(opt_str(*summary)),
{
    match summary {
        Some(s) => {
            let st = s.as_str();
            let cut = if st.as_bytes().len() > 40 {
                let ghost bytes = vstd::utf8::encode_utf8(st@);
                let (head, _tail) = st.split_at(37);
                assert(vstd::utf8::encode_utf8(head@) =~= bytes.subrange(0, 37));
                concat(head, "...")
            } else {
                s.clone()
            };
            crate::text::replaced(cut.as_str(), '\n', ' ')
        },
        None => "(no summary)".to_string(),
    }
}

/// The column header of the largest-items table.
pub open spec fn table_header_spec() -> Seq<char> {
    padded("Index"@, 8) + " "@ + padded("Type"@, 10) + " "@ + padded("Size"@, 12) + " Summary"@
}

/// The rule under the table's header: 70 dashes.
pub open spec fn table_rule_spec() -> Seq<char> {
    Seq::new(70, |i: int| '-')
}

/// The table line of one large item: its position, kind, storage size and
/// summary cell, in columns 8, 10 and 12 characters wide.
pub open spec fn item_line_spec(entry: (LargeItem, usize)) -> Seq<char> {
    padded(decimal(entry.1 as nat), 8) + " "@ + padded(entry.0.kind@, 10) + " "@ + padded(
        crate::numfmt::human_size_spec(entry.0.storage_size as nat),
        12,
    ) + " "@ + cell_spec(opt_str(entry.0.summary))
}

/// The statistics as text lines.
pub fn stats_lines(stats: &StatsOutput) -> (r: Vec<String>)
    requires
        forall|j: int|
            0 <= j < stats.largest_items@.len() ==> cell_cuttable(
                opt_str(#[trigger] stats.largest_items@[j].0.summary),
            ),
    ensures
        r@.len() == 11 + stats.type_counts@.len() + stats.largest_items@.len(),
        r@[0]@ == "Clipboard Statistics"@,
        r@[1]@ == "===================="@,
        r@[2]@ == "Total items:    "@ + decimal(stats.total_items as nat),
        r@[3]@ == "Reported size:  "@ + crate::numfmt::human_size_spec(stats.total_size as nat),
        r@[4]@ == "Storage size:   "@ + crate::numfmt::human_size_spec(stats.actual_storage_size as nat),
        r@[5]@.len() == 0,
        r@[6]@ == "By type:"@,
        forall|j: int|
            0 <= j < stats.type_counts@.len() ==> (#[trigger] r@[7 + j])@ == "  "@ + padded(
                stats.type_counts@[j].0@,
                10,
            ) + " "@ + decimal(stats.type_counts@[j].1 as nat),
        r@[7 + stats.type_counts@.len() as int]@.len() == 0,
        r@[8 + stats.type_counts@.len() as int]@ == "Top 20 Largest Items (by storage):"@,
        r@[9 + stats.type_counts@.len() as int]@ == table_header_spec(),
        r@[10 + stats.type_counts@.len() as int]@ == table_rule_spec(),
        forall|j: int|
            0 <= j < stats.largest_items@.len() ==> r@[11 + stats.type_counts@.len() as int + j]@
                == item_line_spec(#[trigger] stats.largest_items@[j]),
{
    let mut r: Vec<String> = Vec::new();
    r.push("Clipboard Statistics".to_string());
    r.push("====================".to_string());
    r.push(concat("Total items:    ", usize_to_string(stats.total_items).as_str()));
    r.push(concat("Reported size:  ", crate::numfmt::human_size(stats.total_size).as_str()));
    r.push(concat("Storage size:   ", crate::numfmt::human_size(stats.actual_storage_size).as_str()));
    r.push(String::new());
    r.push("By type:".to_string());
    let mut i: usize = 0;
    while i < stats.type_counts.len()
        invariant
            i <= stats.type_counts.len(),
            r@.len() == 7 + i,
            r@[0]@ == "Clipboard Statistics"@,
            r@[1]@ == "===================="@,
            r@[2]@ == "Total items:    "@ + decimal(stats.total_items as nat),
            r@[3]@ == "Reported size:  "@ + crate::numfmt::human_size_spec(stats.total_size as nat),
            r@[4]@ == "Storage size:   "@ + crate::numfmt::human_size_spec(stats.actual_storage_size as nat),
            r@[5]@.len() == 0,
            r@[6]@ == "By type:"@,
            forall|j: int|
                0 <= j < i ==> (#[trigger] r@[7 + j])@ == "  "@ + padded(stats.type_counts@[j].0@, 10)
                    + " "@ + decimal(stats.type_counts@[j].1 as nat),
        decreases stats.type_counts.len() - i,
    {
        let mut line = concat("  ", pad_right(stats.type_counts[i].0.as_str(), 10).as_str());
        line.append(" ");
        line.append(usize_to_string(stats.type_counts[i].1).as_str());
        r.push(line);
        i = i + 1;
    }
    r.push(String::new());
    r.push("Top 20 Largest Items (by storage):".to_string());
    let mut header = pad_right("Index", 8);
    header.append(" ");
    header.append(pad_right("Type", 10).as_str());
    header.append(" ");
    header.append(pad_right("Size", 12).as_str());
    header.append(" Summary");
    r.push(header);
    let mut rule = String::new();
    let mut k: usize = 0;
    while k < 70
        invariant
            k <= 70,
            rule@ == Seq::new(k as nat, |i: int| '-'),
        decreases 70 - k,
    {
        crate::text::push_char(&mut rule, '-');
        k = k + 1;
        assert(rule@ =~= Seq::new(k as nat, |i: int| '-'));
    }
    assert(rule@ =~= table_rule_spec());
    r.push(rule);
    let mut j: usize = 0;
    while j < stats.largest_items.len()
        invariant
            j <= stats.largest_items.len(),
            r@.len() == 11 + stats.type_counts@.len() + j,
            r@[0]@ == "Clipboard Statistics"@,
            r@[1]@ == "===================="@,
            r@[2]@ == "Total items:    "@ + decimal(stats.total_items as nat),
            r@[3]@ == "Reported size:  "@ + crate::numfmt::human_size_spec(stats.total_size as nat),
            r@[4]@ == "Storage size:   "@ + crate::numfmt::human_size_spec(stats.actual_storage_size as nat),
            r@[5]@.len() == 0,
            r@[6]@ == "By type:"@,
            forall|m: int|
                0 <= m < stats.type_counts@.len() ==> (#[trigger] r@[7 + m])@ == "  "@ + padded(
                    stats.type_counts@[m].0@,
                    10,
                ) + " "@ + decimal(stats.type_counts@[m].1 as nat),
            forall|m: int|
                0 <= m < stats.largest_items@.len() ==> cell_cuttable(
                    opt_str(#[trigger] stats.largest_items@[m].0.summary),
                ),
            r@[7 + stats.type_counts@.len() as int]@.len() == 0,
            r@[8 + stats.type_counts@.len() as int]@ == "Top 20 Largest Items (by storage):"@,
            r@[9 + stats.type_counts@.len() as int]@ == table_header_spec(),
            r@[10 + stats.type_counts@.len() as int]@ == table_rule_spec(),
            forall|m: int|
                0 <= m < j ==> r@[11 + stats.type_counts@.len() as int + m]@ == item_line_spec(
                    #[trigger] stats.largest_items@[m],
                ),
        decreases stats.largest_items.len() - j,
    {
        let (item, offset) = &stats.largest_items[j];
        let mut line = pad_right(usize_to_string(*offset).as_str(), 8);
        line.append(" ");
        line.append(pad_right(item.kind.as_str(), 10).as_str());
        line.append(" ");
        line.append(pad_right(crate::numfmt::human_size(item.storage_size).as_str(), 12).as_str());
        line.append(" ");
        line.append(summary_cell(&item.summary).as_str());
        assert(line@ =~= item_line_spec(stats.largest_items@[j as int]));
        r.push(line);
        j = j + 1;
    }
    r
}

} // verus!
