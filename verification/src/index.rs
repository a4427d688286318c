//! The search index: one record per entry hash, kept in the order in which
//! entries were first added, and the journal replay that rebuilds it.

use vstd::prelude::*;
use crate::model::{JournalEntry, JournalView, RecordView, SearchIndexRecord, add_line};
use crate::layout::relative_path_spec;
use crate::sort::{is_ordered, is_perm, order_by_key_desc, ordering};
use crate::text::str_eq;

verus! {

/// The views of a sequence of records.
pub open spec fn views(s: Seq<SearchIndexRecord>) -> Seq<RecordView> {
    Seq::new(s.len(), |i: int| s[i]@)
}

/// No two records share a hash.
pub open spec fn distinct_hashes(s: Seq<RecordView>) -> bool {
    forall|i: int, j: int| 0 <= i < j < s.len() ==> s[i].hash != s[j].hash
}

/// The position of the first record with hash `k`, or `-1`.
pub open spec fn pos(s: Seq<RecordView>, k: Seq<char>) -> int
    decreases s.len(),
{
    if s.len() == 0 {
        -1
    } else if s[0].hash == k {
        0
    } else {
        let p = pos(s.drop_first(), k);
        if p < 0 {
            -1
        } else {
            p + 1
        }
    }
}

/// The record with hash `k`, if any.
pub open spec fn find(s: Seq<RecordView>, k: Seq<char>) -> Option<RecordView> {
    if pos(s, k) >= 0 {
        Some(s[pos(s, k)])
    } else {
        None
    }
}

/// The index as a map from hash to record.
pub open spec fn as_map(s: Seq<RecordView>) -> Map<Seq<char>, RecordView> {
    Map::new(|k: Seq<char>| pos(s, k) >= 0, |k: Seq<char>| s[pos(s, k)])
}

/// `s` after inserting `r`: it replaces the record with the same hash in
/// place, or is added at the end.
pub open spec fn insert_spec(s: Seq<RecordView>, r: RecordView) -> Seq<RecordView> {
    if pos(s, r.hash) >= 0 {
        s.update(pos(s, r.hash), r)
    } else {
        s.push(r)
    }
}

/// `s` without the record with hash `k`.
pub open spec fn remove_spec(s: Seq<RecordView>, k: Seq<char>) -> Seq<RecordView> {
    if pos(s, k) >= 0 {
        s.remove(pos(s, k))
    } else {
        s
    }
}

/// `s` after replaying one journal line.
pub open spec fn apply_line(s: Seq<RecordView>, line: JournalView) -> Seq<RecordView> {
    match line.record() {
        Some(r) => insert_spec(s, r),
        None => remove_spec(s, line.hash()),
    }
}

/// `s` after replaying the journal lines in order.
pub open spec fn replay_spec(s: Seq<RecordView>, lines: Seq<JournalView>) -> Seq<RecordView>
    decreases lines.len(),
{
    if lines.len() == 0 {
        s
    } else {
        apply_line(replay_spec(s, lines.drop_last()), lines.last())
    }
}

/// The views of journal lines.
pub open spec fn line_views(lines: Seq<JournalEntry>) -> Seq<JournalView> {
    Seq::new(lines.len(), |i: int| lines[i]@)
}

/// Facts about `pos`: it finds the first record with the hash.
pub proof fn lemma_pos(s: Seq<RecordView>, k: Seq<char>)
    ensures
        -1 <= pos(s, k) < s.len(),
        pos(s, k) >= 0 ==> s[pos(s, k)].hash == k,
        forall|j: int| 0 <= j < s.len() && (pos(s, k) < 0 || j < pos(s, k)) ==> s[j].hash != k,
    decreases s.len(),
{
    if s.len() > 0 && s[0].hash != k {
        lemma_pos(s.drop_first(), k);
        assert forall|j: int|
            0 <= j < s.len() && (pos(s, k) < 0 || j < pos(s, k)) implies s[j].hash != k by {
            if j > 0 {
                assert(s[j] == s.drop_first()[j - 1]);
            }
        }
    }
}

/// In an index without repeated hashes, the record with hash `k` is the
/// one at any position holding `k`.
pub proof fn lemma_pos_unique(s: Seq<RecordView>, k: Seq<char>, i: int)
    requires
        distinct_hashes(s),
        0 <= i < s.len(),
        s[i].hash == k,
    ensures
        pos(s, k) == i,
{
    lemma_pos(s, k);
}

proof fn lemma_insert_distinct(s: Seq<RecordView>, r: RecordView)
    requires
        distinct_hashes(s),
    ensures
        distinct_hashes(insert_spec(s, r)),
{
    lemma_pos(s, r.hash);
    let t = insert_spec(s, r);
    assert forall|i: int, j: int| 0 <= i < j < t.len() implies t[i].hash != t[j].hash by {
        if pos(s, r.hash) < 0 && j == s.len() {
            assert(t[i] == s[i]);
        }
    }
}

proof fn lemma_remove_distinct(s: Seq<RecordView>, k: Seq<char>)
    requires
        distinct_hashes(s),
    ensures
        distinct_hashes(remove_spec(s, k)),
{
    lemma_pos(s, k);
    let p = pos(s, k);
    let t = remove_spec(s, k);
    if p >= 0 {
        assert forall|i: int, j: int| 0 <= i < j < t.len() implies t[i].hash != t[j].hash by {
            let a = if i < p { i } else { i + 1 };
            let b = if j < p { j } else { j + 1 };
            assert(t[i] == s[a] && t[j] == s[b]);
        }
    }
}

/// Inserting a record into the index acts on its map view as a map insert.
pub proof fn lemma_insert_map(s: Seq<RecordView>, r: RecordView)
    requires
        distinct_hashes(s),
    ensures
        distinct_hashes(insert_spec(s, r)),
        as_map(insert_spec(s, r)) == as_map(s).insert(r.hash, r),
{
    lemma_insert_distinct(s, r);
    lemma_pos(s, r.hash);
    let t = insert_spec(s, r);
    let p = pos(s, r.hash);
    assert forall|k: Seq<char>| #![trigger as_map(t).dom().contains(k)]
        as_map(t).dom().contains(k) == as_map(s).insert(r.hash, r).dom().contains(k) by {
        lemma_pos(s, k);
        lemma_pos(t, k);
        if pos(s, k) >= 0 {
            lemma_pos_unique(t, k, pos(s, k));
        }
        if k == r.hash {
            let q = if p >= 0 { p } else { s.len() as int };
            lemma_pos_unique(t, k, q);
        }
        if pos(t, k) >= 0 && k != r.hash {
            let q = pos(t, k);
            if p < 0 && q == s.len() {
            } else {
                assert(t[q] == s[q]);
            }
        }
    }
    assert forall|k: Seq<char>| as_map(t).dom().contains(k) implies #[trigger] as_map(t)[k]
        == as_map(s).insert(r.hash, r)[k] by {
        lemma_pos(s, k);
        lemma_pos(t, k);
        if k == r.hash {
            let q = if p >= 0 { p } else { s.len() as int };
            lemma_pos_unique(t, k, q);
        } else {
            let q = pos(t, k);
            if p < 0 && q == s.len() {
            } else {
                assert(t[q] == s[q]);
                lemma_pos_unique(s, k, q);
            }
        }
    }
    assert(as_map(t) =~= as_map(s).insert(r.hash, r));
}

/// Removing a hash from the index acts on its map view as a map removal.
pub proof fn lemma_remove_map(s: Seq<RecordView>, k0: Seq<char>)
    requires
        distinct_hashes(s),
    ensures
        distinct_hashes(remove_spec(s, k0)),
        as_map(remove_spec(s, k0)) == as_map(s).remove(k0),
{
    lemma_remove_distinct(s, k0);
    lemma_pos(s, k0);
    let t = remove_spec(s, k0);
    let p = pos(s, k0);
    if p >= 0 {
        assert forall|k: Seq<char>| #![trigger as_map(t).dom().contains(k)]
            as_map(t).dom().contains(k) == as_map(s).remove(k0).dom().contains(k) by {
            lemma_pos(s, k);
            lemma_pos(t, k);
            if pos(t, k) >= 0 {
                let q = pos(t, k);
                let a = if q < p { q } else { q + 1 };
                assert(t[q] == s[a]);
            }
            if pos(s, k) >= 0 && k != k0 {
                let a = pos(s, k);
                let q = if a < p { a } else { a - 1 };
                assert(t[q] == s[a]);
            }
        }
        assert forall|k: Seq<char>| as_map(t).dom().contains(k) implies #[trigger] as_map(t)[k]
            == as_map(s).remove(k0)[k] by {
            lemma_pos(s, k);
            lemma_pos(t, k);
            let q = pos(t, k);
            let a = if q < p { q } else { q + 1 };
            assert(t[q] == s[a]);
            lemma_pos_unique(s, k, a);
        }
    }
    assert(as_map(t) =~= as_map(s).remove(k0));
}

/// One record per hash, in first-insertion order.
pub struct SearchIndex {
    records: Vec<SearchIndexRecord>,
}

impl View for SearchIndex {
    type V = Seq<RecordView>;

    closed spec fn view(&self) -> Seq<RecordView> {
        views(self.records@)
    }
}

impl SearchIndex {
    #[verifier::type_invariant]
    spec fn well_formed(self) -> bool {
        distinct_hashes(views(self.records@))
    }

    /// An empty index.
    pub fn new() -> (r: SearchIndex)
        ensures
            r@ == Seq::<RecordView>::empty(),
    {
        let r = SearchIndex { records: Vec::new() };
        assert(views(r.records@) =~= Seq::<RecordView>::empty());
        r
    }

    /// The number of entries.
    pub fn len(&self) -> (r: usize)
        ensures
            r == self@.len(),
    {
        self.records.len()
    }

    /// The records, in index order.
    pub fn records(&self) -> (r: &Vec<SearchIndexRecord>)
        ensures
            views(r@) == self@,
            distinct_hashes(self@),
    {
        proof {
            use_type_invariant(self);
        }
        &self.records
    }

    /// The position of the record with this hash.
    pub fn position(&self, hash: &str) -> (r: Option<usize>)
        ensures
            r matches Some(p) ==> p == pos(self@, hash@) && p < self@.len(),
            r is None ==> pos(self@, hash@) < 0,
    {
        let mut i: usize = 0;
        proof {
            lemma_pos(self@, hash@);
        }
        while i < self.records.len()
            invariant
                i <= self.records.len(),
                self@ == views(self.records@),
                forall|j: int| 0 <= j < i ==> self@[j].hash != hash@,
                -1 <= pos(self@, hash@) < self@.len(),
                pos(self@, hash@) >= 0 ==> self@[pos(self@, hash@)].hash == hash@,
                forall|j: int|
                    0 <= j < self@.len() && (pos(self@, hash@) < 0 || j < pos(self@, hash@))
                        ==> self@[j].hash != hash@,
            decreases self.records.len() - i,
        {
            if str_eq(self.records[i].hash.as_str(), hash) {
                assert(self@[i as int].hash == hash@);
                return Some(i);
            }
            i = i + 1;
        }
        None
    }

    /// The record with this hash (`HashMap::get`).
    pub fn get(&self, hash: &str) -> (r: Option<&SearchIndexRecord>)
        ensures
            r matches Some(rec) ==> find(self@, hash@) == Some(rec@),
            r is None ==> find(self@, hash@) is None,
    {
        match self.position(hash) {
            Some(p) => Some(&self.records[p]),
            None => None,
        }
    }

    /// Adds `record`, replacing the record with the same hash
    /// (`HashMap::insert` keyed by the record's hash).
    pub fn insert(&mut self, record: SearchIndexRecord)
        ensures
            final(self)@ == insert_spec(old(self)@, record@),
            as_map(final(self)@) == as_map(old(self)@).insert(record@.hash, record@),
    {
        proof {
            use_type_invariant(&*self);
            lemma_insert_map(self@, record@);
        }
        let ghost rv = record@;
        let found = self.position(record.hash.as_str());
        let mut recs: Vec<SearchIndexRecord> = Vec::new();
        std::mem::swap(&mut recs, &mut self.records);
        match found {
            Some(p) => {
                recs.set(p, record);
            },
            None => {
                recs.push(record);
            },
        }
        assert(views(recs@) =~= insert_spec(old(self)@, rv));
        self.records = recs;
    }

    /// Drops the record with this hash, if any (`HashMap::remove`).
    pub fn remove(&mut self, hash: &str)
        ensures
            final(self)@ == remove_spec(old(self)@, hash@),
            as_map(final(self)@) == as_map(old(self)@).remove(hash@),
    {
        proof {
            use_type_invariant(&*self);
            lemma_remove_map(self@, hash@);
        }
        let found = self.position(hash);
        let mut recs: Vec<SearchIndexRecord> = Vec::new();
        std::mem::swap(&mut recs, &mut self.records);
        match found {
            Some(p) => {
                recs.remove(p);
            },
            None => {},
        }
        assert(views(recs@) =~= remove_spec(old(self)@, hash@));
        self.records = recs;
    }

    /// An index holding `records`; a later record replaces an earlier one
    /// with the same hash.
    pub fn from_records(records: Vec<SearchIndexRecord>) -> (r: SearchIndex)
        ensures
            r@ == insert_all(Seq::empty(), views(records@)),
    {
        let mut index = SearchIndex::new();
        let mut i: usize = 0;
        let mut rest = records;
        let ghost all = views(rest@);
        let mut taken: Vec<SearchIndexRecord> = Vec::new();
        while i < rest.len()
            invariant
                i <= rest.len(),
                views(rest@) == all,
                index@ == insert_all(Seq::empty(), all.take(i as int)),
            decreases rest.len() - i,
        {
            let rec = rest[i].duplicate();
            index.insert(rec);
            assert(all.take(i + 1).drop_last() =~= all.take(i as int));
            i = i + 1;
        }
        assert(all.take(rest.len() as int) =~= all);
        index
    }
}

/// `s` after inserting each of `rs` in order.
pub open spec fn insert_all(s: Seq<RecordView>, rs: Seq<RecordView>) -> Seq<RecordView>
    decreases rs.len(),
{
    if rs.len() == 0 {
        s
    } else {
        insert_spec(insert_all(s, rs.drop_last()), rs.last())
    }
}

/// Replays one journal line into the index.
pub fn apply_journal_entry(index: &mut SearchIndex, entry: &JournalEntry)
    requires
        entry@.replayable(),
    ensures
        final(index)@ == apply_line(old(index)@, entry@),
{
    match entry {
        JournalEntry::Add { .. } => {
            match entry.to_record() {
                Some(record) => index.insert(record),
                None => {},
            }
        },
        JournalEntry::Delete { hash } => {
            index.remove(hash.as_str());
        },
    }
}

/// Replays journal lines, in order, into the index.
pub fn replay_journal(index: &mut SearchIndex, entries: &Vec<JournalEntry>)
    requires
        forall|i: int| 0 <= i < entries@.len() ==> (#[trigger] entries@[i])@.replayable(),
    ensures
        final(index)@ == replay_spec(old(index)@, line_views(entries@)),
{
    let ghost start = index@;
    let mut i: usize = 0;
    while i < entries.len()
        invariant
            i <= entries.len(),
            forall|j: int| 0 <= j < entries@.len() ==> (#[trigger] entries@[j])@.replayable(),
            index@ == replay_spec(start, line_views(entries@).take(i as int)),
        decreases entries.len() - i,
    {
        assert(entries@[i as int]@.replayable());
        apply_journal_entry(index, &entries[i]);
        assert(line_views(entries@).take(i + 1).drop_last() =~= line_views(entries@).take(
            i as int,
        ));
        i = i + 1;
    }
    assert(line_views(entries@).take(entries.len() as int) =~= line_views(entries@));
}

/// The last-seen times of `s`, as sort keys.
pub open spec fn date_keys(s: Seq<RecordView>) -> Seq<i128> {
    Seq::new(s.len(), |i: int| s[i].last_seen as i128)
}

/// The positions of `s`, most recently seen first (ties in index order).
pub open spec fn date_order(s: Seq<RecordView>) -> Seq<usize> {
    ordering(date_keys(s), s.len())
}

/// The hashes of `s`, most recently seen first.
pub open spec fn hashes_by_date(s: Seq<RecordView>) -> Seq<Seq<char>> {
    Seq::new(s.len(), |i: int| s[date_order(s)[i] as int].hash)
}

/// The records of `s`, most recently seen first.
pub open spec fn records_by_date(s: Seq<RecordView>) -> Seq<RecordView> {
    Seq::new(s.len(), |i: int| s[date_order(s)[i] as int])
}

/// Law: the hashes most recently seen first list each hash of the index
/// exactly once, in order of non-increasing last-seen time, and in strictly
/// decreasing order when no two records share a time.
pub proof fn law_sorted_hashes_by_date(s: Seq<RecordView>)
    requires
        s.len() <= usize::MAX,
        distinct_hashes(s),
        forall|k: int| 0 <= k < s.len() ==> i64::MIN <= #[trigger] s[k].last_seen <= i64::MAX,
    ensures
        hashes_by_date(s).len() == s.len(),
        forall|k: int|
            0 <= k < s.len() ==> exists|i: int|
                0 <= i < s.len() && #[trigger] hashes_by_date(s)[i] == (#[trigger] s[k]).hash,
        forall|i: int, j: int|
            0 <= i < j < s.len() ==> hashes_by_date(s)[i] != hashes_by_date(s)[j],
        forall|i: int| 0 <= i < s.len() ==> #[trigger] records_by_date(s)[i].hash == hashes_by_date(s)[i],
        forall|i: int, j: int|
            0 <= i < j < s.len() ==> records_by_date(s)[i].last_seen >= records_by_date(s)[j].last_seen,
        (forall|a: int, b: int| 0 <= a < b < s.len() ==> s[a].last_seen != s[b].last_seen) ==> forall|
            i: int,
            j: int,
        | 0 <= i < j < s.len() ==> records_by_date(s)[i].last_seen > records_by_date(s)[j].last_seen,
{
    let keys = date_keys(s);
    let o = date_order(s);
    crate::sort::lemma_ordering(keys, s.len());
    assert forall|k: int| 0 <= k < s.len() implies exists|i: int|
        0 <= i < s.len() && #[trigger] hashes_by_date(s)[i] == (#[trigger] s[k]).hash by {
        crate::sort::lemma_perm_covers(o, s.len(), k);
        let q = choose|q: int| 0 <= q < o.len() && o[q] as int == k;
        assert(hashes_by_date(s)[q] == s[k].hash);
    }
    assert forall|i: int, j: int| 0 <= i < j < s.len() implies hashes_by_date(s)[i]
        != hashes_by_date(s)[j] by {
        let a = o[i] as int;
        let b = o[j] as int;
        assert(a != b);
        if a < b {
            assert(s[a].hash != s[b].hash);
        } else {
            assert(s[b].hash != s[a].hash);
        }
    }
    assert forall|i: int, j: int| 0 <= i < j < s.len() implies records_by_date(s)[i].last_seen
        >= records_by_date(s)[j].last_seen by {
        let a = o[i] as int;
        let b = o[j] as int;
        assert(crate::sort::before(keys, a, b));
        assert(keys[a] == s[a].last_seen as i128);
        assert(keys[b] == s[b].last_seen as i128);
        assert(s[a].last_seen == keys[a]);
        assert(s[b].last_seen == keys[b]);
    }
}

/// The positions of the index's records, most recently seen first.
pub fn positions_by_date(index: &SearchIndex) -> (r: Vec<usize>)
    ensures
        r@ == date_order(index@),
        is_perm(r@, index@.len()),
        is_ordered(r@, date_keys(index@)),
{
    let recs = index.records();
    let mut keys: Vec<i128> = Vec::new();
    let mut i: usize = 0;
    while i < recs.len()
        invariant
            i <= recs.len(),
            views(recs@) == index@,
            keys@ == date_keys(index@).take(i as int),
        decreases recs.len() - i,
    {
        keys.push(recs[i].last_seen as i128);
        i = i + 1;
        assert(keys@ =~= date_keys(index@).take(i as int));
    }
    assert(keys@ =~= date_keys(index@));
    order_by_key_desc(&keys)
}

/// The hashes of the index, most recently seen first.
pub fn compute_sorted_hashes(index: &SearchIndex) -> (r: Vec<String>)
    ensures
        crate::model::strs(r@) == hashes_by_date(index@),
{
    let order = positions_by_date(index);
    let recs = index.records();
    let mut out: Vec<String> = Vec::new();
    let mut i: usize = 0;
    while i < order.len()
        invariant
            i <= order.len(),
            order@ == date_order(index@),
            is_perm(order@, index@.len()),
            views(recs@) == index@,
            out@.len() == i,
            forall|j: int| 0 <= j < i ==> #[trigger] out@[j]@ == hashes_by_date(index@)[j],
        decreases order.len() - i,
    {
        let p = order[i];
        out.push(recs[p].hash.clone());
        i = i + 1;
    }
    assert(crate::model::strs(out@) =~= hashes_by_date(index@));
    out
}

/// The index shared by the operations of one process, with the cached
/// date order of its hashes and the count of journal lines written since
/// the last compaction.
pub struct IndexState {
    index: SearchIndex,
    sorted_hashes: Vec<String>,
    sorted_valid: bool,
    journal_len: u64,
}

/// Journal lines after which the journal is folded into the snapshot.
pub const COMPACT_THRESHOLD: u64 = 500;

impl IndexState {
    #[verifier::type_invariant]
    spec fn cache_coherent(self) -> bool {
        self.sorted_valid ==> crate::model::strs(self.sorted_hashes@) == hashes_by_date(
            self.index@,
        )
    }

    /// The index.
    pub closed spec fn index_view(self) -> Seq<RecordView> {
        self.index@
    }

    /// Journal lines written since the last compaction.
    pub closed spec fn journal_count(self) -> nat {
        self.journal_len as nat
    }

    /// State over a freshly loaded index.
    pub fn new(index: SearchIndex) -> (r: IndexState)
        ensures
            r.index_view() == index@,
            r.journal_count() == 0,
    {
        IndexState { index, sorted_hashes: Vec::new(), sorted_valid: false, journal_len: 0 }
    }

    /// The index.
    pub fn index(&self) -> (r: &SearchIndex)
        ensures
            r@ == self.index_view(),
    {
        &self.index
    }

    /// The hashes, most recently seen first; computed once and reused until
    /// the index changes.
    pub fn sorted_hashes(&mut self) -> (r: Vec<String>)
        ensures
            crate::model::strs(r@) == hashes_by_date(old(self).index_view()),
            final(self).index_view() == old(self).index_view(),
            final(self).journal_count() == old(self).journal_count(),
    {
        proof {
            use_type_invariant(&*self);
        }
        if !self.sorted_valid {
            let fresh = compute_sorted_hashes(&self.index);
            self.sorted_hashes = fresh;
            self.sorted_valid = true;
        }
        crate::model::clone_strings(&self.sorted_hashes)
    }

    /// Replaces the index with a freshly loaded one.
    pub fn replace_index(&mut self, index: SearchIndex)
        ensures
            final(self).index_view() == index@,
            final(self).journal_count() == old(self).journal_count(),
    {
        self.sorted_valid = false;
        self.index = index;
    }

    /// Records a stored entry in the index.
    pub fn insert_record(&mut self, record: SearchIndexRecord)
        ensures
            final(self).index_view() == insert_spec(old(self).index_view(), record@),
            final(self).journal_count() == old(self).journal_count(),
    {
        self.sorted_valid = false;
        let mut idx = SearchIndex::new();
        std::mem::swap(&mut idx, &mut self.index);
        idx.insert(record);
        self.index = idx;
    }

    /// Drops a deleted entry from the index.
    pub fn remove_record(&mut self, hash: &str)
        ensures
            final(self).index_view() == remove_spec(old(self).index_view(), hash@),
            final(self).journal_count() == old(self).journal_count(),
    {
        self.sorted_valid = false;
        let mut idx = SearchIndex::new();
        std::mem::swap(&mut idx, &mut self.index);
        idx.remove(hash);
        self.index = idx;
    }

    /// Counts one more journal line; says whether the journal is now due
    /// for compaction.
    pub fn note_journal_append(&mut self) -> (due: bool)
        ensures
            final(self).index_view() == old(self).index_view(),
            final(self).journal_count() == if old(self).journal_count() < u64::MAX {
                old(self).journal_count() + 1
            } else {
                old(self).journal_count()
            },
            due == (final(self).journal_count() >= COMPACT_THRESHOLD),
    {
        proof {
            use_type_invariant(&*self);
        }
        if self.journal_len < u64::MAX {
            self.journal_len = self.journal_len + 1;
        }
        self.journal_len >= COMPACT_THRESHOLD
    }

    /// Records that the journal was folded into the snapshot.
    pub fn reset_journal(&mut self)
        ensures
            final(self).index_view() == old(self).index_view(),
            final(self).journal_count() == 0,
    {
        proof {
            use_type_invariant(&*self);
        }
        self.journal_len = 0;
    }
}


/// The shared index.
pub fn load_index(state: &IndexState) -> (r: &SearchIndex)
    ensures
        r@ == state.index_view(),
{
    state.index()
}

/// The shared index (loaded when the state was made).
pub fn ensure_index(state: &IndexState) -> (r: &SearchIndex)
    ensures
        r@ == state.index_view(),
{
    load_index(state)
}

/// The index that the stored snapshot and the journal describe: the
/// snapshot's records, then each journal line replayed in order.
pub open spec fn journal_index(snapshot: Seq<RecordView>, lines: Seq<JournalView>) -> Seq<RecordView> {
    replay_spec(insert_all(Seq::empty(), snapshot), lines)
}

/// Builds the index from the snapshot's records and the journal's lines.
pub fn index_from_journal(snapshot: Vec<SearchIndexRecord>, lines: &Vec<JournalEntry>) -> (r: SearchIndex)
    requires
        forall|i: int| 0 <= i < lines@.len() ==> (#[trigger] lines@[i])@.replayable(),
    ensures
        r@ == journal_index(views(snapshot@), line_views(lines@)),
{
    let mut index = SearchIndex::from_records(snapshot);
    replay_journal(&mut index, lines);
    index
}

/// Replaces the shared index with the one rebuilt from the snapshot's
/// records and the journal's lines.
pub fn refresh_index(state: &mut IndexState, snapshot: Vec<SearchIndexRecord>, lines: &Vec<JournalEntry>)
    requires
        forall|i: int| 0 <= i < lines@.len() ==> (#[trigger] lines@[i])@.replayable(),
    ensures
        final(state).index_view() == journal_index(views(snapshot@), line_views(lines@)),
        final(state).journal_count() == old(state).journal_count(),
{
    let fresh = index_from_journal(snapshot, lines);
    state.replace_index(fresh);
}

// ---------------------------------------------------------------------------
// Laws
// ---------------------------------------------------------------------------

/// Replaying the journal line written for a stored record has the same
/// effect on the index as inserting the record, when the record is filed
/// under the directory its hash names.
pub proof fn law_journal_add_replays_insert(s: Seq<RecordView>, r: RecordView)
    requires
        r.relative_path == relative_path_spec(r.hash),
    ensures
        apply_line(s, add_line(r)) == insert_spec(s, r),
{
    assert(add_line(r).record() == Some(r));
}

/// Replaying the journal line written for a deletion has the same effect on
/// the index as removing the hash.
pub proof fn law_journal_delete_replays_remove(s: Seq<RecordView>, k: Seq<char>)
    ensures
        apply_line(s, JournalView::Delete { hash: k }) == remove_spec(s, k),
{
}

/// After a record is inserted, looking up its hash gives it back, and every
/// other hash gives what it gave before.
pub proof fn law_read_after_insert(s: Seq<RecordView>, r: RecordView, k: Seq<char>)
    requires
        distinct_hashes(s),
    ensures
        find(insert_spec(s, r), r.hash) == Some(r),
        k != r.hash ==> find(insert_spec(s, r), k) == find(s, k),
{
    lemma_insert_map(s, r);
    let t = insert_spec(s, r);
    lemma_pos(t, r.hash);
    lemma_pos(t, k);
    lemma_pos(s, k);
    assert(as_map(t).dom().contains(r.hash));
    assert(as_map(t)[r.hash] == r);
    if k != r.hash {
        assert(as_map(t).dom().contains(k) == as_map(s).dom().contains(k));
        if as_map(s).dom().contains(k) {
            assert(as_map(t)[k] == as_map(s)[k]);
        }
    }
}

/// After a hash is removed, looking it up finds nothing, and every other
/// hash gives what it gave before.
pub proof fn law_read_after_remove(s: Seq<RecordView>, k0: Seq<char>, k: Seq<char>)
    requires
        distinct_hashes(s),
    ensures
        find(remove_spec(s, k0), k0) is None,
        k != k0 ==> find(remove_spec(s, k0), k) == find(s, k),
{
    lemma_remove_map(s, k0);
    let t = remove_spec(s, k0);
    lemma_pos(t, k0);
    lemma_pos(t, k);
    lemma_pos(s, k);
    assert(!as_map(t).dom().contains(k0));
    if k != k0 {
        assert(as_map(t).dom().contains(k) == as_map(s).dom().contains(k));
        if as_map(s).dom().contains(k) {
            assert(as_map(t)[k] == as_map(s)[k]);
        }
    }
}

/// Inserting the same record twice leaves the index as one insertion does.
pub proof fn law_insert_idempotent(s: Seq<RecordView>, r: RecordView)
    requires
        distinct_hashes(s),
    ensures
        insert_spec(insert_spec(s, r), r) == insert_spec(s, r),
{
    lemma_insert_distinct(s, r);
    let t = insert_spec(s, r);
    lemma_pos(s, r.hash);
    let q = if pos(s, r.hash) >= 0 { pos(s, r.hash) } else { s.len() as int };
    lemma_pos_unique(t, r.hash, q);
    assert(t.update(q, r) =~= t);
}

} // verus!
