//! The records of the clipboard history: what the index keeps of each entry,
//! the journal that records index changes, and an entry's full metadata.
//! Times are Unix timestamps in seconds, the form in which they are stored.

use vstd::prelude::*;
use crate::json::Json;
use crate::layout::{hash_splittable, relative_path_for_hash, relative_path_spec};
use crate::text::{contains_seq, starts_with_seq, str_contains, str_starts_with};

verus! {

/// The views of a sequence of strings.
pub open spec fn strs(v: Seq<String>) -> Seq<Seq<char>> {
    Seq::new(v.len(), |i: int| v[i]@)
}

/// The view of an optional string.
pub open spec fn opt_str(o: Option<String>) -> Option<Seq<char>> {
    match o {
        Some(s) => Some(s@),
        None => None,
    }
}

/// A copy of an optional string.
pub fn clone_opt(o: &Option<String>) -> (r: Option<String>)
    ensures
        opt_str(r) == opt_str(*o),
{
    match o {
        Some(s) => Some(s.clone()),
        None => None,
    }
}

/// A copy of a list of strings.
pub fn clone_strings(v: &Vec<String>) -> (r: Vec<String>)
    ensures
        strs(r@) == strs(v@),
{
    let mut r: Vec<String> = Vec::new();
    let mut i: usize = 0;
    while i < v.len()
        invariant
            i <= v.len(),
            r@.len() == i,
            forall|j: int| 0 <= j < i ==> #[trigger] r@[j]@ == v@[j]@,
        decreases v.len() - i,
    {
        r.push(v[i].clone());
        i = i + 1;
    }
    assert(strs(r@) =~= strs(v@));
    r
}

/// The broad kind of a clipboard entry.
#[derive(Clone, Copy, Debug, PartialEq, Eq, Structural)]
pub enum EntryKind {
    Text,
    Image,
    File,
    Other,
}

/// Some string of `formats` contains `needle`.
pub open spec fn any_contains(formats: Seq<Seq<char>>, needle: Seq<char>) -> bool {
    exists|i: int| 0 <= i < formats.len() && contains_seq(#[trigger] formats[i], needle)
}

/// Whether some string of `formats` contains `needle`.
pub fn formats_contain(formats: &[String], needle: &str) -> (r: bool)
    ensures
        r == any_contains(strs(formats@), needle@),
{
    let mut i: usize = 0;
    while i < formats.len()
        invariant
            i <= formats.len(),
            forall|j: int| 0 <= j < i ==> !contains_seq(#[trigger] strs(formats@)[j], needle@),
        decreases formats.len() - i,
    {
        if str_contains(formats[i].as_str(), needle) {
            assert(contains_seq(strs(formats@)[i as int], needle@));
            return true;
        }
        i = i + 1;
    }
    false
}

/// The kind of an entry from its MIME type and the pasteboard formats it
/// was captured with: files first, then images, then text.
pub open spec fn kind_from_formats(mime: Seq<char>, formats: Seq<Seq<char>>) -> EntryKind {
    if any_contains(formats, "public.file-url"@) || any_contains(formats, "file"@) {
        EntryKind::File
    } else if any_contains(formats, "public.png"@) || contains_seq(mime, "image/png"@) {
        EntryKind::Image
    } else if any_contains(formats, "public.tiff"@) || contains_seq(mime, "image/tiff"@) {
        EntryKind::Image
    } else if any_contains(formats, "image"@) || starts_with_seq(mime, "image/"@) {
        EntryKind::Image
    } else if any_contains(formats, "public.html"@) || contains_seq(mime, "text/html"@) {
        EntryKind::Text
    } else if any_contains(formats, "public.utf8-plain-text"@) || any_contains(
        formats,
        "public.text"@,
    ) || starts_with_seq(mime, "text/"@) {
        EntryKind::Text
    } else {
        EntryKind::Other
    }
}

impl EntryKind {
    /// The kind of an entry captured with this MIME type and these formats.
    pub fn from_formats(mime: &str, formats: &[String]) -> (r: EntryKind)
        ensures
            r == kind_from_formats(mime@, strs(formats@)),
    {
        if formats_contain(formats, "public.file-url") || formats_contain(formats, "file") {
            EntryKind::File
        } else if formats_contain(formats, "public.png") || str_contains(mime, "image/png") {
            EntryKind::Image
        } else if formats_contain(formats, "public.tiff") || str_contains(mime, "image/tiff") {
            EntryKind::Image
        } else if formats_contain(formats, "image") || str_starts_with(mime, "image/") {
            EntryKind::Image
        } else if formats_contain(formats, "public.html") || str_contains(mime, "text/html") {
            EntryKind::Text
        } else if formats_contain(formats, "public.utf8-plain-text") || formats_contain(
            formats,
            "public.text",
        ) || str_starts_with(mime, "text/") {
            EntryKind::Text
        } else {
            EntryKind::Other
        }
    }
}

/// What the index keeps of one entry.
pub struct SearchIndexRecord {
    pub hash: String,
    pub last_seen: i64,
    pub kind: EntryKind,
    pub copy_count: u64,
    pub summary: Option<String>,
    pub search_text: Option<String>,
    pub detected_formats: Vec<String>,
    pub byte_size: u64,
    pub relative_path: String,
}

/// The abstract value of an index record.
pub struct RecordView {
    pub hash: Seq<char>,
    pub last_seen: int,
    pub kind: EntryKind,
    pub copy_count: nat,
    pub summary: Option<Seq<char>>,
    pub search_text: Option<Seq<char>>,
    pub detected_formats: Seq<Seq<char>>,
    pub byte_size: nat,
    pub relative_path: Seq<char>,
}

impl View for SearchIndexRecord {
    type V = RecordView;

    open spec fn view(&self) -> RecordView {
        RecordView {
            hash: self.hash@,
            last_seen: self.last_seen as int,
            kind: self.kind,
            copy_count: self.copy_count as nat,
            summary: opt_str(self.summary),
            search_text: opt_str(self.search_text),
            detected_formats: strs(self.detected_formats@),
            byte_size: self.byte_size as nat,
            relative_path: self.relative_path@,
        }
    }
}

impl SearchIndexRecord {
    /// A copy of this record.
    pub fn duplicate(&self) -> (r: SearchIndexRecord)
        ensures
            r@ == self@,
    {
        SearchIndexRecord {
            hash: self.hash.clone(),
            last_seen: self.last_seen,
            kind: self.kind,
            copy_count: self.copy_count,
            summary: clone_opt(&self.summary),
            search_text: clone_opt(&self.search_text),
            detected_formats: clone_strings(&self.detected_formats),
            byte_size: self.byte_size,
            relative_path: self.relative_path.clone(),
        }
    }
}

/// One line of the index journal: an entry added (or updated), or deleted.
pub enum JournalEntry {
    Add {
        hash: String,
        last_seen: i64,
        kind: EntryKind,
        copy_count: u64,
        summary: Option<String>,
        search_text: Option<String>,
        detected_formats: Vec<String>,
        byte_size: u64,
    },
    Delete { hash: String },
}

/// The abstract value of a journal line.
pub enum JournalView {
    Add {
        hash: Seq<char>,
        last_seen: int,
        kind: EntryKind,
        copy_count: nat,
        summary: Option<Seq<char>>,
        search_text: Option<Seq<char>>,
        detected_formats: Seq<Seq<char>>,
        byte_size: nat,
    },
    Delete { hash: Seq<char> },
}

impl View for JournalEntry {
    type V = JournalView;

    open spec fn view(&self) -> JournalView {
        match self {
            JournalEntry::Add {
                hash,
                last_seen,
                kind,
                copy_count,
                summary,
                search_text,
                detected_formats,
                byte_size,
            } => JournalView::Add {
                hash: hash@,
                last_seen: *last_seen as int,
                kind: *kind,
                copy_count: *copy_count as nat,
                summary: opt_str(*summary),
                search_text: opt_str(*search_text),
                detected_formats: strs(detected_formats@),
                byte_size: *byte_size as nat,
            },
            JournalEntry::Delete { hash } => JournalView::Delete { hash: hash@ },
        }
    }
}

impl JournalView {
    /// The hash a journal line is about.
    pub open spec fn hash(self) -> Seq<char> {
        match self {
            JournalView::Add { hash, .. } => hash,
            JournalView::Delete { hash } => hash,
        }
    }

    /// The record that replaying this line puts in the index, if any.
    pub open spec fn record(self) -> Option<RecordView> {
        match self {
            JournalView::Add {
                hash,
                last_seen,
                kind,
                copy_count,
                summary,
                search_text,
                detected_formats,
                byte_size,
            } => Some(
                RecordView {
                    hash,
                    last_seen,
                    kind,
                    copy_count,
                    summary,
                    search_text,
                    detected_formats,
                    byte_size,
                    relative_path: relative_path_spec(hash),
                },
            ),
            JournalView::Delete { .. } => None,
        }
    }

    /// The line can be replayed without a panic: an added entry's hash
    /// splits into its two directory levels.
    pub open spec fn replayable(self) -> bool {
        match self {
            JournalView::Add { hash, .. } => hash_splittable(hash),
            JournalView::Delete { .. } => true,
        }
    }
}

/// The journal line that records `r` as added.
pub open spec fn add_line(r: RecordView) -> JournalView {
    JournalView::Add {
        hash: r.hash,
        last_seen: r.last_seen,
        kind: r.kind,
        copy_count: r.copy_count,
        summary: r.summary,
        search_text: r.search_text,
        detected_formats: r.detected_formats,
        byte_size: r.byte_size,
    }
}

/// Law: replaying the line that records a record as added gives the record
/// back with its relative path recomputed from its hash, and the line can be
/// replayed exactly when the hash splits (so for every ASCII hash of four or
/// more characters); a deletion line gives no record.
pub proof fn law_journal_round_trip(r: RecordView, h: Seq<char>)
    ensures
        add_line(r).record() == Some(RecordView { relative_path: relative_path_spec(r.hash), ..r }),
        add_line(r).replayable() == hash_splittable(r.hash),
        vstd::utf8::is_ascii_chars(r.hash) && r.hash.len() >= 4 ==> add_line(r).replayable(),
        (JournalView::Delete { hash: h }).record() is None,
{
    if vstd::utf8::is_ascii_chars(r.hash) && r.hash.len() >= 4 {
        crate::layout::lemma_ascii_splittable(r.hash);
    }
}

impl JournalEntry {
    /// The journal line that records `record` as added.
    pub fn from_record(record: &SearchIndexRecord) -> (r: JournalEntry)
        ensures
            r@ == add_line(record@),
    {
        JournalEntry::Add {
            hash: record.hash.clone(),
            last_seen: record.last_seen,
            kind: record.kind,
            copy_count: record.copy_count,
            summary: clone_opt(&record.summary),
            search_text: clone_opt(&record.search_text),
            detected_formats: clone_strings(&record.detected_formats),
            byte_size: record.byte_size,
        }
    }

    /// The journal line that records the entry `hash` as deleted.
    pub fn delete(hash: &str) -> (r: JournalEntry)
        ensures
            r@ == (JournalView::Delete { hash: hash@ }),
    {
        JournalEntry::Delete { hash: hash.to_string() }
    }

    /// The record that replaying this line puts in the index: `None` for a
    /// deletion.
    pub fn to_record(&self) -> (r: Option<SearchIndexRecord>)
        requires
            self@.replayable(),
        ensures
            r matches Some(rec) ==> self@.record() == Some(rec@),
            r is None ==> self@.record() is None,
    {
        match self {
            JournalEntry::Add {
                hash,
                last_seen,
                kind,
                copy_count,
                summary,
                search_text,
                detected_formats,
                byte_size,
            } => Some(
                SearchIndexRecord {
                    hash: hash.clone(),
                    last_seen: *last_seen,
                    kind: *kind,
                    copy_count: *copy_count,
                    summary: clone_opt(summary),
                    search_text: clone_opt(search_text),
                    detected_formats: clone_strings(detected_formats),
                    byte_size: *byte_size,
                    relative_path: relative_path_for_hash(hash.as_str()),
                },
            ),
            JournalEntry::Delete { .. } => None,
        }
    }

    /// The hash this line is about.
    pub fn hash(&self) -> (r: &str)
        ensures
            r@ == self@.hash(),
    {
        match self {
            JournalEntry::Add { hash, .. } => hash.as_str(),
            JournalEntry::Delete { hash } => hash.as_str(),
        }
    }
}

/// Everything stored about one entry, in its `metadata.json`.
pub struct EntryMetadata {
    pub hash: String,
    pub kind: EntryKind,
    pub detected_formats: Vec<String>,
    pub copy_count: u64,
    pub first_seen: i64,
    pub last_seen: i64,
    pub byte_size: u64,
    pub sources: Vec<String>,
    pub summary: Option<String>,
    pub search_text: Option<String>,
    pub version: String,
    pub relative_path: String,
    pub content_filename: String,
    pub files: Vec<String>,
    pub extra: Json,
}

impl EntryMetadata {
    /// What the index keeps of this entry.
    pub open spec fn record_view(self) -> RecordView {
        RecordView {
            hash: self.hash@,
            last_seen: self.last_seen as int,
            kind: self.kind,
            copy_count: self.copy_count as nat,
            summary: opt_str(self.summary),
            search_text: opt_str(self.search_text),
            detected_formats: strs(self.detected_formats@),
            byte_size: self.byte_size as nat,
            relative_path: self.relative_path@,
        }
    }

    /// The index record of this entry.
    pub fn to_index_record(&self) -> (r: SearchIndexRecord)
        ensures
            r@ == self.record_view(),
    {
        SearchIndexRecord {
            hash: self.hash.clone(),
            last_seen: self.last_seen,
            kind: self.kind,
            copy_count: self.copy_count,
            summary: clone_opt(&self.summary),
            search_text: clone_opt(&self.search_text),
            detected_formats: clone_strings(&self.detected_formats),
            byte_size: self.byte_size,
            relative_path: self.relative_path.clone(),
        }
    }
}

} // verus!
