//! The interactive history browser's state and its decisions: which entry
//! is selected, what the filter is, when the list reloads, and what each
//! key asks for.  Drawing, reading keys and the stored entries are left to
//! the caller, which reports times as milliseconds of a steady clock.

use vstd::prelude::*;
use crate::store::{HistoryItem, ItemPreview};
use crate::text::{concat, flatten_lines, flattened, trim, trimmed, push_char};

verus! {

broadcast use vstd::utf8::encode_utf8_decode_utf8;

/// The preview shown for the selected entry.
pub struct PreviewState {
    pub hash: String,
    pub content: ItemPreview,
}

/// The browser's state.
pub struct AppState {
    pub items: Vec<HistoryItem>,
    pub selected: usize,
    pub query: String,
    pub status: Option<String>,
    pub filter: String,
    pub sticky_query: Option<String>,
    pub preview: Option<PreviewState>,
    pub has_more: bool,
    pub loading: bool,
    pub pending_reload: bool,
    /// When the filter last changed, in milliseconds.
    pub last_filter_change: Option<u64>,
}

/// The keys that the browser tells apart.
pub enum KeyCode {
    Enter,
    Char(char),
    Backspace,
    Delete,
    Down,
    Up,
    Esc,
    Other,
}

/// A key press with its modifiers.
pub struct KeyInput {
    pub code: KeyCode,
    pub shift: bool,
    pub control: bool,
    pub alt: bool,
}

/// What the caller does after a key press.
pub enum TuiAction {
    /// Nothing beyond redrawing.
    Nothing,
    /// Leave the browser.
    Quit,
    /// Copy the entry with this hash; leave unless asked to stay.
    Copy { hash: String, stay: bool },
    /// Delete the entry with this hash, reload, and report it.
    Delete { hash: String },
    /// Fetch the next page, append it, then move down.
    LoadMoreThenNext,
}

/// The hashes of the items, in order.
pub open spec fn item_hashes(items: Seq<HistoryItem>) -> Seq<Seq<char>> {
    items.map_values(|it: HistoryItem| it.metadata.hash@)
}

/// The hashes after appending `new` to `t`, skipping those already there.
pub open spec fn appended(t: Seq<Seq<char>>, new: Seq<Seq<char>>) -> Seq<Seq<char>>
    decreases new.len(),
{
    if new.len() == 0 {
        t
    } else {
        let u = appended(t, new.drop_last());
        if u.contains(new.last()) {
            u
        } else {
            u.push(new.last())
        }
    }
}

impl AppState {
    /// A browser over `items` with nothing typed and the first selected.
    pub fn new(items: Vec<HistoryItem>) -> (r: AppState)
        ensures
            r.items == items,
            r.selected == 0,
            r.query@.len() == 0,
            r.status is None,
            r.filter@.len() == 0,
            r.sticky_query is None,
            r.preview is None,
            !r.has_more,
            !r.loading,
            !r.pending_reload,
            r.last_filter_change is None,
    {
        AppState {
            items,
            selected: 0,
            query: String::new(),
            status: None,
            filter: String::new(),
            sticky_query: None,
            preview: None,
            has_more: false,
            loading: false,
            pending_reload: false,
            last_filter_change: None,
        }
    }

    /// Drops the preview.
    pub fn invalidate_preview(&mut self)
        ensures
            final(self).preview is None,
            final(self).items == old(self).items,
            final(self).selected == old(self).selected,
            final(self).filter == old(self).filter,
            final(self).query == old(self).query,
            final(self).pending_reload == old(self).pending_reload,
            *final(self) == (AppState { preview: None, ..*old(self) }),
    {
        self.preview = None;
    }

    /// The state after moving down: the next entry selected and the preview
    /// dropped, when there is a next entry; else unchanged.
    pub open spec fn moved_down(s: AppState) -> AppState {
        if s.selected + 1 < s.items@.len() {
            AppState { selected: (s.selected + 1) as usize, preview: None, ..s }
        } else {
            s
        }
    }

    /// The state after moving up: the previous entry selected and the
    /// preview dropped, when there is a previous entry; else unchanged.
    pub open spec fn moved_up(s: AppState) -> AppState {
        if s.selected > 0 {
            AppState { selected: (s.selected - 1) as usize, preview: None, ..s }
        } else {
            s
        }
    }

    /// Selects the next entry, if there is one.
    pub fn next(&mut self)
        ensures
            *final(self) == Self::moved_down(*old(self)),
            old(self).selected + 1 < old(self).items@.len() ==> (final(self).selected == old(self).selected
                + 1 && final(self).preview is None),
            !(old(self).selected + 1 < old(self).items@.len()) ==> (final(self).selected == old(self).selected && final(self).preview == old(self).preview),
            final(self).items == old(self).items,
            final(self).filter == old(self).filter,
    {
        if self.items.len() > 0 && self.selected < self.items.len() - 1 {
            self.selected = self.selected + 1;
            self.invalidate_preview();
        }
    }

    /// Selects the previous entry, if there is one.
    pub fn previous(&mut self)
        ensures
            *final(self) == Self::moved_up(*old(self)),
            old(self).selected > 0 ==> (final(self).selected == old(self).selected - 1
                && final(self).preview is None),
            old(self).selected == 0 ==> (final(self).selected == 0 && final(self).preview == old(self).preview),
            final(self).items == old(self).items,
            final(self).filter == old(self).filter,
    {
        if self.selected > 0 {
            self.selected = self.selected - 1;
            self.invalidate_preview();
        }
    }

    /// Moves the selection for the arrow keys; other keys do nothing.
    pub fn handle_key(&mut self, code: KeyCode)
        ensures
            code is Down && old(self).selected + 1 < old(self).items@.len() ==> final(self).selected
                == old(self).selected + 1,
            code is Up && old(self).selected > 0 ==> final(self).selected == old(self).selected - 1,
            !(code is Down) && !(code is Up) ==> (final(self).selected == old(self).selected
                && final(self).preview == old(self).preview),
            final(self).items == old(self).items,
            final(self).filter == old(self).filter,
    {
        match code {
            KeyCode::Down => self.next(),
            KeyCode::Up => self.previous(),
            _ => {},
        }
    }

    /// Notes that the filter changed at `now`: a reload is due.
    pub fn mark_filter_dirty(&mut self, now: u64)
        ensures
            final(self).pending_reload,
            final(self).last_filter_change == Some(now),
            final(self).items == old(self).items,
            final(self).selected == old(self).selected,
            final(self).filter == old(self).filter,
            final(self).query == old(self).query,
            final(self).preview == old(self).preview,
    {
        self.pending_reload = true;
        self.last_filter_change = Some(now);
    }

    /// Types a character into the filter at `now`.
    pub fn handle_char(&mut self, ch: char, now: u64)
        ensures
            final(self).filter@ == old(self).filter@.push(ch),
            final(self).query@ == final(self).filter@,
            final(self).selected == 0,
            final(self).preview is None,
            final(self).pending_reload,
            final(self).last_filter_change == Some(now),
            final(self).items == old(self).items,
    {
        push_char(&mut self.filter, ch);
        self.query = self.filter.clone();
        self.selected = 0;
        self.invalidate_preview();
        self.mark_filter_dirty(now);
    }

    /// Deletes the last character of the filter at `now`, if there is one.
    pub fn backspace(&mut self, now: u64)
        ensures
            old(self).filter@.len() > 0 ==> {
                &&& final(self).filter@ == old(self).filter@.drop_last()
                &&& final(self).query@ == final(self).filter@
                &&& final(self).selected == 0
                &&& final(self).preview is None
                &&& final(self).pending_reload
                &&& final(self).last_filter_change == Some(now)
            },
            old(self).filter@.len() == 0 ==> *final(self) == *old(self),
            final(self).items == old(self).items,
    {
        let cs = crate::text::chars_of(self.filter.as_str());
        if cs.len() > 0 {
            self.filter = crate::text::string_from_chars(&cs[0..cs.len() - 1]);
            assert(cs@.subrange(0, cs.len() - 1) =~= old(self).filter@.drop_last());
            self.query = self.filter.clone();
            self.selected = 0;
            self.invalidate_preview();
            self.mark_filter_dirty(now);
        }
    }

    /// Shows a status message.
    pub fn set_status(&mut self, message: String)
        ensures
            final(self).status == Some(message),
            final(self).items == old(self).items,
            final(self).selected == old(self).selected,
            final(self).filter == old(self).filter,
    {
        self.status = Some(message);
    }

    /// Replaces the list after a reload: the selection stays in range, the
    /// preview goes, and the reload is done.
    pub fn set_items(&mut self, items: Vec<HistoryItem>, has_more: bool)
        ensures
            final(self).items == items,
            old(self).selected < items@.len() ==> final(self).selected == old(self).selected,
            old(self).selected >= items@.len() ==> final(self).selected == (if items@.len() == 0 {
                0
            } else {
                items@.len() - 1
            }),
            final(self).preview is None,
            final(self).has_more == has_more,
            !final(self).loading,
            !final(self).pending_reload,
            final(self).last_filter_change is None,
            final(self).query@ == old(self).filter@,
            final(self).filter == old(self).filter,
    {
        self.items = items;
        if self.selected >= self.items.len() {
            self.selected = if self.items.len() == 0 { 0 } else { self.items.len() - 1 };
        }
        self.invalidate_preview();
        self.has_more = has_more;
        self.loading = false;
        self.pending_reload = false;
        self.last_filter_change = None;
        self.query = self.filter.clone();
    }

    /// Adds a further page, skipping entries already listed; the selection
    /// stays in range.
    pub fn append_items(&mut self, items: Vec<HistoryItem>, has_more: bool)
        ensures
            item_hashes(final(self).items@) == appended(item_hashes(old(self).items@), item_hashes(items@)),
            final(self).items@.len() == 0 ==> final(self).selected == 0,
            final(self).items@.len() > 0 && old(self).selected >= final(self).items@.len() ==> (final(self).selected == final(self).items@.len() - 1 && final(self).preview is None),
            final(self).items@.len() > 0 && old(self).selected < final(self).items@.len()
                && old(self).items@.len() == 0 ==> (final(self).selected == 0 && final(self).preview is None),
            final(self).items@.len() > 0 && old(self).selected < final(self).items@.len()
                && old(self).items@.len() > 0 ==> (final(self).selected == old(self).selected
                && final(self).preview == old(self).preview),
            final(self).has_more == has_more,
            !final(self).loading,
            final(self).filter == old(self).filter,
    {
        let previous_len = self.items.len();
        let ghost old_h = item_hashes(self.items@);
        let ghost new_h = item_hashes(items@);
        let mut rest = items;
        let mut k: usize = 0;
        let ghost all = rest@;
        assert(all.len() == rest.len());
        assert(all.skip(0) =~= all);
        while rest.len() > 0
            invariant
                k <= all.len(),
                rest@.len() + k == all.len(),
                all.len() <= usize::MAX,
                rest@ == all.skip(k as int),
                new_h == item_hashes(all),
                item_hashes(self.items@) == appended(old_h, new_h.take(k as int)),
                self.filter == old(self).filter,
                self.selected == old(self).selected,
                self.preview == old(self).preview,
            decreases rest.len(),
        {
            let item = rest.remove(0);
            assert(new_h.take(k + 1).drop_last() =~= new_h.take(k as int));
            assert(new_h.take(k + 1).last() == item.metadata.hash@);
            assert(all.skip(k + 1) =~= all.skip(k as int).drop_first());
            let ghost cur = item_hashes(self.items@);
            let mut exists = false;
            let mut j: usize = 0;
            while j < self.items.len()
                invariant
                    j <= self.items.len(),
                    cur == item_hashes(self.items@),
                    exists == (exists|m: int| 0 <= m < j && cur[m] == item.metadata.hash@),
                decreases self.items.len() - j,
            {
                assert(cur[j as int] == self.items@[j as int].metadata.hash@);
                if crate::text::str_eq(self.items[j].metadata.hash.as_str(), item.metadata.hash.as_str()) {
                    exists = true;
                }
                j = j + 1;
            }
            assert(exists == cur.contains(item.metadata.hash@));
            if !exists {
                self.items.push(item);
                assert(item_hashes(self.items@) =~= cur.push(self.items@.last().metadata.hash@));
            }
            k = k + 1;
        }
        assert(new_h.take(k as int) =~= new_h);
        if self.items.len() == 0 {
            self.selected = 0;
        } else if self.selected >= self.items.len() {
            self.selected = self.items.len() - 1;
            self.invalidate_preview();
        } else if previous_len == 0 {
            self.selected = 0;
            self.invalidate_preview();
        }
        self.has_more = has_more;
        self.loading = false;
    }

    /// The selected entry, if the selection is in range.
    pub fn selected_item(&self) -> (r: Option<&HistoryItem>)
        ensures
            self.selected < self.items@.len() ==> r == Some(&self.items@[self.selected as int]),
            self.selected >= self.items@.len() ==> r is None,
    {
        if self.selected < self.items.len() {
            Some(&self.items[self.selected])
        } else {
            None
        }
    }

    /// A reload is due at `now`: one is pending and the filter has not
    /// changed for `debounce` milliseconds.
    pub fn should_reload(&self, now: u64, debounce: u64) -> (r: bool)
        ensures
            r == (self.pending_reload && match self.last_filter_change {
                Some(t) => (if now >= t { now - t } else { 0 }) >= debounce,
                None => true,
            }),
    {
        if !self.pending_reload {
            return false;
        }
        match self.last_filter_change {
            Some(t) => {
                let elapsed = if now >= t { now - t } else { 0 };
                elapsed >= debounce
            },
            None => true,
        }
    }
}

impl AppState {
    /// Handles one key press at `now` and says what the caller must do.
    pub fn on_key(&mut self, key: KeyInput, now: u64) -> (r: TuiAction)
        ensures
            key.code is Enter ==> match r {
                TuiAction::Copy { hash, stay } => stay == key.shift && {
                    let i = if old(self).selected < old(self).items@.len() { old(self).selected as int } else { 0 };
                    old(self).items@.len() > 0 && hash@ == old(self).items@[i].metadata.hash@
                },
                TuiAction::Nothing => old(self).items@.len() == 0,
                _ => false,
            },
            key.code matches KeyCode::Char(c) ==> (c == 'c' && key.control ==> r is Quit),
            ((key.code is Backspace || key.code is Delete) && key.alt) ==> match r {
                TuiAction::Delete { hash } => old(self).selected < old(self).items@.len() && hash@
                    == old(self).items@[old(self).selected as int].metadata.hash@,
                TuiAction::Nothing => old(self).selected >= old(self).items@.len(),
                _ => false,
            },
            key.code is Down ==> (if old(self).selected + 1 >= old(self).items@.len()
                && old(self).has_more && old(self).items@.len() > 0 {
                r is LoadMoreThenNext && *final(self) == *old(self)
            } else {
                r is Nothing && *final(self) == Self::moved_down(*old(self))
            }),
            key.code is Up ==> r is Nothing && *final(self) == Self::moved_up(*old(self)),
            key.code matches KeyCode::Char(c) ==> (!key.control ==> r is Nothing
                && final(self).filter@ == old(self).filter@.push(c) && final(self).selected == 0
                && final(self).pending_reload),
            (key.code is Backspace && !key.alt) ==> r is Nothing && (old(self).filter@.len() > 0
                ==> final(self).filter@ == old(self).filter@.drop_last()),
            key.code is Enter ==> *final(self) == *old(self),
            (key.code is Char && key.control) ==> *final(self) == *old(self),
            ((key.code is Backspace || key.code is Delete) && key.alt) ==> *final(self) == *old(self),
            (key.code is Delete && !key.alt) ==> r is Nothing && *final(self) == *old(self),
            key.code is Other ==> r is Nothing && *final(self) == *old(self),
            (key.code is Backspace && !key.alt && old(self).filter@.len() == 0) ==> *final(self)
                == *old(self),
            key.code is Esc ==> r is Nothing && final(self).filter@ == (match old(self).sticky_query {
                Some(q) => q@,
                None => Seq::empty(),
            }) && final(self).query@ == final(self).filter@ && final(self).selected == 0
                && final(self).preview is None && final(self).pending_reload
                && final(self).last_filter_change == Some(now),
    {
        match key.code {
            KeyCode::Enter => {
                let item = if self.selected < self.items.len() {
                    Some(&self.items[self.selected])
                } else if self.items.len() > 0 {
                    Some(&self.items[0])
                } else {
                    None
                };
                match item {
                    Some(it) => TuiAction::Copy { hash: it.metadata.hash.clone(), stay: key.shift },
                    None => TuiAction::Nothing,
                }
            },
            KeyCode::Char(c) => {
                if c == 'c' && key.control {
                    TuiAction::Quit
                } else {
                    if !key.control {
                        self.handle_char(c, now);
                    }
                    TuiAction::Nothing
                }
            },
            KeyCode::Backspace => {
                if key.alt {
                    match self.selected_item() {
                        Some(it) => TuiAction::Delete { hash: it.metadata.hash.clone() },
                        None => TuiAction::Nothing,
                    }
                } else {
                    self.backspace(now);
                    TuiAction::Nothing
                }
            },
            KeyCode::Delete => {
                if key.alt {
                    match self.selected_item() {
                        Some(it) => TuiAction::Delete { hash: it.metadata.hash.clone() },
                        None => TuiAction::Nothing,
                    }
                } else {
                    TuiAction::Nothing
                }
            },
            KeyCode::Down => {
                if self.selected as u128 + 1 >= self.items.len() as u128 && self.has_more
                    && self.items.len() > 0 {
                    TuiAction::LoadMoreThenNext
                } else {
                    self.next();
                    TuiAction::Nothing
                }
            },
            KeyCode::Up => {
                self.previous();
                TuiAction::Nothing
            },
            KeyCode::Esc => {
                self.filter = match &self.sticky_query {
                    Some(q) => q.clone(),
                    None => String::new(),
                };
                self.selected = 0;
                self.invalidate_preview();
                self.query = self.filter.clone();
                self.mark_filter_dirty(now);
                TuiAction::Nothing
            },
            KeyCode::Other => TuiAction::Nothing,
        }
    }

    /// What the status line says of the selected entry: the preview's
    /// snippet when there is a preview, else the summary or the kind.
    pub fn preview_text_for(&self, metadata: &crate::model::EntryMetadata) -> (r: String)
        ensures
            self.preview matches Some(p) ==> r@ == crate::store::snippet_spec(p.content, *metadata),
            self.preview is None ==> r@ == (match crate::model::opt_str(metadata.summary) {
                Some(s) => s,
                None => crate::store::kind_name(metadata.kind),
            }),
    {
        match &self.preview {
            Some(p) => crate::store::preview_snippet(&p.content, metadata),
            None => match &metadata.summary {
                Some(s) => s.clone(),
                None => crate::store::kind_label(metadata.kind),
            },
        }
    }
}

/// The status after a copy: `Copied ` and the snippet on one line, cut to
/// 67 bytes and `...` when longer than 70 bytes.
pub open spec fn copy_status_spec(snippet: Seq<char>) -> Seq<char> {
    let status = "Copied "@ + flatten_lines(trim(snippet));
    if crate::selector::byte_len(status) > 70 {
        crate::layout::byte_range(status, 0, 67) + "..."@
    } else {
        status
    }
}

/// The status can be cut at its 67th byte when it is longer than 70 bytes.
pub open spec fn status_cuttable(snippet: Seq<char>) -> bool {
    let status = "Copied "@ + flatten_lines(trim(snippet));
    crate::selector::byte_len(status) > 70 ==> vstd::utf8::is_char_boundary(
        vstd::utf8::encode_utf8(status),
        67,
    )
}

/// The status after copying an entry with this snippet.
pub fn copy_status(snippet: &str) -> (r: String)
    requires
        status_cuttable(snippet@),
    ensures
        r@ == copy_status_spec(snippet@),
{
    let t = trimmed(snippet);
    let clean = flattened(t.as_str());
    let status = concat("Copied ", clean.as_str());
    let st = status.as_str();
    if st.as_bytes().len() > 70 {
        let ghost bytes = vstd::utf8::encode_utf8(st@);
        let (head, _tail) = st.split_at(67);
        assert(vstd::utf8::encode_utf8(head@) =~= bytes.subrange(0, 67));
        concat(head, "...")
    } else {
        status
    }
}

/// The line above an entry's details when it holds several files: their
/// count, folder and total size.
pub open spec fn file_summary_spec(m: crate::model::EntryMetadata, p: ItemPreview) -> Option<Seq<char>> {
    let rp = crate::store::resolved_paths_spec(m);
    let count: nat = if rp.len() > 0 {
        rp.len()
    } else if m.sources@.len() > 0 {
        m.sources@.len()
    } else {
        p.files@.len()
    };
    if count <= 1 {
        None
    } else {
        let folder = if rp.len() > 0 {
            match crate::store::narrowest_spec(rp) {
                Some(f) => f,
                None => "(unknown)"@,
            }
        } else if m.sources@.len() > 0 {
            match crate::store::narrowest_spec(crate::model::strs(m.sources@)) {
                Some(f) => f,
                None => "(unknown)"@,
            }
        } else {
            "(unknown)"@
        };
        Some(
            "["@ + crate::text::decimal(count) + " files in "@ + folder + " - total "@
                + crate::numfmt::human_size_spec(m.byte_size as nat) + "]"@,
        )
    }
}

/// The file summary line of an entry, when it holds several files.
pub fn file_summary_line(metadata: &crate::model::EntryMetadata, preview: &ItemPreview) -> (r: Option<String>)
    ensures
        crate::model::opt_str(r) == file_summary_spec(*metadata, *preview),
{
    let resolved = crate::store::resolved_file_paths(metadata);
    let mut count = resolved.len();
    if count == 0 {
        count = metadata.sources.len();
    }
    if count == 0 {
        count = preview.files.len();
    }
    if count <= 1 {
        return None;
    }
    let folder = if resolved.len() > 0 {
        match crate::store::narrowest_folder(resolved.as_slice()) {
            Some(f) => f,
            None => "(unknown)".to_string(),
        }
    } else if metadata.sources.len() > 0 {
        match crate::store::narrowest_folder(metadata.sources.as_slice()) {
            Some(f) => f,
            None => "(unknown)".to_string(),
        }
    } else {
        "(unknown)".to_string()
    };
    let mut r = concat("[", crate::text::usize_to_string(count).as_str());
    r.append(" files in ");
    r.append(folder.as_str());
    r.append(" - total ");
    r.append(crate::numfmt::human_size(metadata.byte_size).as_str());
    r.append("]");
    Some(r)
}

/// Text cut for display: line breaks as spaces, at most `max_len` bytes,
/// the last three of them `...` when it had to be cut (for `max_len > 3`).
pub open spec fn display_spec(input: Seq<char>, max_len: nat) -> Seq<char> {
    let text = flatten_lines(input);
    if max_len == 0 {
        Seq::empty()
    } else if crate::selector::byte_len(text) > max_len {
        if max_len > 3 {
            crate::layout::byte_range(text, 0, max_len - 3) + "..."@
        } else {
            crate::layout::byte_range(text, 0, max_len as int)
        }
    } else {
        text
    }
}

/// The text can be cut where `display_spec` cuts it.
pub open spec fn display_cuttable(input: Seq<char>, max_len: nat) -> bool {
    let text = flatten_lines(input);
    let cut = if max_len > 3 { max_len - 3 } else { max_len as int };
    max_len > 0 && crate::selector::byte_len(text) > max_len ==> vstd::utf8::is_char_boundary(
        vstd::utf8::encode_utf8(text),
        cut,
    )
}

/// Text cut for display.
pub fn truncate_display(input: &str, max_len: usize) -> (r: String)
    requires
        display_cuttable(input@, max_len as nat),
    ensures
        r@ == display_spec(input@, max_len as nat),
{
    if max_len == 0 {
        return String::new();
    }
    let text = flattened(input);
    let st = text.as_str();
    if st.as_bytes().len() > max_len {
        let cut: usize = if max_len > 3 { max_len - 3 } else { max_len };
        let ghost bytes = vstd::utf8::encode_utf8(st@);
        let (head, _tail) = st.split_at(cut);
        assert(vstd::utf8::encode_utf8(head@) =~= bytes.subrange(0, cut as int));
        if max_len > 3 {
            concat(head, "...")
        } else {
            crate::text::owned(head)
        }
    } else {
        text
    }
}

/// The status line before anything happened.
pub fn default_status() -> (r: String)
    ensures
        r@ == "Enter copy \u{2022} Shift+Enter copy+stay \u{2022} Alt+Delete delete \u{2022} Ctrl+C exit"@,
{
    "Enter copy \u{2022} Shift+Enter copy+stay \u{2022} Alt+Delete delete \u{2022} Ctrl+C exit".to_string()
}

/// The details shown under a preview: kind, copies, first and (when it
/// differs) last time seen, dimensions, format labels and version.
pub fn info_pairs(metadata: &crate::model::EntryMetadata, preview: &ItemPreview) -> (r: Vec<(String, String)>)
    requires
        crate::timefmt::valid_timestamp(metadata.first_seen as int),
        crate::timefmt::valid_timestamp(metadata.last_seen as int),
    ensures
        r@.len() >= 4,
        r@[0].0@ == "Type"@ && r@[0].1@ == crate::store::kind_name(metadata.kind),
        r@[1].0@ == "Copies"@ && r@[1].1@ == crate::text::decimal(metadata.copy_count as nat),
        r@[2].0@ == "First"@ && r@[2].1@ == crate::timefmt::human_text(metadata.first_seen as int),
        r@.last().0@ == "Version"@ && r@.last().1@ == metadata.version@,
        r@.len() == 4 + (if metadata.first_seen != metadata.last_seen { 1int } else { 0 }) + (
        if preview.dimensions is Some { 1int } else { 0 }) + (if crate::store::saved_labels_spec(
            *metadata,
        ).len() > 0 { 1int } else { 0 }),
{
    let mut r: Vec<(String, String)> = Vec::new();
    r.push(("Type".to_string(), crate::store::kind_label(metadata.kind)));
    r.push(("Copies".to_string(), crate::text::u64_to_string(metadata.copy_count)));
    r.push(("First".to_string(), crate::timefmt::format_human(metadata.first_seen)));
    if metadata.first_seen != metadata.last_seen {
        r.push(("Last".to_string(), crate::timefmt::format_human(metadata.last_seen)));
    }
    if let Some((w, h)) = preview.dimensions {
        let mut d = crate::text::u64_to_string(w as u64);
        d.append(" x ");
        d.append(crate::text::u64_to_string(h as u64).as_str());
        r.push(("Dimensions".to_string(), d));
    }
    let labels = crate::store::saved_format_labels(metadata);
    if labels.len() > 0 {
        r.push(("Formats".to_string(), crate::text::join_strings(&labels, ", ")));
    }
    r.push(("Version".to_string(), metadata.version.clone()));
    r
}

/// No hash occurs twice.
pub open spec fn distinct_seqs(s: Seq<Seq<char>>) -> bool {
    forall|i: int, j: int| 0 <= i < j < s.len() ==> s[i] != s[j]
}

/// Appending pages never lists an entry twice: a list without repeats
/// stays without repeats, and it keeps its entries in front.
pub proof fn law_append_keeps_distinct(t: Seq<Seq<char>>, new: Seq<Seq<char>>)
    requires
        distinct_seqs(t),
    ensures
        distinct_seqs(appended(t, new)),
        appended(t, new).len() >= t.len(),
        appended(t, new).take(t.len() as int) == t,
    decreases new.len(),
{
    if new.len() > 0 {
        law_append_keeps_distinct(t, new.drop_last());
        let u = appended(t, new.drop_last());
        if !u.contains(new.last()) {
            assert forall|i: int, j: int| 0 <= i < j < u.push(new.last()).len() implies u.push(
                new.last(),
            )[i] != u.push(new.last())[j] by {
                if j == u.len() {
                    assert(u.push(new.last())[i] == u[i]);
                    if u[i] == new.last() {
                        assert(u.contains(new.last()));
                    }
                }
            }
            assert(u.push(new.last()).take(t.len() as int) =~= u.take(t.len() as int));
        }
    } else {
        assert(t.take(t.len() as int) =~= t);
    }
}

// ---------------------------------------------------------------------------
// What the browser draws
// ---------------------------------------------------------------------------

/// The title line: the program's version and how many items are listed.
pub fn header_title(version: &str, count: usize) -> (r: String)
    ensures
        r@ == "get_clipboard v"@ + version@ + " \u{2014} "@ + crate::text::decimal(count as nat) + " items"@,
{
    let mut r = concat("get_clipboard v", version);
    r.append(" \u{2014} ");
    r.append(crate::text::usize_to_string(count).as_str());
    r.append(" items");
    r
}

/// The search line: a hint while the filter is empty, else the filter
/// after a marker.
pub fn query_display(filter: &str) -> (r: String)
    ensures
        r@ == (if filter@.len() == 0 {
            "Type to search clipboard history\u{2026}"@
        } else {
            "\u{203a} "@ + filter@
        }),
{
    if filter.is_empty() {
        "Type to search clipboard history\u{2026}".to_string()
    } else {
        concat("\u{203a} ", filter)
    }
}

/// The preview pane is shown beside the list on terminals wider than 100
/// columns.
pub fn shows_preview(width: u16) -> (r: bool)
    ensures
        r == (width > 100),
{
    width > 100
}

/// The position column of a list line: `#` and the position, padded to
/// four characters.
pub fn list_offset_text(offset: usize) -> (r: String)
    ensures
        r@ == "#"@ + crate::stats::padded(crate::text::decimal(offset as nat), 4),
{
    let digits = crate::text::usize_to_string(offset);
    let padded = crate::stats::pad_right(digits.as_str(), 4);
    concat("#", padded.as_str())
}

/// The room left for the summary on a list line of `width` bytes, after
/// the position column, the kind and the spacing around them.
pub fn list_summary_room(width: usize, offset_text_len: usize, kind_len: usize) -> (r: usize)
    ensures
        r == (if width >= offset_text_len + kind_len + 6 {
            width - (offset_text_len + kind_len + 6)
        } else {
            0
        }),
{
    let base = offset_text_len as u128 + kind_len as u128 + 6;
    if (width as u128) >= base {
        (width as u128 - base) as usize
    } else {
        0
    }
}

/// The text of the preview pane: the content's text when it has some, else
/// the entry's snippet.
pub fn preview_body(preview: &ItemPreview, metadata: &crate::model::EntryMetadata) -> (r: String)
    ensures
        r@ == (match preview.text {
            Some(t) => if t@.len() > 0 {
                t@
            } else {
                crate::store::snippet_spec(*preview, *metadata)
            },
            None => crate::store::snippet_spec(*preview, *metadata),
        }),
{
    match &preview.text {
        Some(t) if !t.as_str().is_empty() => t.clone(),
        _ => crate::store::preview_snippet(preview, metadata),
    }
}

} // verus!
