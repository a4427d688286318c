//! The command line: its commands and options, and the decisions the
//! commands make before they touch the store.

use vstd::prelude::*;
use crate::search::{SelectionFilter, SortOrder};
use crate::text::{
    chars_of, concat, decimal, flatten_lines, flattened, owned, string_from_chars, trim, trimmed,
    u64_to_string, usize_to_string,
};

verus! {

/// The parsed command line.
pub struct Cli {
    pub command: Option<Command>,
}

/// Which kinds of entries a command acts on.
pub struct FilterFlags {
    pub text: bool,
    pub image: bool,
    pub file: bool,
    pub html: bool,
    pub rtf: bool,
}

impl FilterFlags {
    /// No flag is set.
    pub fn is_empty(&self) -> (r: bool)
        ensures
            r == (!self.text && !self.image && !self.file && !self.html && !self.rtf),
    {
        !self.text && !self.image && !self.file && !self.html && !self.rtf
    }
}

/// A command.
pub enum Command {
    Interactive { query: Option<String> },
    Copy { selector: String, filters: FilterFlags },
    Delete { selector: String, filters: FilterFlags },
    Show { selector: String, filters: FilterFlags, json: bool },
    Watch,
    Service(ServiceArgs),
    Dir(DirArgs),
    Search(SearchArgs),
    Api(ApiArgs),
    History(HistoryArgs),
    Paste { selector: String, filters: FilterFlags },
    Export { path: String },
    Import { path: String },
    Stats { json: bool },
    Permissions { subcommand: PermissionsCmd },
}

/// The accessibility permission commands.
pub enum PermissionsCmd {
    Check,
    Request,
}

/// The background-service command.
pub struct ServiceArgs {
    pub action: ServiceAction,
}

/// What to do with the background service.
pub enum ServiceAction {
    Install,
    Uninstall,
    Start,
    Stop,
    Status,
    Logs { lines: usize, follow: bool },
}

/// The data-directory command.
pub struct DirArgs {
    pub command: DirCommand,
}

/// What to do with the data directory.
pub enum DirCommand {
    Get,
    SetDir { path: String },
    Move { path: String },
}

/// Options of the history listing.
pub struct HistoryArgs {
    pub limit: Option<usize>,
    pub query: Option<String>,
    pub kind: Option<EntryKind>,
    pub from: Option<String>,
    pub to: Option<String>,
    pub full: bool,
    pub regex: bool,
    pub sort: Option<HistorySort>,
    pub filters: FilterFlags,
    pub json: bool,
}

impl Default for HistoryArgs {
    fn default() -> (r: Self)
        ensures
            r.limit is None && r.query is None && r.kind is None && r.from is None && r.to is None,
            !r.full && !r.regex && r.sort is None && !r.json,
            !r.filters.text && !r.filters.image && !r.filters.file && !r.filters.html
                && !r.filters.rtf,
    {
        HistoryArgs {
            limit: None,
            query: None,
            kind: None,
            from: None,
            to: None,
            full: false,
            regex: false,
            sort: None,
            filters: FilterFlags { text: false, image: false, file: false, html: false, rtf: false },
            json: false,
        }
    }
}

/// Options of the search command.
pub struct SearchArgs {
    pub query: String,
    pub limit: Option<usize>,
    pub full: bool,
    pub regex: bool,
    pub sort: Option<SearchSort>,
    pub filters: FilterFlags,
    pub json: bool,
}

/// Options of the HTTP interface command.
pub struct ApiArgs {
    pub port: u16,
}

/// A kind of entry named on the command line.
#[derive(Clone, Copy, Debug, PartialEq, Eq, Structural)]
pub enum EntryKind {
    Text,
    Image,
    File,
    Other,
}

/// Orders of the history listing.
#[derive(Clone, Copy, Debug, PartialEq, Eq, Structural)]
pub enum HistorySort {
    Date,
    Copies,
    Type,
}

/// Orders of the search command.
#[derive(Clone, Copy, Debug, PartialEq, Eq, Structural)]
pub enum SearchSort {
    Date,
    Copies,
    Type,
    Relevance,
}

impl Cli {
    /// The command to run: the one given, else the history listing with
    /// default options.
    pub fn command_or_default(self) -> (r: Command)
        ensures
            self.command is Some ==> r == self.command->0,
            self.command is None ==> r is History,
    {
        match self.command {
            Some(c) => c,
            None => Command::History(HistoryArgs::default()),
        }
    }
}

/// How results are printed.
#[derive(Clone, Copy, Debug, PartialEq, Eq, Structural)]
pub enum OutputMode {
    Text,
    JsonSimple,
    JsonFull,
}

/// Text unless JSON was asked for; full JSON only with `--full`.
pub fn output_mode(json: bool, full: bool) -> (r: OutputMode)
    ensures
        r == if !json {
            OutputMode::Text
        } else if full {
            OutputMode::JsonFull
        } else {
            OutputMode::JsonSimple
        },
{
    if json {
        if full {
            OutputMode::JsonFull
        } else {
            OutputMode::JsonSimple
        }
    } else {
        OutputMode::Text
    }
}

/// The order of the history listing (by date unless asked otherwise).
pub fn history_sort_order(sort: Option<HistorySort>) -> (r: SortOrder)
    ensures
        r == match sort {
            Some(HistorySort::Copies) => SortOrder::Copies,
            Some(HistorySort::Type) => SortOrder::Type,
            _ => SortOrder::Date,
        },
{
    match sort {
        Some(HistorySort::Date) => SortOrder::Date,
        Some(HistorySort::Copies) => SortOrder::Copies,
        Some(HistorySort::Type) => SortOrder::Type,
        None => SortOrder::Date,
    }
}

/// The order of the search command (by date unless asked otherwise).
pub fn search_sort_order(sort: Option<SearchSort>) -> (r: SortOrder)
    ensures
        r == match sort {
            Some(SearchSort::Copies) => SortOrder::Copies,
            Some(SearchSort::Type) => SortOrder::Type,
            Some(SearchSort::Relevance) => SortOrder::Relevance,
            _ => SortOrder::Date,
        },
{
    match sort {
        Some(SearchSort::Date) => SortOrder::Date,
        Some(SearchSort::Copies) => SortOrder::Copies,
        Some(SearchSort::Type) => SortOrder::Type,
        Some(SearchSort::Relevance) => SortOrder::Relevance,
        None => SortOrder::Date,
    }
}

/// The selection filter of the command-line flags and `--kind`: kinds from
/// both, HTML and RTF as format fragments.
pub fn build_selection_filter(filters: &FilterFlags, kind: Option<EntryKind>) -> (r: SelectionFilter)
    ensures
        r.include_text == (filters.text || kind == Some(EntryKind::Text)),
        r.include_image == (filters.image || kind == Some(EntryKind::Image)),
        r.include_file == (filters.file || kind == Some(EntryKind::File)),
        r.include_other == (kind == Some(EntryKind::Other)),
        !r.include_html,
        crate::model::strs(r.include_formats@) == (if filters.html {
            seq!["html"@]
        } else {
            Seq::empty()
        }) + (if filters.rtf {
            seq!["rtf"@]
        } else {
            Seq::empty()
        }),
{
    let mut selection = SelectionFilter::default();
    if filters.text || kind == Some(EntryKind::Text) {
        selection.include_text = true;
    }
    if filters.image || kind == Some(EntryKind::Image) {
        selection.include_image = true;
    }
    if filters.file || kind == Some(EntryKind::File) {
        selection.include_file = true;
    }
    if kind == Some(EntryKind::Other) {
        selection.include_other = true;
    }
    if filters.html {
        selection.include_formats.push(owned("html"));
    }
    if filters.rtf {
        selection.include_formats.push(owned("rtf"));
    }
    assert(crate::model::strs(selection.include_formats@) =~= (if filters.html {
        seq!["html"@]
    } else {
        Seq::empty()
    }) + (if filters.rtf {
        seq!["rtf"@]
    } else {
        Seq::empty()
    }));
    selection
}

/// A query shortcut's filter widened by the command-line flags: every kind
/// either selects, and the format fragments of both.
pub fn combine_filters(parsed: SelectionFilter, extra: SelectionFilter) -> (r: SelectionFilter)
    ensures
        r.include_text == (parsed.include_text || extra.include_text),
        r.include_image == (parsed.include_image || extra.include_image),
        r.include_file == (parsed.include_file || extra.include_file),
        r.include_other == (parsed.include_other || extra.include_other),
        r.include_html == (parsed.include_html || extra.include_html),
        r.include_formats@ == parsed.include_formats@ + extra.include_formats@,
{
    let mut selection = parsed;
    if extra.include_text {
        selection.include_text = true;
    }
    if extra.include_image {
        selection.include_image = true;
    }
    if extra.include_file {
        selection.include_file = true;
    }
    if extra.include_other {
        selection.include_other = true;
    }
    if extra.include_html {
        selection.include_html = true;
    }
    let mut more = extra.include_formats;
    selection.include_formats.append(&mut more);
    selection
}

/// The plugin whose view `show` prefers, from the flags: files, HTML, RTF,
/// text, image, in that order.
pub fn preferred_display_plugin(filters: &FilterFlags) -> (r: Option<&'static str>)
    ensures
        r matches Some(p) ==> p@ == if filters.file {
            "files"@
        } else if filters.html {
            "html"@
        } else if filters.rtf {
            "rtf"@
        } else if filters.text {
            "text"@
        } else {
            "image"@
        },
        r is None == (!filters.file && !filters.html && !filters.rtf && !filters.text
            && !filters.image),
{
    if filters.file {
        return Some("files");
    }
    if filters.html {
        return Some("html");
    }
    if filters.rtf {
        return Some("rtf");
    }
    if filters.text {
        return Some("text");
    }
    if filters.image {
        return Some("image");
    }
    None
}

/// `"yes"` or `"no"`.
pub fn bool_word(flag: bool) -> (r: &'static str)
    ensures
        r@ == if flag {
            "yes"@
        } else {
            "no"@
        },
{
    if flag {
        "yes"
    } else {
        "no"
    }
}

/// A summary on one line: line breaks become spaces, outer whitespace goes,
/// and nothing left reads `(empty)`.
pub open spec fn clean_summary_spec(input: Seq<char>) -> Seq<char> {
    let t = trim(flatten_lines(input));
    if t.len() == 0 {
        "(empty)"@
    } else {
        t
    }
}

/// A summary on one line.
pub fn clean_summary(input: &str) -> (r: String)
    ensures
        r@ == clean_summary_spec(input@),
{
    let clean = flattened(input);
    let t = trimmed(clean.as_str());
    if t.as_str().is_empty() {
        owned("(empty)")
    } else {
        t
    }
}

/// The start of a history line: `"<index> (<global>) [<time> x<copies>]   "`.
pub open spec fn line_prefix(index: nat, global: nat, timestamp: Seq<char>, copies: nat) -> Seq<
    char,
> {
    decimal(index) + " ("@ + decimal(global) + ") ["@ + timestamp + " x"@ + decimal(copies)
        + "]   "@
}

/// The start of a history line.
pub fn history_line_prefix(index: usize, global_index: usize, timestamp: &str, copies: u64) -> (r:
    String)
    ensures
        r@ == line_prefix(index as nat, global_index as nat, timestamp@, copies as nat),
{
    let a = usize_to_string(index);
    let b = concat(a.as_str(), " (");
    let g = usize_to_string(global_index);
    let c = concat(b.as_str(), g.as_str());
    let d = concat(c.as_str(), ") [");
    let e = concat(d.as_str(), timestamp);
    let f = concat(e.as_str(), " x");
    let n = u64_to_string(copies);
    let h = concat(f.as_str(), n.as_str());
    concat(h.as_str(), "]   ")
}

/// A summary cut to what is left of the terminal width after the line's
/// prefix: nothing when the prefix fills it; cut with `...` when too long.
pub open spec fn clip_spec(clean: Seq<char>, width: nat, prefix_len: nat) -> Seq<char> {
    if width <= prefix_len {
        Seq::empty()
    } else {
        let avail = (width - prefix_len) as nat;
        if clean.len() <= avail {
            clean
        } else if avail <= 3 {
            clean.take(avail as int)
        } else {
            clean.take(avail - 3) + "..."@
        }
    }
}

/// Law: a history line fits the terminal.  When the prefix leaves room,
/// prefix and clipped summary together take at most the terminal width; a
/// summary that fits is shown whole, one that does not fills the room
/// exactly, with its start kept; when the prefix leaves no room, nothing of
/// the summary is shown.
pub proof fn law_history_line_fits_terminal(clean: Seq<char>, width: nat, prefix_len: nat)
    ensures
        width > prefix_len ==> prefix_len + clip_spec(clean, width, prefix_len).len() <= width,
        prefix_len + clean.len() <= width ==> clip_spec(clean, width, prefix_len) == clean,
        prefix_len + clean.len() > width && width > prefix_len ==> prefix_len + clip_spec(
            clean,
            width,
            prefix_len,
        ).len() == width,
        width > prefix_len + 3 && prefix_len + clean.len() > width ==> clip_spec(
            clean,
            width,
            prefix_len,
        ).take(width - prefix_len - 3) == clean.take(width - prefix_len - 3),
        width <= prefix_len ==> clip_spec(clean, width, prefix_len).len() == 0,
{
    reveal_strlit("...");
    if width > prefix_len + 3 && prefix_len + clean.len() > width {
        let k = width - prefix_len - 3;
        assert(clip_spec(clean, width, prefix_len).take(k) =~= clean.take(k));
    }
}

/// A history summary fitted to the terminal width.
pub fn clip_summary_to_width(
    input: &str,
    terminal_width: usize,
    index: usize,
    timestamp: &str,
    copies: u64,
    global_index: usize,
) -> (r: String)
    ensures
        r@ == clip_spec(
            clean_summary_spec(input@),
            terminal_width as nat,
            line_prefix(index as nat, global_index as nat, timestamp@, copies as nat).len(),
        ),
{
    let clean = clean_summary(input);
    let prefix = history_line_prefix(index, global_index, timestamp, copies);
    let prefix_len = chars_of(prefix.as_str()).len();
    if terminal_width <= prefix_len {
        return String::new();
    }
    let available = terminal_width - prefix_len;
    let cs = chars_of(clean.as_str());
    if cs.len() <= available {
        return clean;
    }
    if available <= 3 {
        return string_from_chars(&cs[0..available]);
    }
    let head = string_from_chars(&cs[0..available - 3]);
    concat(head.as_str(), "...")
}

/// A whole history line: prefix, then the summary.
pub fn history_line(index: usize, global_index: usize, timestamp: &str, copies: u64, summary: &str) -> (r: String)
    ensures
        r@ == line_prefix(index as nat, global_index as nat, timestamp@, copies as nat) + summary@,
{
    let prefix = history_line_prefix(index, global_index, timestamp, copies);
    concat(prefix.as_str(), summary)
}

} // verus!
