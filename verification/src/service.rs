//! The background service that watches the clipboard: its status, the
//! unit, agent and task definitions that install it on each platform, and
//! what is read back from the platform's service manager.  Running the
//! platform's tools is left to the caller.

use vstd::prelude::*;
use crate::layout::{join, join_spec};
use crate::text::{
    concat, join_strings, joined_with, split_char, split_spec, str_contains,
    str_starts_with, contains_seq, starts_with_seq, trim, trim_start, trimmed, usize_to_string,
    decimal,
};
use crate::model::strs;

verus! {

/// Whether the service is installed and running, with details to show.
pub struct ServiceStatus {
    pub installed: bool,
    pub running: bool,
    pub details: Vec<(String, String)>,
}

impl ServiceStatus {
    /// A status with no details.
    pub fn new(installed: bool, running: bool) -> (r: ServiceStatus)
        ensures
            r.installed == installed,
            r.running == running,
            r.details@.len() == 0,
    {
        ServiceStatus { installed, running, details: Vec::new() }
    }

    /// The status with one more detail at the end.
    pub fn with_detail(self, key: String, value: String) -> (r: ServiceStatus)
        ensures
            r.installed == self.installed,
            r.running == self.running,
            r.details@ == self.details@.push((key, value)),
    {
        let mut s = self;
        s.details.push((key, value));
        s
    }
}

/// Starting or stopping the service needs it installed.
pub fn ensure_installed(status: &ServiceStatus) -> (r: Result<(), String>)
    ensures
        status.installed <==> r is Ok,
        r matches Err(e) ==> e@
            == "Service is not installed. Run `get_clipboard service install` first."@,
{
    if !status.installed {
        return Err("Service is not installed. Run `get_clipboard service install` first.".to_string());
    }
    Ok(())
}

/// The service's log file, in the configuration directory.
pub fn log_file_path(config_dir: &str) -> (r: String)
    ensures
        r@ == join_spec(config_dir@, "service.log"@),
{
    join(config_dir, "service.log")
}

/// The systemd user unit that runs `watch`, logging to `log_path`.
pub open spec fn unit_spec(exe: Seq<char>, started: Seq<char>, log: Seq<char>) -> Seq<char> {
    "[Unit]\nDescription=get_clipboard clipboard watcher\nAfter=default.target\n\n[Service]\nExecStart="@
        + exe + " watch\nRestart=always\nEnvironment=GET_CLIPBOARD_STARTED="@ + started
        + "\nStandardOutput=append:"@ + log + "\nStandardError=append:"@ + log
        + "\n\n[Install]\nWantedBy=default.target\n"@
}

/// The systemd unit for the service.
pub fn build_unit(exe: &str, started: &str, log_path: &str) -> (r: String)
    ensures
        r@ == unit_spec(exe@, started@, log_path@),
{
    let mut r = concat(
        "[Unit]\nDescription=get_clipboard clipboard watcher\nAfter=default.target\n\n[Service]\nExecStart=",
        exe,
    );
    r.append(" watch\nRestart=always\nEnvironment=GET_CLIPBOARD_STARTED=");
    r.append(started);
    r.append("\nStandardOutput=append:");
    r.append(log_path);
    r.append("\nStandardError=append:");
    r.append(log_path);
    r.append("\n\n[Install]\nWantedBy=default.target\n");
    r
}

/// The label of the launch agent.
pub const LABEL: &'static str = "com.clippith.get_clipboard";

/// A launch agent property list that runs the executable with `args`
/// (already written as `<string>` elements), keeps it alive and logs to
/// `log`.
pub open spec fn plist_spec(exe: Seq<char>, args: Seq<char>, log: Seq<char>, started: Seq<char>) -> Seq<char> {
    "<?xml version=\"1.0\" encoding=\"UTF-8\"?>\n<!DOCTYPE plist PUBLIC \"-//Apple//DTD PLIST 1.0//EN\" \"http://www.apple.com/DTDs/PropertyList-1.0.dtd\">\n<plist version=\"1.0\">\n<dict>\n    <key>Label</key>\n    <string>com.clippith.get_clipboard</string>\n    <key>ProgramArguments</key>\n    <array>\n        <string>"@
        + exe + "</string>\n"@ + args
        + "    </array>\n    <key>RunAtLoad</key>\n    <true/>\n    <key>KeepAlive</key>\n    <true/>\n    <key>StandardErrorPath</key>\n    <string>"@
        + log + "</string>\n    <key>StandardOutPath</key>\n    <string>"@ + log
        + "</string>\n    <key>EnvironmentVariables</key>\n    <dict>\n        <key>GET_CLIPBOARD_STARTED</key>\n        <string>"@
        + started + "</string>\n    </dict>\n</dict>\n</plist>\n"@
}

fn build_plist_with(exe: &str, args: &str, log_path: &str, started: &str) -> (r: String)
    ensures
        r@ == plist_spec(exe@, args@, log_path@, started@),
{
    let mut r = concat(
        "<?xml version=\"1.0\" encoding=\"UTF-8\"?>\n<!DOCTYPE plist PUBLIC \"-//Apple//DTD PLIST 1.0//EN\" \"http://www.apple.com/DTDs/PropertyList-1.0.dtd\">\n<plist version=\"1.0\">\n<dict>\n    <key>Label</key>\n    <string>com.clippith.get_clipboard</string>\n    <key>ProgramArguments</key>\n    <array>\n        <string>",
        exe,
    );
    r.append("</string>\n");
    r.append(args);
    r.append(
        "    </array>\n    <key>RunAtLoad</key>\n    <true/>\n    <key>KeepAlive</key>\n    <true/>\n    <key>StandardErrorPath</key>\n    <string>",
    );
    r.append(log_path);
    r.append("</string>\n    <key>StandardOutPath</key>\n    <string>");
    r.append(log_path);
    r.append(
        "</string>\n    <key>EnvironmentVariables</key>\n    <dict>\n        <key>GET_CLIPBOARD_STARTED</key>\n        <string>",
    );
    r.append(started);
    r.append("</string>\n    </dict>\n</dict>\n</plist>\n");
    r
}

/// The macOS launch agent, which serves the API on port 3016.
pub fn build_plist(exe: &str, log_path: &str, started: &str) -> (r: String)
    ensures
        r@ == plist_spec(
            exe@,
            "        <string>api</string>\n        <string>--port</string>\n        <string>3016</string>\n"@,
            log_path@,
            started@,
        ),
{
    build_plist_with(
        exe,
        "        <string>api</string>\n        <string>--port</string>\n        <string>3016</string>\n",
        log_path,
        started,
    )
}

/// The launchd agent that runs `watch`.
pub fn build_watch_plist(exe: &str, log_path: &str, started: &str) -> (r: String)
    ensures
        r@ == plist_spec(exe@, "        <string>watch</string>\n"@, log_path@, started@),
{
    build_plist_with(exe, "        <string>watch</string>\n", log_path, started)
}

/// The name of the Windows scheduled task.
pub const TASK_NAME: &'static str = "ClippyGetClipboard";

/// The command of the Windows scheduled task: `watch`, appending its
/// output to the log.
pub fn task_command(exe: &str, log_path: &str) -> (r: String)
    ensures
        r@ == "cmd /C \"\\\""@ + exe@ + "\\\" watch >> \\\""@ + log_path@ + "\\\" 2>&1\""@,
{
    let mut r = concat("cmd /C \"\\\"", exe);
    r.append("\\\" watch >> \\\"");
    r.append(log_path);
    r.append("\\\" 2>&1\"");
    r
}

/// A path quoted for a single-quoted PowerShell string: each `'` doubled.
pub open spec fn ps_escaped(s: Seq<char>) -> Seq<char>
    decreases s.len(),
{
    if s.len() == 0 {
        s
    } else if s.last() == '\'' {
        ps_escaped(s.drop_last()).push('\'').push('\'')
    } else {
        ps_escaped(s.drop_last()).push(s.last())
    }
}

/// The path with each `'` doubled.
pub fn escape_powershell_path(path: &str) -> (r: String)
    ensures
        r@ == ps_escaped(path@),
{
    let cs = crate::text::chars_of(path);
    let mut out: Vec<char> = Vec::new();
    let mut i: usize = 0;
    while i < cs.len()
        invariant
            i <= cs.len(),
            out@ == ps_escaped(cs@.take(i as int)),
        decreases cs.len() - i,
    {
        assert(cs@.take(i + 1).drop_last() =~= cs@.take(i as int));
        if cs[i] == '\'' {
            out.push('\'');
            out.push('\'');
            assert(out@ =~= ps_escaped(cs@.take(i + 1)));
        } else {
            out.push(cs[i]);
        }
        i = i + 1;
    }
    assert(cs@.take(cs.len() as int) =~= cs@);
    crate::text::string_from_chars(&out)
}

/// The PowerShell script that shows the last lines of the log, and
/// follows it when asked.
pub fn tail_script(escaped: &str, lines: usize, follow: bool) -> (r: String)
    ensures
        r@ == "Get-Content -Path '"@ + escaped@ + "' -Tail "@ + decimal(lines as nat) + (if follow {
            " -Wait"@
        } else {
            Seq::empty()
        }),
{
    let mut r = concat("Get-Content -Path '", escaped);
    r.append("' -Tail ");
    r.append(usize_to_string(lines).as_str());
    if follow {
        r.append(" -Wait");
    }
    r
}

/// Drops one carriage return at the end of a line.
pub open spec fn strip_cr(l: Seq<char>) -> Seq<char> {
    if l.len() > 0 && l.last() == '\r' {
        l.drop_last()
    } else {
        l
    }
}

/// The lines of a text (`str::lines`): split at line feeds, a carriage
/// return before a line feed dropped, no last empty line.
pub open spec fn lines_spec(s: Seq<char>) -> Seq<Seq<char>> {
    let p = split_spec(s, '\n').map_values(|l: Seq<char>| strip_cr(l));
    if s.len() == 0 || s.last() == '\n' {
        p.drop_last()
    } else {
        p
    }
}

fn without_cr(l: String) -> (r: String)
    ensures
        r@ == strip_cr(l@),
{
    let cs = crate::text::chars_of(l.as_str());
    if cs.len() > 0 && cs[cs.len() - 1] == '\r' {
        let r = crate::text::string_from_chars(&cs[0..cs.len() - 1]);
        assert(cs@.subrange(0, cs.len() - 1) =~= l@.drop_last());
        r
    } else {
        l
    }
}

/// The lines of a text.
pub fn text_lines(s: &str) -> (r: Vec<String>)
    ensures
        strs(r@) == lines_spec(s@),
{
    let pieces = split_char(s, '\n');
    let mut out: Vec<String> = Vec::new();
    let mut i: usize = 0;
    while i < pieces.len()
        invariant
            i <= pieces.len(),
            out@.len() == i,
            forall|j: int| 0 <= j < i ==> #[trigger] out@[j]@ == strip_cr(pieces@[j]@),
        decreases pieces.len() - i,
    {
        out.push(without_cr(pieces[i].clone()));
        i = i + 1;
    }
    let ghost p = split_spec(s@, '\n').map_values(|l: Seq<char>| strip_cr(l));
    assert(strs(out@) =~= p);
    let cs = crate::text::chars_of(s);
    if cs.len() == 0 || cs[cs.len() - 1] == '\n' {
        proof {
            crate::text::lemma_split_nonempty(s@, '\n');
        }
        out.pop();
        assert(strs(out@) =~= p.drop_last());
    }
    out
}

/// The first `n` lines of a text joined with ` | `.
pub open spec fn snippet_of(s: Seq<char>, n: nat) -> Seq<char> {
    let ls = lines_spec(s);
    joined_with(ls.take(if ls.len() < n { ls.len() as int } else { n as int }), " | "@)
}

/// The first `n` lines of the service manager's report, on one line.
pub fn status_snippet(output: &str, n: usize) -> (r: String)
    ensures
        r@ == snippet_of(output@, n as nat),
{
    let ls = text_lines(output);
    let k: usize = if ls.len() < n { ls.len() } else { n };
    let mut first: Vec<String> = Vec::new();
    let mut i: usize = 0;
    while i < k
        invariant
            k <= ls.len(),
            i <= k,
            first@.len() == i,
            forall|j: int| 0 <= j < i ==> #[trigger] first@[j]@ == ls@[j]@,
        decreases k - i,
    {
        first.push(ls[i].clone());
        i = i + 1;
    }
    assert(first@.map_values(|p: String| p@) =~= strs(ls@).take(k as int));
    join_strings(&first, " | ")
}

/// What the Windows task report says: whether a `Status:` line mentions
/// `Running`, and each `Status:` and `Last Run Time:` line, trimmed.
pub open spec fn task_details_spec(ls: Seq<Seq<char>>) -> (bool, Seq<(Seq<char>, Seq<char>)>)
    decreases ls.len(),
{
    if ls.len() == 0 {
        (false, Seq::empty())
    } else {
        let (running, details) = task_details_spec(ls.drop_last());
        let l = ls.last();
        let is_status = starts_with_seq(trim_start(l), "Status:"@);
        let is_last = starts_with_seq(trim_start(l), "Last Run Time:"@);
        let running2 = running || (is_status && contains_seq(l, "Running"@));
        let d1 = if is_status { details.push(("status"@, trim(l))) } else { details };
        let d2 = if is_last { d1.push(("last_run"@, trim(l))) } else { d1 };
        (running2, d2)
    }
}

/// Whether the Windows task runs, and the details its report gives.
pub fn task_details(report: &str) -> (r: (bool, Vec<(String, String)>))
    ensures
        r.0 == task_details_spec(lines_spec(report@)).0,
        r.1@.map_values(|d: (String, String)| (d.0@, d.1@)) == task_details_spec(lines_spec(report@)).1,
{
    let ls = text_lines(report);
    let ghost sl = strs(ls@);
    let mut running = false;
    let mut details: Vec<(String, String)> = Vec::new();
    let mut i: usize = 0;
    while i < ls.len()
        invariant
            i <= ls.len(),
            sl == strs(ls@),
            (running, details@.map_values(|d: (String, String)| (d.0@, d.1@))) == task_details_spec(
                sl.take(i as int),
            ),
        decreases ls.len() - i,
    {
        assert(sl.take(i + 1).drop_last() =~= sl.take(i as int));
        assert(sl.take(i + 1).last() == ls@[i as int]@);
        let line = ls[i].as_str();
        let head = crate::text::trimmed_start(line);
        let is_status = str_starts_with(head.as_str(), "Status:");
        let is_last = str_starts_with(head.as_str(), "Last Run Time:");
        if is_status && str_contains(line, "Running") {
            running = true;
        }
        if is_status {
            let ghost before = details@;
            details.push(("status".to_string(), trimmed(line)));
            assert(details@.map_values(|d: (String, String)| (d.0@, d.1@)) =~= before.map_values(
                |d: (String, String)| (d.0@, d.1@),
            ).push(("status"@, trim(line@))));
        }
        if is_last {
            let ghost before = details@;
            details.push(("last_run".to_string(), trimmed(line)));
            assert(details@.map_values(|d: (String, String)| (d.0@, d.1@)) =~= before.map_values(
                |d: (String, String)| (d.0@, d.1@),
            ).push(("last_run"@, trim(line@))));
        }
        i = i + 1;
    }
    assert(sl.take(ls.len() as int) =~= sl);
    (running, details)
}

/// Whether the process may post keyboard events.  Only macOS asks for
/// that permission; elsewhere it is always granted.
pub fn check_accessibility() -> (r: bool)
    ensures
        r,
{
    true
}

/// The command-line tool runs on macOS only.
pub fn assert_macos(os: &str) -> (r: Result<(), String>)
    ensures
        os@ == "macos"@ <==> r is Ok,
        r matches Err(e) ==> e@ == "get_clipboard supports macOS only"@,
{
    if crate::text::str_eq(os, "macos") {
        Ok(())
    } else {
        Err("get_clipboard supports macOS only".to_string())
    }
}

} // verus!
