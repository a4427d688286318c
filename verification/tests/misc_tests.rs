use get_clipboard::api_urls::{items_url, stats_url};
use get_clipboard::cli::{bool_word, clean_summary, history_line};
use get_clipboard::config::{check_move, config_paths_from, set_data_dir, AppConfig, PruneDirective, PrunePolicy};
use get_clipboard::index::{index_from_journal, load_index, refresh_index, replay_journal, IndexState, SearchIndex};
use get_clipboard::layout::{item_dir, join, relative_path_for_hash};
use get_clipboard::model::{EntryKind, JournalEntry, SearchIndexRecord};
use get_clipboard::numfmt::{human_kb, human_size};
use get_clipboard::selector::{resolve_selector, Selector, SelectorError};
use get_clipboard::search::SelectionFilter;
use get_clipboard::service::{
    assert_macos, build_unit, ensure_installed, escape_powershell_path, log_file_path,
    status_snippet, task_command, task_details, ServiceStatus,
};
use get_clipboard::settings::parse_shortcut;
use get_clipboard::timefmt::{first_second_from, format_human, format_iso, last_second_to, now, parse_absolute_date, parse_date, parse_date_at};
use get_clipboard::unsupported;

fn rec(hash: &str, last_seen: i64, kind: EntryKind) -> SearchIndexRecord {
    SearchIndexRecord {
        hash: hash.to_string(),
        last_seen,
        kind,
        copy_count: 1,
        summary: Some(format!("item {hash}")),
        search_text: None,
        detected_formats: vec![],
        byte_size: 5,
        relative_path: relative_path_for_hash(hash),
    }
}

#[test]
fn human_sizes_match_float_formatting() {
    for n in [0u64, 1, 1023, 1024, 1535, 1536, 2047, 5000, 1048575, 1048576, 123456789, 1073741824, 9_999_999_999, 1 << 50, u64::MAX] {
        let v = n as f64;
        let expected = if v >= 1073741824.0 {
            format!("{:.2} GB", v / 1073741824.0)
        } else if v >= 1048576.0 {
            format!("{:.2} MB", v / 1048576.0)
        } else if v >= 1024.0 {
            format!("{:.2} KB", v / 1024.0)
        } else {
            format!("{} B", n)
        };
        assert_eq!(human_size(n), expected, "size {n}");
        assert_eq!(human_kb(n), format!("{:.1} KB", n as f64 / 1024.0), "kb {n}");
    }
    for n in (0u64..200_000).step_by(37) {
        assert_eq!(human_kb(n), format!("{:.1} KB", n as f64 / 1024.0), "kb {n}");
        if n >= 1024 {
            assert_eq!(human_size(n), format!("{:.2} KB", n as f64 / 1024.0), "size {n}");
        }
    }
}

#[test]
fn times() {
    assert_eq!(format_human(0), "1970-01-01 00:00:00");
    assert_eq!(format_human(1_700_000_000), "2023-11-14 22:13:20");
    assert!(format_iso(0).starts_with("1970-01-01T00:00:00"));
    assert_eq!(parse_date("2024-01-02"), Ok((1_704_153_600, 0)));
    assert_eq!(parse_date("2024-01-02T00:00:00Z"), Ok((1_704_153_600, 0)));
    assert_eq!(parse_date("nonsense"), Err("Unable to parse date: nonsense".to_string()));
}

#[test]
fn pruning() {
    let mut config = AppConfig::default();
    assert!(config.should_prune_at(10, 1000).is_none());
    config.pruning = Some(PrunePolicy::MaxCount { count: 3 });
    assert!(matches!(config.should_prune_at(10, 1000), Some(PruneDirective::ByCount(7))));
    assert!(config.should_prune_at(3, 1000).is_none());
    config.pruning = Some(PrunePolicy::MaxAge { days: 2 });
    assert!(matches!(config.should_prune_at(0, 1_000_000), Some(PruneDirective::ByDate(t)) if t == 1_000_000 - 172_800));
    assert!(matches!(config.should_prune(0), Ok(Some(PruneDirective::ByDate(_)))));
    config.pruning = Some(PrunePolicy::MaxAge { days: u64::MAX / 2 });
    assert_eq!(config.should_prune(0).err(), Some("Pruning age is out of range".to_string()));
    assert!(matches!(PrunePolicy::default(), PrunePolicy::MaxCount { count } if count == usize::MAX));
}

#[test]
fn data_dir_settings() {
    let c = set_data_dir(None, "/data".to_string());
    assert_eq!(c.override_data_dir.as_deref(), Some("/data"));
    assert_eq!(c.data_dir().as_deref(), Some("/data"));
    assert_eq!(check_move("/a/b", "/a/b/"), Err("Directory already set to /a/b".to_string()));
    assert_eq!(check_move("/a/b", "/a/c"), Ok(()));
}

#[test]
fn services() {
    let s = ServiceStatus::new(false, false);
    assert_eq!(ensure_installed(&s), Err("Service is not installed. Run `get_clipboard service install` first.".to_string()));
    let s = ServiceStatus::new(true, true).with_detail("log".into(), "/x".into());
    assert_eq!(ensure_installed(&s), Ok(()));
    assert_eq!(s.details.len(), 1);
    assert_eq!(log_file_path("/cfg"), "/cfg/service.log");
    assert!(build_unit("/bin/gc", "now", "/l").contains("ExecStart=/bin/gc watch\n"));
    assert_eq!(escape_powershell_path("it's"), "it''s");
    assert_eq!(task_command("C:\\gc.exe", "C:\\l.log"), "cmd /C \"\\\"C:\\gc.exe\\\" watch >> \\\"C:\\l.log\\\" 2>&1\"");
    assert_eq!(status_snippet("a\r\nb\nc\n", 2), "a | b");
    assert_eq!(status_snippet("", 5), "");
    let (running, details) = task_details("Folder: \\\n  Status:   Running\nLast Run Time: today\n");
    assert!(running);
    assert_eq!(details, vec![("status".to_string(), "Status:   Running".to_string()), ("last_run".to_string(), "Last Run Time: today".to_string())]);
    assert_eq!(assert_macos("macos"), Ok(()));
    assert_eq!(assert_macos("linux"), Err("get_clipboard supports macOS only".to_string()));
    assert_eq!(unsupported::start_agent(), Err("Service management is not supported on this platform".to_string()));
    assert!(unsupported::service_status().is_err());
}

#[test]
fn layout_paths() {
    assert_eq!(join("/data", "objects"), "/data/objects");
    assert_eq!(join("/data/", "x"), "/data/x");
    assert_eq!(join("/data", "/abs"), "/abs");
    assert_eq!(item_dir("/d", "abcdef"), "/d/objects/ab/cd/abcdef");
    assert_eq!(relative_path_for_hash("abcdef"), "objects/ab/cd/abcdef");
}

#[test]
fn selectors() {
    let index = SearchIndex::from_records(vec![rec("aaaaaa01", 10, EntryKind::Text), rec("aaaaaa02", 30, EntryKind::Image)]);
    let all = SelectionFilter::default();
    assert_eq!(resolve_selector(&index, "0", &all).ok(), Some("aaaaaa02".to_string()));
    assert_eq!(resolve_selector(&index, "aaaaaa01", &all).ok(), Some("aaaaaa01".to_string()));
    assert!(matches!(resolve_selector(&index, "7", &all), Err(SelectorError::NoEntryAt(7))));
    assert!(matches!(resolve_selector(&index, "xy", &all), Err(SelectorError::InvalidSelector(_))));
    let mut images = SelectionFilter::default();
    images.include_text = true;
    assert!(matches!(resolve_selector(&index, "aaaaaa02", &images), Err(SelectorError::FilterMismatch)));
    assert_eq!(resolve_selector(&index, "0", &images).ok(), Some("aaaaaa01".to_string()));
    assert!(matches!(Selector::parse("12"), Selector::Offset(12)));
    assert!(matches!(Selector::parse("abcdef"), Selector::Hash(_)));
}

#[test]
fn journal_replay() {
    let mut index = SearchIndex::new();
    let a = rec("aaaaaa01", 10, EntryKind::Text);
    let entries = vec![
        JournalEntry::from_record(&a),
        JournalEntry::from_record(&rec("aaaaaa02", 20, EntryKind::Text)),
        JournalEntry::delete("aaaaaa01"),
    ];
    replay_journal(&mut index, &entries);
    assert_eq!(index.len(), 1);
    assert!(index.get("aaaaaa01").is_none());
    assert_eq!(index.get("aaaaaa02").map(|r| r.last_seen), Some(20));
    let mut state = IndexState::new(index);
    state.insert_record(rec("aaaaaa03", 40, EntryKind::File));
    assert_eq!(state.sorted_hashes(), vec!["aaaaaa03".to_string(), "aaaaaa02".to_string()]);
    state.remove_record("aaaaaa03");
    assert_eq!(state.sorted_hashes(), vec!["aaaaaa02".to_string()]);
    for _ in 0..499 {
        assert!(!state.note_journal_append());
    }
    assert!(state.note_journal_append());
    state.reset_journal();
    assert!(!state.note_journal_append());
}

#[test]
fn shortcuts() {
    let sc = parse_shortcut("Control+Shift+P").unwrap();
    assert!(sc.mods.unwrap().control && sc.mods.unwrap().shift);
    assert!(parse_shortcut("Control+NoSuchKey").is_err());
}

#[test]
fn command_line_text() {
    assert_eq!(bool_word(true), "yes");
    assert_eq!(clean_summary(" \n "), "(empty)");
    assert_eq!(clean_summary(" a\nb "), "a b");
    assert_eq!(history_line(0, 3, "01/02@03:04", 2, "hi"), "0 (3) [01/02@03:04 x2]   hi");
    assert!(stats_url().ends_with("/stats"));
    assert!(items_url(5).ends_with("/items?count=5"));
}

#[test]
fn config_paths_from_puts_config_file_in_config_dir() {
    let p = config_paths_from("/home/u/.config/get_clipboard".to_string(), "/home/u/.local/share/get_clipboard".to_string());
    assert_eq!(p.config_file, "/home/u/.config/get_clipboard/config.json");
    assert_eq!(p.config_dir, "/home/u/.config/get_clipboard");
    assert_eq!(p.data_dir, "/home/u/.local/share/get_clipboard");
    let q = config_paths_from("/etc/".to_string(), String::new());
    assert_eq!(q.config_file, "/etc/config.json");
}

#[test]
fn relative_dates_count_back_from_now() {
    let now: i64 = 1_700_000_000;
    assert_eq!(parse_date_at("1d", now), Ok((now - 86_400, 0)));
    assert_eq!(parse_date_at("12h", now), Ok((now - 12 * 3_600, 0)));
    assert_eq!(parse_date_at("30m", now), Ok((now - 1_800, 0)));
    assert_eq!(parse_date_at("45s", now), Ok((now - 45, 0)));
    assert_eq!(parse_date_at("2w", now), Ok((now - 2 * 604_800, 0)));
    assert_eq!(parse_date_at("+3d", now), Ok((now - 3 * 86_400, 0)));
    assert_eq!(parse_date_at("d", now), Err("Unable to parse date: d".to_string()));
    assert_eq!(parse_date_at("1y", now), Err("Unable to parse date: 1y".to_string()));
    assert_eq!(parse_date_at("2024-01-02", now), Ok((1_704_153_600, 0)));
    assert_eq!(parse_date_at("99999999999999999d", i64::MIN / 2), Err("Unable to parse date: 99999999999999999d".to_string()));
}

#[test]
fn relative_date_uses_current_time() {
    let before = now();
    let (t, _) = parse_date("1d").unwrap();
    let after = now();
    assert!(before - 86_400 <= t && t <= after - 86_400);
    assert_eq!(parse_absolute_date("1d"), Err("Unable to parse date: 1d".to_string()));
}

#[test]
fn data_dir_prefers_override_then_platform() {
    let mut config = AppConfig::default();
    let paths = || Some(config_paths_from("/c".to_string(), "/platform/data".to_string()));
    assert_eq!(config.data_dir_with(paths()), Some("/platform/data".to_string()));
    assert_eq!(config.data_dir_with(None), None);
    config.override_data_dir = Some("/mine".to_string());
    assert_eq!(config.data_dir_with(paths()), Some("/mine".to_string()));
    assert_eq!(config.data_dir(), Some("/mine".to_string()));
}

#[test]
fn fractional_bounds_round_to_whole_seconds() {
    let m = parse_date("2024-01-02T00:00:00.5Z").unwrap();
    assert_eq!(m, (1_704_153_600, 500_000_000));
    assert_eq!(first_second_from(m), 1_704_153_601);
    assert_eq!(last_second_to(m), 1_704_153_600);
    assert!(parse_date("2024-01-02 00:00:00").is_err());
    let whole = parse_date("2024-01-02").unwrap();
    assert_eq!(whole, (1_704_153_600, 0));
    assert_eq!(first_second_from(whole), 1_704_153_600);
    assert_eq!(last_second_to(whole), 1_704_153_600);
    let before_epoch = parse_date("1969-12-31T23:59:59.25Z").unwrap();
    assert_eq!(before_epoch, (-1, 250_000_000));
    assert_eq!(first_second_from(before_epoch), 0);
    assert_eq!(last_second_to(before_epoch), -1);
}

#[test]
fn refresh_replays_journal_over_snapshot() {
    let snapshot = vec![rec("aaaaaa01", 10, EntryKind::Text), rec("aaaaaa02", 20, EntryKind::Image)];
    let lines = vec![
        JournalEntry::delete("aaaaaa01"),
        JournalEntry::from_record(&rec("aaaaaa03", 30, EntryKind::Text)),
        JournalEntry::from_record(&rec("aaaaaa02", 50, EntryKind::Image)),
    ];
    let built = index_from_journal(snapshot.iter().map(|r| r.duplicate()).collect(), &lines);
    assert_eq!(built.len(), 2);
    assert_eq!(built.get("aaaaaa02").map(|r| r.last_seen), Some(50));
    let mut state = IndexState::new(SearchIndex::new());
    state.note_journal_append();
    refresh_index(&mut state, snapshot, &lines);
    let index = load_index(&state);
    assert!(index.get("aaaaaa01").is_none());
    assert_eq!(index.get("aaaaaa03").map(|r| r.last_seen), Some(30));
    assert_eq!(state.sorted_hashes(), vec!["aaaaaa02".to_string(), "aaaaaa03".to_string()]);
}
