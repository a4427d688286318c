use get_clipboard::index::SearchIndex;
use get_clipboard::json::Json;
use get_clipboard::layout::relative_path_for_hash;
use get_clipboard::model::{EntryKind, EntryMetadata, SearchIndexRecord};
use get_clipboard::search::SearchHit;
use get_clipboard::stats::{compute_stats, pad_right, stats_lines, summary_cell};
use get_clipboard::store::{history_item, HistoryItem, ItemPreview};
use get_clipboard::tui::{copy_status, default_status, truncate_display, AppState, KeyCode, KeyInput, TuiAction};
use get_clipboard::web::{add_link, add_meta, parse_meta, RawMeta};

fn rec(hash: &str, last_seen: i64, kind: EntryKind, size: u64) -> SearchIndexRecord {
    SearchIndexRecord {
        hash: hash.to_string(),
        last_seen,
        kind,
        copy_count: 1,
        summary: Some(format!("item {hash}")),
        search_text: None,
        detected_formats: vec![],
        byte_size: size,
        relative_path: relative_path_for_hash(hash),
    }
}

fn item(hash: &str) -> HistoryItem {
    let metadata = EntryMetadata {
        hash: hash.to_string(),
        kind: EntryKind::Text,
        detected_formats: vec![],
        copy_count: 1,
        first_seen: 0,
        last_seen: 0,
        byte_size: 1,
        sources: vec![],
        summary: None,
        search_text: None,
        version: "v".into(),
        relative_path: String::new(),
        content_filename: String::new(),
        files: vec![],
        extra: Json::Null,
    };
    let hit = SearchHit { hash: hash.to_string(), summary: None, kind: EntryKind::Text, byte_size: 1, offset: 0, global_offset: 0 };
    history_item(&hit, metadata)
}

fn key(code: KeyCode) -> KeyInput {
    KeyInput { code, shift: false, control: false, alt: false }
}

#[test]
fn statistics() {
    let index = SearchIndex::from_records(vec![
        rec("aaaaaa01", 10, EntryKind::Text, 5),
        rec("aaaaaa02", 30, EntryKind::Image, 7),
        rec("aaaaaa03", 20, EntryKind::Text, 9),
    ]);
    let stats = compute_stats(&index, &vec![100, 300, 200]);
    assert_eq!(stats.total_items, 3);
    assert_eq!(stats.total_size, 21);
    assert_eq!(stats.actual_storage_size, 600);
    assert_eq!(stats.type_counts, vec![("text".to_string(), 2), ("image".to_string(), 1)]);
    let order: Vec<(&str, usize)> = stats.largest_items.iter().map(|(i, o)| (i.hash.as_str(), *o)).collect();
    assert_eq!(order, vec![("aaaaaa02", 0), ("aaaaaa03", 1), ("aaaaaa01", 2)]);
    let lines = stats_lines(&stats);
    assert_eq!(lines[2], "Total items:    3");
    assert_eq!(lines[7], "  text       2");
    assert_eq!(lines[11], "Index    Type       Size         Summary");
    assert_eq!(lines[12], "-".repeat(70));
    assert_eq!(lines[13], "0        image      300 B        item aaaaaa02");
    assert_eq!(pad_right("ab", 4), "ab  ");
    assert_eq!(summary_cell(&None), "(no summary)");
    assert_eq!(summary_cell(&Some("x".repeat(41))), format!("{}...", "x".repeat(37)));
    assert_eq!(summary_cell(&Some("a\nb".into())), "a b");
}

#[test]
fn browser_keys() {
    let mut state = AppState::new(vec![item("h1"), item("h2")]);
    assert!(matches!(state.on_key(key(KeyCode::Down), 0), TuiAction::Nothing));
    assert_eq!(state.selected, 1);
    state.has_more = true;
    assert!(matches!(state.on_key(key(KeyCode::Down), 0), TuiAction::LoadMoreThenNext));
    state.append_items(vec![item("h2"), item("h3")], false);
    assert_eq!(state.items.len(), 3);
    state.next();
    assert_eq!(state.selected, 2);
    match state.on_key(KeyInput { code: KeyCode::Enter, shift: true, control: false, alt: false }, 0) {
        TuiAction::Copy { hash, stay } => {
            assert_eq!(hash, "h3");
            assert!(stay);
        }
        _ => panic!("expected a copy"),
    }
    match state.on_key(KeyInput { code: KeyCode::Delete, shift: false, control: false, alt: true }, 0) {
        TuiAction::Delete { hash } => assert_eq!(hash, "h3"),
        _ => panic!("expected a delete"),
    }
    state.on_key(key(KeyCode::Char('a')), 100);
    assert_eq!(state.filter, "a");
    assert_eq!(state.selected, 0);
    assert!(!state.should_reload(200, 160));
    assert!(state.should_reload(260, 160));
    state.on_key(key(KeyCode::Backspace), 300);
    assert_eq!(state.filter, "");
    state.sticky_query = Some("q".into());
    state.on_key(key(KeyCode::Esc), 400);
    assert_eq!(state.filter, "q");
    state.set_items(vec![item("x")], false);
    assert_eq!(state.query, "q");
    assert!(!state.pending_reload);
    assert!(matches!(state.on_key(KeyInput { code: KeyCode::Char('c'), shift: false, control: true, alt: false }, 0), TuiAction::Quit));
}

#[test]
fn status_texts() {
    assert_eq!(copy_status(" a\nb "), "Copied a b");
    let long = "z".repeat(80);
    assert_eq!(copy_status(&long), format!("Copied {}...", "z".repeat(60)));
    assert_eq!(truncate_display("abc\ndef", 0), "");
    assert_eq!(truncate_display("abc\ndef", 5), "ab...");
    assert_eq!(truncate_display("abcdef", 2), "ab");
    assert_eq!(truncate_display("ab\ncd", 10), "ab cd");
    assert!(default_status().starts_with("Enter copy"));
    let empty = ItemPreview { content_path: None, text: None, files: vec![], dimensions: None };
    let _ = empty;
}

#[test]
fn link_previews() {
    let mut m = RawMeta::default();
    add_meta(&mut m, "og:title", "OG");
    add_meta(&mut m, "og:image", "img1");
    add_meta(&mut m, "og:image", "img2");
    add_meta(&mut m, "twitter:title", "TW");
    add_meta(&mut m, "description", "desc");
    add_meta(&mut m, "theme-color", "#fff");
    add_meta(&mut m, "image", "other");
    add_link(&mut m, "https://example.com/a/", "shortcut icon", "fav.ico");
    add_link(&mut m, "https://example.com/a/", "apple-touch-icon", "/t.png");
    let d = parse_meta(m);
    assert_eq!(d.title, "TW");
    assert_eq!(d.description, "desc");
    assert_eq!(d.og_image, "img2");
    assert_eq!(d.favicon, "https://example.com/a/fav.ico");
    assert_eq!(d.color.as_deref(), Some("#fff"));
    assert!(d.image_alt.is_none());
    let d = parse_meta(RawMeta::default());
    assert_eq!(d.title, "Title not found");
    assert_eq!(d.description, "Description not found");
    assert_eq!(d.favicon, "Favicon not found");
    assert_eq!(d.og_image, "");
}

#[test]
fn browser_frame_texts() {
    assert_eq!(get_clipboard::tui::header_title("0.1.0", 12), "get_clipboard v0.1.0 \u{2014} 12 items");
    assert_eq!(get_clipboard::tui::query_display(""), "Type to search clipboard history\u{2026}");
    assert_eq!(get_clipboard::tui::query_display("cat"), "\u{203a} cat");
    assert!(get_clipboard::tui::shows_preview(101));
    assert!(!get_clipboard::tui::shows_preview(100));
    assert_eq!(get_clipboard::tui::list_offset_text(7), "#7   ");
    assert_eq!(get_clipboard::tui::list_offset_text(12345), "#12345");
    assert_eq!(get_clipboard::tui::list_summary_room(80, 5, 4), 65);
    assert_eq!(get_clipboard::tui::list_summary_room(10, 5, 4), 0);
}
