use get_clipboard::json::Json;
use get_clipboard::model::EntryKind;
use get_clipboard::plugins::{
    capture_plugins, coerce_mime_to_uti, prioritized_capture, text_capture, html_capture,
    rtf_capture, PluginCapture, PluginType,
};
use get_clipboard::snapshot::{
    assemble_snapshot, file_reference_paths, parse_clipboard_file_reference, format_file_summary, is_likely_text_binary,
    is_temporary_file, truncate_summary, FileRecord, FormatPreview,
};

fn rec(path: &str, size: u64, mime: Option<&str>) -> FileRecord {
    FileRecord {
        name: path.rsplit('/').next().unwrap().to_string(),
        extension: None,
        size,
        source_path: path.to_string(),
        mime: mime.map(|m| m.to_string()),
    }
}

#[test]
fn summary_is_trimmed_flattened_and_cut() {
    assert_eq!(truncate_summary("  hello\nworld\r "), "hello world");
    let long: String = "x".repeat(130);
    let s = truncate_summary(&long);
    assert_eq!(s.chars().count(), 120);
    assert!(s.ends_with("..."));
    assert_eq!(truncate_summary(&"y".repeat(120)), "y".repeat(120));
}

#[test]
fn file_summary_lists_path_size_and_type() {
    let files = vec![rec("/a/b.txt", 2048, Some("text/plain")), rec("/c", 0, None)];
    assert_eq!(format_file_summary(&files), "/a/b.txt (2.0 KB - text/plain), /c (0.0 KB - file)");
}

#[test]
fn temporary_paths() {
    assert!(is_temporary_file("/.file/id=123"));
    assert!(is_temporary_file("/private/tmp/x"));
    assert!(is_temporary_file("/x/.file/id=9"));
    assert!(!is_temporary_file("/Users/me/doc.txt"));
}

#[test]
fn text_like_binary() {
    assert!(!is_likely_text_binary(&[]));
    assert!(is_likely_text_binary(b"hello world\n"));
    assert!(!is_likely_text_binary(&[0u8, 1, 2, 3, 4, 5, 6, 7, 8, 9]));
}

#[test]
fn file_references_read_urls_and_drop_repeats_and_temporaries() {
    let raw = vec![
        "file:///Users/me/a.txt\n/Users/me/b.txt\n\n".to_string(),
        "/Users/me/a.txt\n/tmp/x/y".to_string(),
    ];
    assert_eq!(file_reference_paths(&raw), vec!["/Users/me/a.txt".to_string(), "/Users/me/b.txt".to_string()]);
}

#[test]
fn assembling_a_snapshot() {
    assert!(assemble_snapshot(vec![], vec![], Some("t".into()), None, None, None, vec![]).is_none());
    assert!(assemble_snapshot(vec!["public.text".into()], vec![], Some(String::new()), None, None, None, vec![]).is_none());
    let snap = assemble_snapshot(
        vec!["a".into(), "b".into(), "a".into()],
        vec![("a".into(), FormatPreview::Empty)],
        Some("hi".into()),
        Some(String::new()),
        None,
        Some(vec![1, 2, 3]),
        vec![rec("/z", 1, None), rec("/a", 2, None)],
    )
    .unwrap();
    assert_eq!(snap.detected_formats, vec!["a".to_string(), "b".to_string()]);
    assert_eq!(snap.kind, EntryKind::File);
    assert!(snap.html.is_none());
    assert_eq!(snap.image_mime.as_deref(), Some("image/png"));
    assert_eq!(snap.files[0].source_path, "/a");
    assert_eq!(snap.sources(), vec!["/a".to_string(), "/z".to_string()]);
    assert_eq!(snap.total_size(), 2 + 3 + 1 + 2);
    let h1 = snap.compute_hash();
    assert_eq!(h1.len(), 64);
    let lines = snap.format_detail_lines();
    assert_eq!(lines.len(), 4);
    assert_eq!(lines[1], "All formats (1 total):");
    assert_eq!(lines[2], "  \u{2022} a: <empty>");
}

#[test]
fn snapshot_hash_is_double_sha256() {
    let snap = assemble_snapshot(vec!["t".into()], vec![], Some("abc".into()), None, None, None, vec![]).unwrap();
    // SHA-256 of the binary SHA-256 digest of "abc".
    assert_eq!(snap.compute_hash(), "4f8b42c22dd3729b519ba6f68d2da7cc5b2d606d05daed5ad5128cc03e6c6358");
}

#[test]
fn plugin_types() {
    assert_eq!(PluginType::File.priority_value(), 0);
    assert_eq!(PluginType::Rtf.priority_value(), 4);
    assert_eq!(PluginType::Html.as_str(), "html");
}

#[test]
fn mime_to_pasteboard_type() {
    assert_eq!(coerce_mime_to_uti(""), "public.data");
    assert_eq!(coerce_mime_to_uti("public.png"), "public.png");
    assert_eq!(coerce_mime_to_uti("text/plain"), "public.utf8-plain-text");
    assert_eq!(coerce_mime_to_uti("image/jpg"), "public.jpeg");
    assert_eq!(coerce_mime_to_uti("application/octet-stream"), "public.data");
    assert_eq!(coerce_mime_to_uti("video/mp4"), "public.data");
}

#[test]
fn text_capture_and_finalize() {
    assert!(text_capture("").is_none());
    let mut c = text_capture("héllo").unwrap();
    assert_eq!(c.plugin_id, "text");
    assert_eq!(c.byte_size, 6);
    assert_eq!(c.files[0].filename, "text__content.txt");
    assert!(matches!(c.metadata.get("length"), Some(Json::Number(n)) if n == "5"));
    c.finalize_metadata();
    assert!(matches!(c.metadata.get("pluginId"), Some(Json::Str(s)) if s == "text"));
    assert!(matches!(c.metadata.get("pluginKind"), Some(Json::Str(s)) if s == "text"));
    assert!(matches!(c.metadata.get("summary"), Some(Json::Str(s)) if s == "héllo"));
    match c.metadata.get("storedFiles") {
        Some(Json::Array(a)) => assert_eq!(a.len(), 1),
        _ => panic!("stored files missing"),
    }
    assert!(matches!(c.metadata.get("length"), Some(Json::Number(n)) if n == "5"));
}

#[test]
fn rtf_capture_searches_lossy_text() {
    let c = rtf_capture(&vec![b'{', 0xff, b'}']).unwrap();
    assert_eq!(c.search_text.as_deref(), Some("{\u{fffd}}"));
    assert!(c.summary.is_none());
}

#[test]
fn leading_capture_is_first_of_least_priority() {
    let a = html_capture("<b>x</b>").unwrap();
    let b = text_capture("x").unwrap();
    let c = text_capture("y").unwrap();
    let caps: Vec<PluginCapture> = vec![a, b, c];
    let lead = prioritized_capture(&caps).unwrap();
    assert_eq!(lead.plugin_id, "text");
    assert_eq!(lead.search_text.as_deref(), Some("x"));
    assert!(prioritized_capture(&[]).is_none());
}

#[test]
fn plugins_run_in_registry_order() {
    let snap = assemble_snapshot(
        vec!["t".into()],
        vec![],
        Some("hello".into()),
        Some("<p>hello</p>".into()),
        Some("{\\rtf1}".into()),
        None,
        vec![rec("/a", 1, None)],
    )
    .unwrap();
    let caps = capture_plugins(&snap);
    let ids: Vec<&str> = caps.iter().map(|c| c.plugin_id.as_str()).collect();
    assert_eq!(ids, vec!["files", "text", "html", "rtf"]);
    assert_eq!(caps[0].search_text.as_deref(), Some("/a (0.0 KB - file)"));
}

#[test]
fn file_reference_forms() {
    assert_eq!(parse_clipboard_file_reference("  file:///tmp/a%20b.txt \n"), Some("/tmp/a b.txt".to_string()));
    assert_eq!(parse_clipboard_file_reference("/tmp/plain.txt"), Some("/tmp/plain.txt".to_string()));
    assert_eq!(parse_clipboard_file_reference("https://example.com/x"), Some("https://example.com/x".to_string()));
    assert_eq!(parse_clipboard_file_reference("file://remote-host/x"), None);
    assert_eq!(parse_clipboard_file_reference("   "), None);
}
