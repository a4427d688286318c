use get_clipboard::json::Json;
use get_clipboard::model::{EntryKind, EntryMetadata};
use get_clipboard::plugins::{html_capture, text_capture, PluginCapture};
use get_clipboard::store::{
    build_entry_metadata, build_search_text, capitalize_label, check_captures, clip_search_text_to_max,
    combine_sources, fallback_format_labels, inferred_detected_formats, narrowest_folder,
    normalize_plugin_label, plain_copy_plan, preview_snippet, resolved_file_paths,
    saved_format_labels, truncate_for_preview, CopyCountMode, ItemPreview, clipboard_plan, ContentSource, legacy_clipboard_plan, LegacySource,
};

const HASH: &str = "abcdef0123456789";

fn meta(kind: EntryKind, extra: Json) -> EntryMetadata {
    EntryMetadata {
        hash: HASH.to_string(),
        kind,
        detected_formats: vec![],
        copy_count: 1,
        first_seen: 10,
        last_seen: 20,
        byte_size: 2048,
        sources: vec![],
        summary: None,
        search_text: None,
        version: "0.1.0".to_string(),
        relative_path: "objects/ab/cd/abcdef0123456789".to_string(),
        content_filename: "item.bin".to_string(),
        files: vec![],
        extra,
    }
}

fn obj(members: Vec<(&str, Json)>) -> Json {
    Json::Object(members.into_iter().map(|(k, v)| (k.to_string(), v)).collect())
}

fn s(x: &str) -> Json {
    Json::Str(x.to_string())
}

fn finalized(mut c: PluginCapture) -> PluginCapture {
    c.finalize_metadata();
    c
}

#[test]
fn clipping_trims_and_cuts() {
    assert_eq!(clip_search_text_to_max("  abcdef  ", 3), "abc");
    assert_eq!(clip_search_text_to_max("   ", 3), "");
}

#[test]
fn search_text_prefers_override_then_captures_then_summary() {
    let caps = vec![text_capture("hello").unwrap(), html_capture("<b>hi</b>").unwrap()];
    assert_eq!(build_search_text(&caps, "sum", Some("  over  ")).as_deref(), Some("over"));
    assert_eq!(build_search_text(&caps, "sum", Some("   ")).as_deref(), Some("hello\n\n<b>hi</b>"));
    let dup = vec![text_capture(" same ").unwrap(), text_capture("same").unwrap()];
    assert_eq!(build_search_text(&dup, "sum", None).as_deref(), Some("same"));
    assert_eq!(build_search_text(&[], "  sum ", None).as_deref(), Some("sum"));
    assert_eq!(build_search_text(&[], "  ", None), None);
}

#[test]
fn search_text_keeps_four_segments() {
    let caps: Vec<PluginCapture> = ["a", "b", "c", "d", "e"].iter().map(|t| text_capture(t).unwrap()).collect();
    assert_eq!(build_search_text(&caps, "", None).as_deref(), Some("a\n\nb\n\nc\n\nd"));
}

#[test]
fn sources_are_combined_without_repeats() {
    let mut a = text_capture("x").unwrap();
    a.sources = vec!["/p".into(), "/q".into()];
    let mut b = text_capture("y").unwrap();
    b.sources = vec!["/q".into(), "/r".into()];
    let got = combine_sources(&[a, b], vec!["/r".into(), "/s".into()]);
    assert_eq!(got, vec!["/p", "/q", "/r", "/s"]);
}

#[test]
fn inferred_formats_follow_plugins() {
    let caps = vec![text_capture("x").unwrap(), html_capture("y").unwrap(), text_capture("z").unwrap()];
    assert_eq!(inferred_detected_formats(&caps), vec!["public.utf8-plain-text", "public.html"]);
}

#[test]
fn capture_checks() {
    assert_eq!(check_captures(&vec![]), Err("No plugin captures available".to_string()));
    let mut c = text_capture("x").unwrap();
    c.files.clear();
    assert_eq!(check_captures(&vec![c]), Err("No plugin produced persisted files".to_string()));
    assert_eq!(check_captures(&vec![text_capture("x").unwrap()]), Ok(()));
}

#[test]
fn new_entry_metadata() {
    let caps = vec![finalized(html_capture("<i>x</i>").unwrap()), finalized(text_capture("plain x").unwrap())];
    let m = build_entry_metadata(HASH, 100, caps, None, vec!["public.html".into()], vec![], CopyCountMode::Increment, None, Some(50), None, "9.9.9");
    assert_eq!(m.kind, EntryKind::Text);
    assert_eq!(m.copy_count, 1);
    assert_eq!(m.first_seen, 50);
    assert_eq!(m.last_seen, 100);
    assert_eq!(m.content_filename, "text__content.txt");
    assert_eq!(m.summary.as_deref(), Some("plain x"));
    assert_eq!(m.byte_size, 8 + 7);
    assert_eq!(m.relative_path, "objects/ab/cd/abcdef0123456789");
    assert_eq!(m.version, "9.9.9");
    match m.extra.get("pluginOrder") {
        Some(Json::Array(a)) => assert_eq!(a.len(), 2),
        _ => panic!("order missing"),
    }
    assert_eq!(saved_format_labels(&m), Vec::<String>::new().into_iter().chain(["HTML".to_string(), "Text".to_string()]).collect::<Vec<_>>());
}

#[test]
fn existing_entry_is_merged() {
    let caps = vec![finalized(text_capture("again").unwrap())];
    let mut old = meta(EntryKind::Other, Json::Null);
    old.copy_count = u64::MAX;
    let m = build_entry_metadata(HASH, 300, caps, None, vec![], vec!["/src".into()], CopyCountMode::Increment, None, None, Some(old), "9.9.9");
    assert_eq!(m.copy_count, u64::MAX);
    assert_eq!(m.first_seen, 10);
    assert_eq!(m.last_seen, 300);
    assert_eq!(m.version, "0.1.0");
    assert_eq!(m.sources, vec!["/src"]);
    assert_eq!(m.files, vec!["/src"]);
    let caps = vec![finalized(text_capture("again").unwrap())];
    let m2 = build_entry_metadata(HASH, 300, caps, None, vec![], vec![], CopyCountMode::Override(0), None, None, Some(meta(EntryKind::Text, Json::Null)), "x");
    assert_eq!(m2.copy_count, 1);
}

#[test]
fn labels() {
    assert_eq!(normalize_plugin_label("files"), "Files");
    assert_eq!(normalize_plugin_label("html"), "HTML");
    assert_eq!(normalize_plugin_label("custom"), "Custom");
    assert_eq!(capitalize_label(""), "");
    assert_eq!(capitalize_label("ßx"), "SSx");
    let mut m = meta(EntryKind::Text, Json::Null);
    m.detected_formats = vec!["public.HTML".into(), "public.utf8-plain-text".into(), "com.x".into(), "public.png".into(), "html2".into()];
    assert_eq!(fallback_format_labels(&m), vec!["HTML", "Text", "Image"]);
    assert_eq!(saved_format_labels(&m), vec!["HTML", "Text", "Image"]);
    let with_plugins = meta(
        EntryKind::Text,
        obj(vec![
            ("plugins", obj(vec![("text", obj(vec![])), ("files", obj(vec![("pluginType", s("file"))]))])),
            ("pluginOrder", Json::Array(vec![s("files"), s("text"), s("gone")])),
        ]),
    );
    assert_eq!(saved_format_labels(&with_plugins), vec!["Files", "Text"]);
}

#[test]
fn folders_and_paths() {
    assert_eq!(narrowest_folder(&["/a/b/c.txt".to_string(), "/a/b/d/e.txt".to_string()]).as_deref(), Some("/a/b"));
    assert_eq!(narrowest_folder(&["/a/x.txt".to_string(), "/b/y.txt".to_string()]).as_deref(), Some("/"));
    assert_eq!(narrowest_folder(&["/only.txt".to_string()]).as_deref(), Some("/"));
    assert_eq!(narrowest_folder(&[]), None);
    let m = meta(
        EntryKind::File,
        obj(vec![("plugins", obj(vec![("files", obj(vec![("entries", Json::Array(vec![
            obj(vec![("source_path", s("/d/one"))]),
            obj(vec![("path", s("/d/two"))]),
            obj(vec![("source_path", s("/d/one"))]),
        ]))]))]))]),
    );
    assert_eq!(resolved_file_paths(&m), vec!["/d/one", "/d/two"]);
}

#[test]
fn previews() {
    assert_eq!(truncate_for_preview(" a\r\nb ", 160), "a\nb");
    assert_eq!(truncate_for_preview("abcdef", 5), "ab...");
    let empty = ItemPreview { content_path: None, text: None, files: vec![], dimensions: None };
    let mut files = meta(EntryKind::File, Json::Null);
    files.files = vec!["/d/one".into(), "/d/two".into()];
    assert_eq!(preview_snippet(&empty, &files), "[2 files in /d - total 2.00 KB]");
    let img = meta(EntryKind::Image, Json::Null);
    let dims = ItemPreview { content_path: None, text: None, files: vec![], dimensions: Some((3, 4)) };
    assert_eq!(preview_snippet(&dims, &img), "(Image item [3 x 4] [2.00 KB])");
    assert_eq!(preview_snippet(&empty, &img), "(Image item [? x ?] [2.00 KB])");
    assert_eq!(preview_snippet(&empty, &meta(EntryKind::Other, Json::Null)), "Other");
    let text = ItemPreview { content_path: None, text: Some("hi".into()), files: vec![], dimensions: None };
    assert_eq!(preview_snippet(&text, &img), "hi");
}

#[test]
fn plain_copy_plans() {
    assert_eq!(plain_copy_plan(&meta(EntryKind::Text, Json::Null)).err(), Some("No plugin metadata found".to_string()));
    let image_only = meta(EntryKind::Image, obj(vec![("plugins", obj(vec![("image", obj(vec![]))]))]));
    assert!(plain_copy_plan(&image_only).unwrap().whole_item_only);
    let mixed = meta(
        EntryKind::Text,
        obj(vec![
            ("plugins", obj(vec![
                ("html", obj(vec![])),
                ("files", obj(vec![("entries", Json::Array(vec![obj(vec![("path", s("/a"))]), obj(vec![("path", s("/b"))])]))])),
            ])),
            ("pluginOrder", Json::Array(vec![s("files"), s("html"), s("text")])),
        ]),
    );
    let plan = plain_copy_plan(&mixed).unwrap();
    assert!(!plan.whole_item_only);
    assert_eq!(plan.text_plugins, vec!["html"]);
    assert_eq!(plan.file_text.as_deref(), Some("/a\n/b"));
}

#[test]
fn clipboard_plan_follows_plugin_order() {
    let extra = obj(vec![
        (
            "plugins",
            obj(vec![
                ("text", obj(vec![("storedFiles", Json::Array(vec![s("text__content.txt")]))])),
                ("files", obj(vec![("entries", Json::Array(vec![obj(vec![("path", s("/a b"))]), obj(vec![])]))])),
                ("rtf", obj(vec![])),
            ]),
        ),
        ("pluginOrder", Json::Array(vec![s("files"), s("text"), s("rtf")])),
    ]);
    let plan = clipboard_plan(&meta(EntryKind::Text, extra)).unwrap();
    assert_eq!(plan.len(), 3);
    assert!(matches!(&plan[0], ContentSource::Files(u) if u == &vec!["file:///a b".to_string()]));
    assert!(matches!(&plan[1], ContentSource::Text(Some(f)) if f == "text__content.txt"));
    assert!(matches!(&plan[2], ContentSource::Rtf(None)));
}

#[test]
fn clipboard_plan_refusals() {
    assert_eq!(
        clipboard_plan(&meta(EntryKind::Text, Json::Null)).err().unwrap(),
        format!("Missing plugin metadata for {HASH}")
    );
    let missing = obj(vec![
        ("plugins", obj(vec![("text", obj(vec![]))])),
        ("pluginOrder", Json::Array(vec![s("text"), s("html"), s("zzz")])),
    ]);
    assert_eq!(
        clipboard_plan(&meta(EntryKind::Text, missing)).err().unwrap(),
        "Missing plugin metadata for plugin html"
    );
    let unknown = obj(vec![("plugins", obj(vec![("zzz", obj(vec![])), ("text", obj(vec![]))]))]);
    assert_eq!(clipboard_plan(&meta(EntryKind::Text, unknown)).err().unwrap(), "Unknown clipboard plugin zzz");
    let image = obj(vec![("plugins", obj(vec![("image", obj(vec![]))]))]);
    assert_eq!(clipboard_plan(&meta(EntryKind::Image, image)).err().unwrap(), "image plugin missing stored file");
    let files = obj(vec![("plugins", obj(vec![("files", obj(vec![("entries", s("x"))]))]))]);
    assert_eq!(clipboard_plan(&meta(EntryKind::File, files)).err().unwrap(), "file plugin metadata missing entries");
}

#[test]
fn legacy_plan_by_recorded_type() {
    let text = obj(vec![("type", s("text")), ("extension", s("html"))]);
    assert!(matches!(legacy_clipboard_plan(&meta(EntryKind::Text, text)), Ok(LegacySource::Text(true))));
    let text = obj(vec![("type", s("text"))]);
    assert!(matches!(legacy_clipboard_plan(&meta(EntryKind::Text, text)), Ok(LegacySource::Text(false))));
    let image = obj(vec![("type", s("image"))]);
    assert!(matches!(legacy_clipboard_plan(&meta(EntryKind::Image, image)), Ok(LegacySource::Image)));
    let files = obj(vec![
        ("type", s("file")),
        ("entries", Json::Array(vec![obj(vec![("source_path", s("/x")), ("path", s("/y"))]), obj(vec![])])),
    ]);
    match legacy_clipboard_plan(&meta(EntryKind::File, files)) {
        Ok(LegacySource::Files(urls)) => assert_eq!(urls, vec!["file:///y"]),
        _ => panic!("expected files"),
    }
    let mut listed = meta(EntryKind::File, obj(vec![("type", s("file"))]));
    listed.files = vec!["/z".to_string()];
    assert!(matches!(legacy_clipboard_plan(&listed), Ok(LegacySource::Files(u)) if u == vec!["file:///z".to_string()]));
    let empty = obj(vec![("type", s("file"))]);
    assert_eq!(
        legacy_clipboard_plan(&meta(EntryKind::File, empty)).err().unwrap(),
        "Legacy file item missing recorded paths"
    );
    let rtf = obj(vec![("mime", s("application/rtf"))]);
    assert!(matches!(legacy_clipboard_plan(&meta(EntryKind::Text, rtf)), Ok(LegacySource::Rtf)));
    let pdf = obj(vec![("mime", s("application/pdf"))]);
    assert!(matches!(legacy_clipboard_plan(&meta(EntryKind::Other, pdf)), Ok(LegacySource::Other(t)) if t == "com.adobe.pdf"));
    assert!(matches!(legacy_clipboard_plan(&meta(EntryKind::Other, Json::Null)), Ok(LegacySource::Other(t)) if t == "public.data"));
}

#[test]
fn preview_lists_files_by_name() {
    let f = |n: &str, size: u64| get_clipboard::store::FileDescriptor {
        filename: n.to_string(),
        path: format!("/d/{n}"),
        size,
    };
    let listed = get_clipboard::store::preview_files(vec![
        f("text__content.txt", 3),
        f("metadata.json", 0),
        f("b.png", 9),
        f("B.png", 1),
    ]);
    let names: Vec<&str> = listed.iter().map(|d| d.filename.as_str()).collect();
    assert_eq!(names, vec!["B.png", "b.png", "text__content.txt"]);
    assert_eq!(listed[1].size, 9);
}

#[test]
fn preview_text_of_bytes() {
    assert_eq!(get_clipboard::snapshot::preview_text(b""), None);
    assert_eq!(get_clipboard::snapshot::preview_text("héllo".as_bytes()).as_deref(), Some("héllo"));
    assert_eq!(get_clipboard::snapshot::preview_text(&[0xff, 0x41]), None);
    assert_eq!(get_clipboard::snapshot::preview_text(b"plain ascii").as_deref(), Some("plain ascii"));
}
