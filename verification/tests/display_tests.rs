use get_clipboard::display::{
    detail_plugin, details_message, display_plan, json_u64, plugin_details, terminal_supports_images,
    DisplaySource,
};
use get_clipboard::json::Json;
use get_clipboard::model::{EntryKind, EntryMetadata};
use get_clipboard::store::ContentSource;

fn obj(members: Vec<(&str, Json)>) -> Json {
    Json::Object(members.into_iter().map(|(k, v)| (k.to_string(), v)).collect())
}

fn s(x: &str) -> Json {
    Json::Str(x.to_string())
}

fn n(x: &str) -> Json {
    Json::Number(x.to_string())
}

fn entry(extra: Json, summary: Option<&str>) -> EntryMetadata {
    EntryMetadata {
        hash: "feedbeef".to_string(),
        kind: EntryKind::Image,
        detected_formats: vec![],
        copy_count: 4,
        first_seen: 0,
        last_seen: 1704164645,
        byte_size: 1536,
        sources: vec![],
        summary: summary.map(String::from),
        search_text: None,
        version: "0.1.0".to_string(),
        relative_path: "objects/fe/ed/feedbeef".to_string(),
        content_filename: "item.bin".to_string(),
        files: vec![],
        extra,
    }
}

fn plugins(members: Vec<(&str, Json)>, order: Vec<&str>) -> Json {
    obj(vec![
        ("plugins", obj(members)),
        ("pluginOrder", Json::Array(order.into_iter().map(s).collect())),
    ])
}

#[test]
fn display_prefers_filter_then_order() {
    let extra = plugins(
        vec![
            ("image", obj(vec![("storedFiles", Json::Array(vec![s("image__full.png")]))])),
            ("text", obj(vec![])),
            ("files", obj(vec![("entries", Json::Array(vec![obj(vec![("source_path", s("/a"))])]))])),
        ],
        vec!["zzz", "image", "text"],
    );
    let m = entry(extra, Some("Image 1x1"));
    match display_plan(&m, None).unwrap() {
        DisplaySource::Image(f, fallback) => {
            assert_eq!(f, "image__full.png");
            assert_eq!(fallback, "Image 1x1");
        }
        _ => panic!("expected image"),
    }
    assert!(matches!(display_plan(&m, Some("text")).unwrap(), DisplaySource::Content(ContentSource::Text(None))));
    match display_plan(&m, Some("files")).unwrap() {
        DisplaySource::Lines(lines) => assert_eq!(lines, vec!["/a"]),
        _ => panic!("expected lines"),
    }
    assert!(matches!(display_plan(&m, Some("html")).unwrap(), DisplaySource::Image(_, _)));
}

#[test]
fn display_edge_cases() {
    let none = entry(plugins(vec![("zzz", obj(vec![]))], vec!["zzz"]), None);
    assert!(matches!(display_plan(&none, None).unwrap(), DisplaySource::Empty));
    let image = entry(plugins(vec![("image", obj(vec![]))], vec!["image"]), None);
    assert_eq!(display_plan(&image, None).err().unwrap(), "image plugin missing stored file");
    let stored = entry(
        plugins(vec![("image", obj(vec![("storedFiles", Json::Array(vec![s("a.png")]))]))], vec!["image"]),
        None,
    );
    assert!(matches!(display_plan(&stored, None).unwrap(), DisplaySource::Image(_, f) if f == "(image item)"));
    assert_eq!(display_plan(&entry(Json::Null, None), None).err().unwrap(), "Missing plugin metadata for feedbeef");
}

#[test]
fn json_whole_numbers() {
    assert_eq!(json_u64(&n("42")), Some(42));
    assert_eq!(json_u64(&n("18446744073709551615")), Some(u64::MAX));
    assert_eq!(json_u64(&n("18446744073709551616")), None);
    assert_eq!(json_u64(&n("1.5")), None);
    assert_eq!(json_u64(&n("-3")), None);
    assert_eq!(json_u64(&n("")), None);
    assert_eq!(json_u64(&s("42")), None);
}

#[test]
fn plugin_detail_pairs() {
    let pairs = |v: Vec<(String, String)>| v.into_iter().map(|(a, b)| format!("{a}={b}")).collect::<Vec<_>>();
    assert_eq!(pairs(plugin_details("text", &Json::Null, "héllo")), vec!["kind=text", "length=5"]);
    assert_eq!(pairs(plugin_details("html", &Json::Null, "<b>")), vec!["kind=html", "length=3"]);
    assert_eq!(pairs(plugin_details("rtf", &Json::Null, "é")), vec!["kind=rtf", "bytes=2"]);
    let meta = obj(vec![("width", n("640")), ("height", n("480")), ("mime", s("image/jpeg"))]);
    assert_eq!(
        pairs(plugin_details("image", &meta, "")),
        vec!["kind=image", "dimensions=640x480", "mime=image/jpeg"]
    );
    assert_eq!(
        pairs(plugin_details("image", &Json::Null, "")),
        vec!["kind=image", "dimensions=0x0", "mime=image/png"]
    );
    let files = obj(vec![("entries", Json::Array(vec![Json::Null, Json::Null]))]);
    assert_eq!(pairs(plugin_details("files", &files, "")), vec!["kind=file", "entries=2"]);
    assert!(plugin_details("zzz", &Json::Null, "").is_empty());
}

#[test]
fn details_line() {
    let extra = plugins(vec![("zzz", obj(vec![])), ("text", obj(vec![]))], vec!["zzz", "text"]);
    let m = entry(extra, Some("  two\nlines "));
    assert_eq!(detail_plugin(&m).as_deref(), Some("text"));
    assert_eq!(detail_plugin(&entry(Json::Null, None)), None);
    let line = details_message(&m, "/d/x", &vec![("kind".to_string(), "text".to_string())]);
    assert!(line.starts_with("date=2024-01-02T03:04:05"));
    assert!(line.ends_with(" copies=4 hash=feedbeef size=1.50 KB path=/d/x kind=Image summary=two lines kind=text"));
}

#[test]
fn image_terminals() {
    assert!(terminal_supports_images(true, None, None, false));
    assert!(terminal_supports_images(false, Some("WezTerm"), None, false));
    assert!(terminal_supports_images(false, Some("ITERM.APP"), None, false));
    assert!(!terminal_supports_images(false, Some("Apple_Terminal"), Some("xterm-256color"), false));
    assert!(terminal_supports_images(false, None, Some("xterm-kitty"), false));
    assert!(terminal_supports_images(false, None, Some("wezterm"), false));
    assert!(terminal_supports_images(false, None, None, true));
}
