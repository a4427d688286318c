use base64::Engine;
use get_clipboard::json::Json;
use get_clipboard::json_items::{
    build_full_json_item, compute_json_item_hash, copy_json_item, decode_data_url, export_format,
    exported_entries, file_urls, files_import_paths, hash_parts, image_data_url, prepare_import,
    store_json_item, ClipboardJsonFormat, ClipboardJsonFullItem, ImportContent, json_item_plugin,
    build_json_item,
};
use get_clipboard::model::{EntryKind, EntryMetadata};
use get_clipboard::plugins::{FilesPlugin, HtmlPlugin, ImagePlugin, PluginCapture, TextPlugin};

fn s(v: &str) -> Json {
    Json::Str(v.to_string())
}

fn obj(pairs: Vec<(&str, Json)>) -> Json {
    Json::Object(pairs.into_iter().map(|(k, v)| (k.to_string(), v)).collect())
}

fn format(plugin_id: &str, data: Json) -> ClipboardJsonFormat {
    ClipboardJsonFormat {
        plugin_id: plugin_id.to_string(),
        kind: None,
        priority: None,
        entry_kind: None,
        data,
        metadata: Json::Null,
    }
}

fn item(formats: Vec<ClipboardJsonFormat>) -> ClipboardJsonFullItem {
    ClipboardJsonFullItem {
        index: None,
        real_index: None,
        id: None,
        date: None,
        first_date: None,
        summary: None,
        item_type: None,
        size: None,
        copy_count: None,
        detected_formats: Vec::new(),
        sources: Vec::new(),
        search_text: None,
        data_path: None,
        formats,
    }
}

fn meta_str(c: &PluginCapture, key: &str) -> Option<String> {
    match c.metadata.get(key) {
        Some(Json::Str(v)) => Some(v.clone()),
        _ => None,
    }
}

fn meta_num(c: &PluginCapture, key: &str) -> Option<String> {
    match c.metadata.get(key) {
        Some(Json::Number(v)) => Some(v.clone()),
        _ => None,
    }
}

fn png_bytes(w: u32, h: u32) -> Vec<u8> {
    let img = image::RgbImage::from_pixel(w, h, image::Rgb([10, 20, 30]));
    let mut out = std::io::Cursor::new(Vec::new());
    img.write_to(&mut out, image::ImageFormat::Png).unwrap();
    out.into_inner()
}

fn b64(bytes: &[u8]) -> String {
    base64::engine::general_purpose::STANDARD.encode(bytes)
}

#[test]
fn data_url_reads_type_and_bytes() {
    let (mime, bytes) = decode_data_url("data:image/png;base64,aGVsbG8=").unwrap();
    assert_eq!(mime, "image/png");
    assert_eq!(bytes, b"hello".to_vec());
    let (mime, bytes) = decode_data_url("  data:text/plain; BASE64 ,aGk=  ").unwrap();
    assert_eq!(mime, "text/plain");
    assert_eq!(bytes, b"hi".to_vec());
    let (mime, _) = decode_data_url("data:;base64,aGk=").unwrap();
    assert_eq!(mime, "application/octet-stream");
    let (mime, _) = decode_data_url("data:base64;image/gif;;base64,aGk=").unwrap();
    assert_eq!(mime, "image/gif");
}

#[test]
fn data_url_errors() {
    assert_eq!(decode_data_url("image/png;base64,aGk=").unwrap_err(), "image data must be a data URI");
    assert_eq!(decode_data_url("data:image/png;base64").unwrap_err(), "image data URI missing payload");
    assert_eq!(decode_data_url("data:image/png,aGk=").unwrap_err(), "image data URI must be base64 encoded");
    assert_eq!(decode_data_url("data:image/png;base64,@@@").unwrap_err(), "Failed to decode image payload");
}

#[test]
fn files_paths_from_exported_data() {
    let data = Json::Array(vec![
        s("/a.txt"),
        obj(vec![("sourcePath", s("/b.png"))]),
        obj(vec![("path", Json::Number("3".into()))]),
        obj(vec![("source_path", Json::Null), ("path", s("/ignored"))]),
        obj(vec![("path", s("/c"))]),
        Json::Number("5".into()),
    ]);
    assert_eq!(files_import_paths(&data).unwrap(), vec!["/a.txt", "/b.png", "/c"]);
    assert_eq!(files_import_paths(&s("/a")).unwrap_err(), "files plugin expects an array");
    assert_eq!(
        files_import_paths(&Json::Array(vec![Json::Null])).unwrap_err(),
        "files plugin requires at least one path entry"
    );
    assert_eq!(file_urls(&vec!["/a b".to_string()]), vec!["file:///a b"]);
}

#[test]
fn text_import_rebuilds_capture() {
    let imp = TextPlugin.import_json(&format("text", s("hello\nworld"))).unwrap();
    let c = &imp.capture;
    assert_eq!(c.plugin_id, "text");
    assert_eq!(c.priority, 2);
    assert_eq!(c.summary.as_deref(), Some("hello world"));
    assert_eq!(c.search_text.as_deref(), Some("hello\nworld"));
    assert_eq!(c.files.len(), 1);
    assert_eq!(c.files[0].filename, "text__content.txt");
    assert_eq!(c.files[0].bytes, b"hello\nworld".to_vec());
    assert_eq!(c.byte_size, 11);
    assert_eq!(meta_num(c, "length").as_deref(), Some("11"));
    assert_eq!(meta_str(c, "pluginId").as_deref(), Some("text"));
    assert_eq!(meta_str(c, "pluginKind").as_deref(), Some("text"));
    assert_eq!(meta_str(c, "summary").as_deref(), Some("hello world"));
    assert!(matches!(imp.clipboard_contents.as_slice(), [ImportContent::Text(t)] if t == "hello\nworld"));
    let empty = TextPlugin.import_json(&format("text", s(""))).unwrap();
    assert_eq!(empty.capture.byte_size, 0);
    assert_eq!(
        TextPlugin.import_json(&format("text", Json::Null)).err().unwrap(),
        "text plugin expects string data"
    );
}

#[test]
fn html_import_rebuilds_capture() {
    let imp = HtmlPlugin.import_json(&format("html", s("<b>hé</b>"))).unwrap();
    let c = &imp.capture;
    assert_eq!(c.plugin_id, "html");
    assert_eq!(c.priority, 3);
    assert_eq!(c.entry_kind, EntryKind::Text);
    assert_eq!(c.files[0].filename, "html__content.html");
    assert_eq!(c.byte_size, 10);
    assert_eq!(meta_num(c, "length").as_deref(), Some("9"));
    assert!(matches!(imp.clipboard_contents.as_slice(), [ImportContent::Html(t)] if t == "<b>hé</b>"));
    assert_eq!(
        HtmlPlugin.import_json(&format("html", Json::Array(vec![]))).err().unwrap(),
        "html plugin expects string data"
    );
}

#[test]
fn files_import_rebuilds_capture() {
    let data = Json::Array(vec![s("/docs/a.txt"), s("/docs/b")]);
    let sizes = vec![("/docs/a.txt".to_string(), 2048u64)];
    let imp = FilesPlugin.import_json(&format("files", data), &sizes).unwrap();
    let c = &imp.capture;
    assert_eq!(c.plugin_id, "files");
    assert_eq!(c.kind, "file");
    assert_eq!(c.priority, 0);
    let lines = "/docs/a.txt (2.0 KB - text/plain)\n/docs/b (0.0 KB - file)";
    assert_eq!(c.search_text.as_deref(), Some(lines));
    assert_eq!(c.summary.as_deref(), Some("/docs/a.txt (2.0 KB - text/plain), /docs/b (0.0 KB - file)"));
    assert_eq!(c.files[0].filename, "files__paths.txt");
    assert_eq!(c.files[0].bytes, lines.as_bytes().to_vec());
    assert_eq!(c.byte_size, lines.len() as u64);
    assert_eq!(c.sources, vec!["/docs/a.txt", "/docs/b"]);
    match c.metadata.get("entries") {
        Some(Json::Array(a)) => {
            assert_eq!(a.len(), 2);
            assert!(matches!(a[0].get("name"), Some(Json::Str(n)) if n == "a.txt"));
            assert!(matches!(a[0].get("size"), Some(Json::Number(n)) if n == "2048"));
            assert!(matches!(a[1].get("mime"), Some(Json::Null)));
        }
        _ => panic!("entries missing"),
    }
    match imp.clipboard_contents.as_slice() {
        [ImportContent::Files(urls)] => assert_eq!(urls, &vec!["file:///docs/a.txt", "file:///docs/b"]),
        _ => panic!("unexpected contents"),
    }
    assert_eq!(
        FilesPlugin.import_json(&format("files", s("x")), &sizes).err().unwrap(),
        "files plugin expects an array"
    );
}

#[test]
fn image_import_rebuilds_capture() {
    let png = png_bytes(2, 3);
    let url = format!("data:image/png;base64,{}", b64(&png));
    let imp = ImagePlugin.import_json(&format("image", s(&url))).unwrap();
    let c = &imp.capture;
    assert_eq!(c.plugin_id, "image");
    assert_eq!(c.priority, 1);
    assert_eq!(c.entry_kind, EntryKind::Image);
    let kb = format!("{:.1} KB", png.len() as f64 / 1024.0);
    let summary = format!("Image 2x3 [{kb} - image/png]");
    assert_eq!(c.summary.as_deref(), Some(summary.as_str()));
    assert_eq!(c.search_text.as_deref(), Some(summary.as_str()));
    assert_eq!(c.files[0].filename, "image__full.png");
    assert_eq!(c.files[0].bytes, png);
    assert_eq!(meta_num(c, "width").as_deref(), Some("2"));
    assert_eq!(meta_num(c, "height").as_deref(), Some("3"));
    assert_eq!(meta_str(c, "mime").as_deref(), Some("image/png"));
    assert_eq!(meta_num(c, "byteSize"), Some(png.len().to_string()));
    match imp.clipboard_contents.as_slice() {
        [ImportContent::Image(a), ImportContent::Other(kind, b)] => {
            assert_eq!(a, &png);
            assert_eq!(kind, "public.png");
            assert_eq!(b, &png);
        }
        _ => panic!("unexpected contents"),
    }
}

#[test]
fn image_import_converts_other_types() {
    let png = png_bytes(4, 1);
    let url = format!("data:image/x-custom;base64,{}", b64(&png));
    let imp = ImagePlugin.import_json(&format("image", s(&url))).unwrap();
    let c = &imp.capture;
    let stored = &c.files[0].bytes;
    assert!(stored.starts_with(&[0x89, b'P', b'N', b'G']));
    let kb = format!("{:.1} KB", stored.len() as f64 / 1024.0);
    assert_eq!(c.summary.clone().unwrap(), format!("Image 4x1 [{kb} - image/x-custom]"));
    assert_eq!(meta_str(c, "mime").as_deref(), Some("image/png"));
}

#[test]
fn image_import_errors() {
    assert_eq!(
        ImagePlugin.import_json(&format("image", Json::Null)).err().unwrap(),
        "image plugin expects data URL string"
    );
    assert_eq!(
        ImagePlugin.import_json(&format("image", s("data:image/png;base64,aGVsbG8="))).err().unwrap(),
        "Failed to decode image data"
    );
    assert_eq!(
        ImagePlugin.import_json(&format("image", s("nope"))).err().unwrap(),
        "image data must be a data URI"
    );
}

#[test]
fn prepare_import_runs_every_format() {
    let i = item(vec![format("text", s("a")), format("html", s("<i>a</i>"))]);
    let imp = prepare_import(&i, &Vec::new()).unwrap();
    assert_eq!(imp.captures.len(), 2);
    assert_eq!(imp.captures[0].plugin_id, "text");
    assert_eq!(imp.captures[1].plugin_id, "html");
    assert_eq!(imp.clipboard_contents.len(), 2);
    assert_eq!(prepare_import(&item(vec![]), &Vec::new()).err().unwrap(), "clipboard item includes no formats");
    let bad = item(vec![format("text", s("a")), format("bogus", s("a")), format("text", Json::Null)]);
    assert_eq!(prepare_import(&bad, &Vec::new()).err().unwrap(), "Unknown clipboard plugin bogus");
    let bad = item(vec![format("text", Json::Null), format("bogus", s("a"))]);
    assert_eq!(prepare_import(&bad, &Vec::new()).err().unwrap(), "text plugin expects string data");
    assert!(prepare_import(&item(vec![format("rtf", s("{\\rtf1}"))]), &Vec::new()).is_err());
}

#[test]
fn hash_parts_skip_null_metadata() {
    let mut f = format("html", s("x"));
    f.metadata = obj(vec![("k", s("v"))]);
    let i = item(vec![format("text", s("a")), f]);
    let parts = hash_parts(&i);
    assert_eq!(parts.len(), 2);
    assert_eq!(parts[0].0, "text");
    assert!(parts[0].2.is_none());
    assert_eq!(parts[1].0, "html");
    assert!(parts[1].2.is_some());
    assert_eq!(
        compute_json_item_hash(b"abc"),
        "ba7816bf8f01cfea414140de5dae2223b00361a396177a9cb410ff61f20015ad"
    );
}

#[test]
fn store_json_item_prepares_entry() {
    let mut i = item(vec![format("text", s("hello"))]);
    i.id = Some("  abc  ".to_string());
    i.date = Some("2024-01-02T03:04:05Z".to_string());
    i.first_date = Some("not a date".to_string());
    i.sources = vec!["App".to_string()];
    let entry = store_json_item(&i, &Vec::new(), b"ignored").unwrap();
    assert_eq!(entry.hash, "abc");
    assert_eq!(entry.timestamp, 1704164645);
    assert_eq!(entry.first_seen, None);
    assert_eq!(entry.detected_formats, vec!["public.utf8-plain-text"]);
    assert_eq!(entry.copy_count, 1);
    assert_eq!(entry.sources, vec!["App"]);
    assert_eq!(entry.captures.len(), 1);

    let mut j = item(vec![format("text", s("hello")), format("html", s("<p>"))]);
    j.id = Some("   ".to_string());
    j.first_date = Some("2024-01-02".to_string());
    j.detected_formats = vec!["custom".to_string()];
    j.copy_count = Some(7);
    j.summary = Some("sum".to_string());
    let entry = store_json_item(&j, &Vec::new(), b"abc").unwrap();
    assert_eq!(entry.hash, "ba7816bf8f01cfea414140de5dae2223b00361a396177a9cb410ff61f20015ad");
    assert_eq!(entry.first_seen, Some(1704153600));
    assert_eq!(entry.detected_formats, vec!["custom"]);
    assert_eq!(entry.copy_count, 7);
    assert_eq!(entry.summary.as_deref(), Some("sum"));
    assert!(entry.timestamp > 1704164645);
    assert!(store_json_item(&item(vec![]), &Vec::new(), b"").is_err());
}

#[test]
fn copy_json_item_gives_contents() {
    let i = item(vec![format("html", s("<p>")), format("text", s("p"))]);
    let contents = copy_json_item(&i, &Vec::new()).unwrap();
    assert!(matches!(contents.as_slice(), [ImportContent::Html(h), ImportContent::Text(t)] if h == "<p>" && t == "p"));
    assert_eq!(copy_json_item(&item(vec![]), &Vec::new()).err().unwrap(), "clipboard item includes no formats");
}

#[test]
fn export_pieces() {
    assert_eq!(image_data_url(&obj(vec![("mime", s("image/jpeg"))]), b"hi"), "data:image/jpeg;base64,aGk=");
    assert_eq!(image_data_url(&obj(vec![]), b"hi"), "data:image/png;base64,aGk=");
    let (mime, bytes) = decode_data_url(&image_data_url(&obj(vec![]), b"round trip")).unwrap();
    assert_eq!(mime, "image/png");
    assert_eq!(bytes, b"round trip".to_vec());
    let meta = obj(vec![("entries", Json::Array(vec![s("x")]))]);
    assert_eq!(exported_entries(&meta).unwrap().len(), 1);
    assert_eq!(exported_entries(&obj(vec![])).err().unwrap(), "file plugin metadata missing entries");
    assert!(export_format("bogus", Json::Null, Json::Null).is_none());
    let f = export_format("html", s("x"), Json::Null).unwrap();
    assert_eq!(f.kind.as_deref(), Some("html"));
    assert_eq!(f.priority, Some(3));
    assert_eq!(f.entry_kind, Some(EntryKind::Text));
    let f = export_format("files", Json::Null, Json::Null).unwrap();
    assert_eq!(f.kind.as_deref(), Some("file"));
    assert_eq!(f.priority, Some(0));
}

#[test]
fn full_item_from_metadata() {
    let metadata = EntryMetadata {
        hash: "h1".to_string(),
        kind: EntryKind::Image,
        detected_formats: vec!["public.png".to_string()],
        copy_count: 3,
        first_seen: 0,
        last_seen: 1704164645,
        byte_size: 42,
        sources: vec!["Preview".to_string()],
        summary: Some("Image".to_string()),
        search_text: None,
        version: "1".to_string(),
        relative_path: "h1".to_string(),
        content_filename: "image__full.png".to_string(),
        files: Vec::new(),
        extra: Json::Null,
    };
    let full = build_full_json_item(&metadata, Some(4), None, "/data/h1".to_string(), Vec::new());
    assert_eq!(full.index, Some(4));
    assert_eq!(full.id.as_deref(), Some("h1"));
    assert!(full.date.clone().unwrap().starts_with("2024-01-02T03:04:05"));
    assert!(full.first_date.clone().unwrap().starts_with("1970-01-01T00:00:00"));
    assert_eq!(full.item_type.as_deref(), Some("Image"));
    assert_eq!(full.size, Some(42));
    assert_eq!(full.copy_count, Some(3));
    assert_eq!(full.data_path.as_deref(), Some("/data/h1"));
    assert_eq!(full.sources, vec!["Preview"]);
}

#[test]
fn export_then_import_keeps_image_bytes() {
    let png = png_bytes(3, 2);
    let meta = obj(vec![("mime", s("image/png"))]);
    let url = image_data_url(&meta, &png);
    let imp = ImagePlugin.import_json(&format("image", Json::Str(url))).unwrap();
    assert_eq!(imp.capture.files[0].bytes, png);
    assert_eq!(imp.capture.byte_size, png.len() as u64);
}

#[test]
fn export_then_import_keeps_file_paths() {
    let records = vec![
        get_clipboard::snapshot::file_record("/tmp/one.txt", 5),
        get_clipboard::snapshot::file_record("/tmp/two", 0),
    ];
    let entries: Vec<Json> = records.iter().map(get_clipboard::plugins::file_record_json).collect();
    let imp = FilesPlugin.import_json(&format("files", Json::Array(entries)), &Vec::new()).unwrap();
    assert_eq!(imp.capture.sources, vec!["/tmp/one.txt", "/tmp/two"]);
}

#[test]
fn export_then_import_keeps_hash() {
    let metadata = EntryMetadata {
        hash: "0123456789abcdef".to_string(),
        kind: EntryKind::Text,
        detected_formats: vec![],
        copy_count: 2,
        first_seen: 100,
        last_seen: 200,
        byte_size: 5,
        sources: vec![],
        summary: Some("hello".to_string()),
        search_text: None,
        version: "1".to_string(),
        relative_path: "objects/01/23/0123456789abcdef".to_string(),
        content_filename: "text__content.txt".to_string(),
        files: Vec::new(),
        extra: Json::Null,
    };
    let format = export_format("text", s("hello"), Json::Null).unwrap();
    let full = build_full_json_item(&metadata, Some(0), None, "/d".to_string(), vec![format]);
    let entry = store_json_item(&full, &Vec::new(), b"unused").unwrap();
    assert_eq!(entry.hash, "0123456789abcdef");
    assert_eq!(entry.timestamp, 200);
    assert_eq!(entry.first_seen, Some(100));
    assert_eq!(entry.copy_count, 2);
    assert_eq!(entry.captures[0].search_text.as_deref(), Some("hello"));
}

fn stored_entry(extra: Json) -> EntryMetadata {
    EntryMetadata {
        hash: "cafe".to_string(),
        kind: EntryKind::Text,
        detected_formats: vec!["public.html".to_string()],
        copy_count: 5,
        first_seen: 0,
        last_seen: 60,
        byte_size: 7,
        sources: Vec::new(),
        summary: None,
        search_text: None,
        version: "1".to_string(),
        relative_path: "objects/ca/fe/cafe".to_string(),
        content_filename: "x".to_string(),
        files: Vec::new(),
        extra,
    }
}

#[test]
fn simple_json_item_plugin_choice() {
    let extra = obj(vec![
        ("plugins", obj(vec![("html", obj(vec![])), ("text", obj(vec![]))])),
        ("pluginOrder", Json::Array(vec![s("nope"), s("html"), s("text")])),
    ]);
    let m = stored_entry(extra);
    assert_eq!(json_item_plugin(&m, None).unwrap(), "html");
    assert_eq!(json_item_plugin(&m, Some("text")).unwrap(), "text");
    assert_eq!(json_item_plugin(&m, Some("image")).unwrap(), "html");
    let none = stored_entry(obj(vec![("plugins", obj(vec![("nope", obj(vec![]))]))]));
    assert_eq!(json_item_plugin(&none, None).unwrap_err(), "No plugin could build JSON item for cafe");
    assert_eq!(json_item_plugin(&stored_entry(Json::Null), None).unwrap_err(), "Missing plugin metadata for cafe");
}

#[test]
fn simple_json_item_fields() {
    let m = stored_entry(Json::Null);
    let item = build_json_item(&m, 3, Some(9), "/p".to_string(), "files", s("d"));
    assert_eq!(item.index, 3);
    assert_eq!(item.real_index, Some(9));
    assert_eq!(item.id, "cafe");
    assert!(item.date.starts_with("1970-01-01T00:01:00"));
    assert_eq!(item.item_type, "file");
    assert_eq!(item.size, 7);
    assert_eq!(item.data_path, "/p");
    assert_eq!(item.copy_count, Some(5));
    assert_eq!(item.detected_formats, Some(vec!["public.html".to_string()]));
    assert!(matches!(item.data, Json::Str(ref d) if d == "d"));
}
