use get_clipboard::json::Json;
use get_clipboard::preview::{
    file_preview_row, files_preview, files_preview_text, html_preview, text_preview, text_preview_with,
};

fn obj(members: Vec<(&str, Json)>) -> Json {
    Json::Object(members.into_iter().map(|(k, v)| (k.to_string(), v)).collect())
}

fn s(x: &str) -> Json {
    Json::Str(x.to_string())
}

fn n(x: &str) -> Json {
    Json::Number(x.to_string())
}

#[test]
fn text_preview_escapes_plain_text() {
    let p = text_preview("a < b & c > d").unwrap();
    assert_eq!(p.content, "a &lt; b &amp; c &gt; d");
    assert_eq!(p.raw_text, "a < b & c > d");
    assert!(!p.is_svg);
    assert!(!p.is_color);
    assert!(!p.is_url);
    assert_eq!(p.color_value, "");
    assert_eq!(p.url, "");
}

#[test]
fn text_preview_keeps_svg_markup() {
    let text = "  <svg width=\"1\"><rect/></svg>\n";
    let p = text_preview(text).unwrap();
    assert!(p.is_svg);
    assert_eq!(p.content, text);
    assert!(!p.is_url);
}

#[test]
fn text_preview_recognises_colours() {
    for c in ["#FFF", "#a1b2c3", "rgb(1, 2, 3)", "RGBA (0,0,0,0.5)", "hsl(120, 50%, 50%)", "HSLA(1,2%,3%,1)"] {
        let p = text_preview(&format!(" {c} ")).unwrap();
        assert!(p.is_color, "{c}");
        assert_eq!(p.color_value, c);
        assert!(!p.is_url);
    }
    for c in ["#abcd", "#ggg", "red", "xrgb(1,2,3)"] {
        let p = text_preview(c).unwrap();
        assert!(!p.is_color, "{c}");
        assert_eq!(p.color_value, "");
    }
}

#[test]
fn text_preview_recognises_links() {
    let p = text_preview("  https://example.com/a?b=1&c=2 ").unwrap();
    assert!(p.is_url);
    assert_eq!(p.url, "https://example.com/a?b=1&c=2");
    assert_eq!(p.content, "  https://example.com/a?b=1&amp;c=2 ");
    let p = text_preview("http://x").unwrap();
    assert!(p.is_url);
    let p = text_preview("ftp://x").unwrap();
    assert!(!p.is_url);
}

#[test]
fn text_preview_with_given_colour_flag() {
    let p = text_preview_with("https://a", true);
    assert!(p.is_color);
    assert!(!p.is_url);
    assert_eq!(p.color_value, "https://a");
    let p = text_preview_with("#fff", false);
    assert!(!p.is_color);
    assert_eq!(p.color_value, "");
}

#[test]
fn html_preview_escapes_attribute() {
    assert_eq!(
        html_preview("<a href=\"x\">&'</a>"),
        "&lt;a href=&quot;x&quot;&gt;&amp;'&lt;/a&gt;"
    );
    assert_eq!(html_preview("plain é"), "plain é");
}

#[test]
fn files_preview_lists_entries() {
    let meta = obj(vec![(
        "entries",
        Json::Array(vec![
            obj(vec![("name", s("a.txt")), ("size", n("2048")), ("source_path", s("/tmp/a.txt"))]),
            obj(vec![("name", n("5")), ("size", s("big"))]),
        ]),
    )]);
    let rows = files_preview(&meta).unwrap();
    assert_eq!(rows.len(), 2);
    assert_eq!((rows[0].name.as_str(), rows[0].size.as_str(), rows[0].path.as_str()), ("a.txt", "2.0 KB", "/tmp/a.txt"));
    assert_eq!((rows[1].name.as_str(), rows[1].size.as_str(), rows[1].path.as_str()), ("", "0.0 KB", ""));
    assert_eq!(files_preview_text(&rows), "/tmp/a.txt\n");
}

#[test]
fn files_preview_needs_entries() {
    let err = files_preview(&obj(vec![("count", n("1"))])).err().unwrap();
    assert_eq!(err, "file plugin metadata missing entries");
    assert!(files_preview(&obj(vec![("entries", s("x"))])).is_err());
}

#[test]
fn file_preview_row_size_in_kb() {
    let row = file_preview_row(&obj(vec![("size", n("1536")), ("source_path", s("/p"))]));
    assert_eq!(row.size, "1.5 KB");
    assert_eq!(row.path, "/p");
    assert_eq!(row.name, "");
}
