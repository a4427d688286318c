use get_clipboard::api::{api_sort, api_stats, formats_filter, id_selectors, latest_record, search_query};
use get_clipboard::index::SearchIndex;
use get_clipboard::model::{EntryKind, SearchIndexRecord};
use get_clipboard::search::SortOrder;
use get_clipboard::selector::{ApiError, Selector};

fn rec(hash: &str, last_seen: i64, kind: EntryKind, formats: Vec<&str>, size: u64) -> SearchIndexRecord {
    SearchIndexRecord {
        hash: hash.to_string(),
        last_seen,
        kind,
        copy_count: 1,
        summary: None,
        search_text: None,
        detected_formats: formats.into_iter().map(String::from).collect(),
        byte_size: size,
        relative_path: format!("objects/{}/{}/{}", &hash[0..2], &hash[2..4], hash),
    }
}

#[test]
fn formats_parameter() {
    let f = formats_filter(" Text ,FILES, public.HTML,");
    assert!(f.include_text);
    assert!(!f.include_image);
    assert!(f.include_file);
    assert!(!f.include_other);
    assert_eq!(f.include_formats, vec!["public.html".to_string(), String::new()]);
    let g = formats_filter("image,file");
    assert!(g.include_image && g.include_file && !g.include_text);
    assert!(g.include_formats.is_empty());
}

#[test]
fn sort_parameter() {
    assert!(matches!(api_sort("COPIES", false), SortOrder::Copies));
    assert!(matches!(api_sort("type", false), SortOrder::Type));
    assert!(matches!(api_sort("relevance", false), SortOrder::Date));
    assert!(matches!(api_sort("Relevance", true), SortOrder::Relevance));
    assert!(matches!(api_sort("whatever", true), SortOrder::Date));
}

#[test]
fn search_parameters() {
    assert_eq!(search_query(Some("  cat "), false, false).ok().unwrap(), Some("cat".to_string()));
    assert_eq!(search_query(Some("   "), true, false).ok().unwrap(), None);
    assert_eq!(search_query(None, false, true).ok().unwrap(), None);
    match search_query(Some(" "), false, false) {
        Err(ApiError::BadRequest(m)) => assert_eq!(m, "query, formats, or sort parameter must be provided"),
        _ => panic!("expected a bad request"),
    }
}

#[test]
fn ids_parameter() {
    let sels = id_selectors(" 3, ,abcdef12,x,");
    assert_eq!(sels.len(), 3);
    assert!(matches!(&sels[0], Selector::Offset(3)));
    assert!(matches!(&sels[1], Selector::Hash(h) if h == "abcdef12"));
    assert!(matches!(&sels[2], Selector::Hash(h) if h == "x"));
}

#[test]
fn stats_by_kind_and_day() {
    let index = SearchIndex::from_records(vec![
        rec("aaaa01", 1704164645, EntryKind::Text, vec!["public.html"], 10),
        rec("aaaa02", 1704164700, EntryKind::Text, vec![], 5),
        rec("aaaa03", 1704250000, EntryKind::Image, vec!["TEXT/HTML"], 7),
    ]);
    let stats = api_stats(&index);
    assert_eq!(stats.total_items, 3);
    assert_eq!(stats.total_size, 22);
    let mut counts = stats.type_counts.clone();
    counts.sort();
    assert_eq!(counts, vec![("html".to_string(), 2), ("image".to_string(), 1), ("text".to_string(), 2)]);
    let mut days: Vec<(String, String, usize, Vec<String>)> =
        stats.history.into_iter().map(|d| (d.day, d.kind, d.count, d.ids)).collect();
    days.sort();
    assert_eq!(
        days,
        vec![
            ("2024-01-02".to_string(), "text".to_string(), 2, vec!["aaaa01".to_string(), "aaaa02".to_string()]),
            ("2024-01-03".to_string(), "image".to_string(), 1, vec!["aaaa03".to_string()]),
        ]
    );
}

#[test]
fn latest_change() {
    assert_eq!(latest_record(&SearchIndex::new()), None);
    let index = SearchIndex::from_records(vec![
        rec("bbbb01", 5, EntryKind::Text, vec![], 1),
        rec("bbbb02", 9, EntryKind::Text, vec![], 1),
        rec("bbbb03", 2, EntryKind::Text, vec![], 1),
    ]);
    let i = latest_record(&index).unwrap();
    assert_eq!(index.records()[i].hash, "bbbb02");
}
