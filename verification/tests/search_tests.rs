use get_clipboard::index::SearchIndex;
use get_clipboard::model::{EntryKind, SearchIndexRecord};
use get_clipboard::search::{parse_search_query, search, SearchOptions, SelectionFilter, SortOrder};

fn create_record(hash: &str, kind: EntryKind, formats: Vec<String>, summary: Option<String>) -> SearchIndexRecord {
    SearchIndexRecord {
        hash: hash.to_string(),
        last_seen: 1_700_000_000,
        kind,
        copy_count: 1,
        summary,
        search_text: None,
        detected_formats: formats,
        byte_size: 100,
        relative_path: "".to_string(),
    }
}

fn record_at(hash: &str, last_seen: i64, summary: &str) -> SearchIndexRecord {
    SearchIndexRecord {
        hash: hash.to_string(),
        last_seen,
        kind: EntryKind::Text,
        copy_count: 1,
        summary: Some(summary.to_string()),
        search_text: Some(summary.to_string()),
        detected_formats: vec!["public.utf8-plain-text".to_string()],
        byte_size: 10,
        relative_path: format!("objects/{}", hash),
    }
}

#[test]
fn test_parse_search_query_link() {
    let (query, is_regex, _) = parse_search_query("@link", false);
    assert!(is_regex);
    let re = regex::RegexBuilder::new(&query).case_insensitive(true).build().unwrap();

    assert!(re.is_match("https://google.com"));
    assert!(re.is_match("http://example.com/foo"));
    assert!(!re.is_match("foo https://google.com bar"));
}

#[test]
fn test_parse_search_query_email() {
    let (query, is_regex, _) = parse_search_query("@email", false);
    assert!(is_regex);
    let re = regex::RegexBuilder::new(&query).case_insensitive(true).build().unwrap();

    assert!(re.is_match("test@example.com"));
    assert!(re.is_match("foo.bar@baz.co.uk"));
    assert!(!re.is_match("not an email"));
    assert!(!re.is_match("contact: email@inside.text"));
}

#[test]
fn test_search_html_filter() {
    let (_, _, filter) = parse_search_query("@html", false);
    assert!(filter.include_html);

    let record_html = create_record("1", EntryKind::Text, vec!["public.html".to_string()], None);
    let record_text = create_record("2", EntryKind::Text, vec!["public.utf8-plain-text".to_string()], None);

    assert!(filter.matches(&record_html));
    assert!(!filter.matches(&record_text));
}

#[test]
fn empty_filter_lets_everything_through() {
    let filter = SelectionFilter::default();
    let record = create_record("1", EntryKind::Image, vec![], None);
    assert!(filter.matches(&record));
}

#[test]
fn search_orders_by_date_and_pages() {
    let index = SearchIndex::from_records(vec![
        record_at("aaaaaa01", 100, "first apple"),
        record_at("aaaaaa02", 300, "third apple"),
        record_at("aaaaaa03", 200, "second pear"),
    ]);
    let mut options = SearchOptions::default();
    let result = search(&index, &options);
    let hashes: Vec<&str> = result.hits.iter().map(|h| h.hash.as_str()).collect();
    assert_eq!(hashes, vec!["aaaaaa02", "aaaaaa03", "aaaaaa01"]);
    assert!(!result.has_more);

    options.limit = Some(1);
    options.offset = 1;
    let page = search(&index, &options);
    assert_eq!(page.hits.len(), 1);
    assert_eq!(page.hits[0].hash, "aaaaaa03");
    assert_eq!(page.hits[0].offset, 1);
    assert!(page.has_more);

    let mut query = SearchOptions::default();
    query.query = Some("APPLE".to_string());
    let found = search(&index, &query);
    let hashes: Vec<&str> = found.hits.iter().map(|h| h.hash.as_str()).collect();
    assert_eq!(hashes, vec!["aaaaaa02", "aaaaaa01"]);
    assert_eq!(found.hits[1].global_offset, 2);

    let mut by_relevance = SearchOptions::default();
    by_relevance.query = Some("pear".to_string());
    by_relevance.sort = SortOrder::Relevance;
    let r = search(&index, &by_relevance);
    assert_eq!(r.hits.len(), 1);
    assert_eq!(r.hits[0].hash, "aaaaaa03");
}

#[test]
fn search_by_date_range() {
    let index = SearchIndex::from_records(vec![
        record_at("aaaaaa01", 100, "one"),
        record_at("aaaaaa02", 300, "three"),
        record_at("aaaaaa03", 200, "two"),
    ]);
    let mut options = SearchOptions::default();
    options.from = Some(150);
    options.to = Some(250);
    let r = search(&index, &options);
    assert_eq!(r.hits.len(), 1);
    assert_eq!(r.hits[0].hash, "aaaaaa03");
}

#[test]
fn type_operator_sets_filter_and_leaves_query() {
    let (query, is_regex, filter) = parse_search_query("type:image", false);
    assert_eq!(query, "");
    assert!(!is_regex);
    assert!(filter.include_image);
    assert!(!filter.include_text && !filter.include_file && !filter.include_html && !filter.include_other);
}

#[test]
fn type_operators_among_words() {
    let (query, _, filter) = parse_search_query("foo type:file bar type:html", true);
    assert_eq!(query, "foo bar");
    assert!(filter.include_file && filter.include_html);
    assert!(!filter.include_image);
    let (query, _, filter) = parse_search_query("type:text type:other", false);
    assert_eq!(query, "");
    assert!(filter.include_text && filter.include_other);
}

#[test]
fn query_without_operator_is_kept() {
    let (query, _, filter) = parse_search_query("  type:images and  more ", false);
    assert_eq!(query, "  type:images and  more ");
    assert!(!filter.include_image);
    let (query, _, filter) = parse_search_query("@image", false);
    assert_eq!(query, "");
    assert!(filter.include_image);
}

#[test]
fn search_with_normalized_query_is_the_same() {
    let index = SearchIndex::from_records(vec![
        record_at("aaaaaa01", 100, "first Apple"),
        record_at("aaaaaa02", 300, "third apple pie"),
        record_at("aaaaaa03", 200, "second pear"),
    ]);
    for sort in [SortOrder::Date, SortOrder::Relevance] {
        let mut raw = SearchOptions::default();
        raw.query = Some("  APPLE ".to_string());
        raw.sort = sort;
        let mut normalized = SearchOptions::default();
        normalized.query = Some("apple".to_string());
        normalized.sort = sort;
        let a = search(&index, &raw);
        let b = search(&index, &normalized);
        let key = |r: &get_clipboard::search::SearchResult| {
            r.hits.iter().map(|h| (h.hash.clone(), h.offset, h.global_offset)).collect::<Vec<_>>()
        };
        assert_eq!(key(&a), key(&b));
        assert_eq!(a.has_more, b.has_more);
        assert_eq!(a.total, b.total);
        assert_eq!(a.hits.len(), 2);
    }
}
