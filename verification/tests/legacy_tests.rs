use get_clipboard::legacy::{is_legacy_year_dir, migrated_record};
use get_clipboard::model::{EntryKind, SearchIndexRecord};

#[test]
fn legacy_year_directories() {
    assert!(is_legacy_year_dir("2024"));
    assert!(is_legacy_year_dir("0000"));
    assert!(!is_legacy_year_dir("202"));
    assert!(!is_legacy_year_dir("20245"));
    assert!(!is_legacy_year_dir("20a4"));
    assert!(!is_legacy_year_dir("２０２４"));
    assert!(!is_legacy_year_dir("objects"));
}

#[test]
fn migrated_record_moves_to_object_store() {
    let record = SearchIndexRecord {
        hash: "abcdef".to_string(),
        last_seen: 17,
        kind: EntryKind::Text,
        copy_count: 3,
        summary: Some("s".to_string()),
        search_text: Some("t".to_string()),
        detected_formats: vec!["public.utf8-plain-text".to_string()],
        byte_size: 9,
        relative_path: "2024/01/ab/cd/abcdef".to_string(),
    };
    let moved = migrated_record(&record);
    assert_eq!(moved.relative_path, "objects/ab/cd/abcdef");
    assert_eq!(moved.hash, "abcdef");
    assert_eq!(moved.last_seen, 17);
    assert_eq!(moved.copy_count, 3);
    assert_eq!(moved.summary.as_deref(), Some("s"));
    assert_eq!(moved.search_text.as_deref(), Some("t"));
    assert_eq!(moved.detected_formats, record.detected_formats);
    assert_eq!(moved.byte_size, 9);
}
