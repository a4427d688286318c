use get_clipboard::layout::{item_dir, join, relative_path_for_hash};
use get_clipboard::model::{EntryKind, JournalEntry, SearchIndexRecord};

#[test]
fn relative_path_joined_to_data_dir_is_item_dir() {
    for data_dir in ["/data", "/data/", "", "rel/dir"] {
        for hash in ["abcd", "0123456789abcdef", "ab cd"] {
            let rel = relative_path_for_hash(hash);
            assert_eq!(join(data_dir, &rel), item_dir(data_dir, hash), "{data_dir} {hash}");
        }
    }
    assert_eq!(relative_path_for_hash("abcdef"), "objects/ab/cd/abcdef");
    assert_eq!(item_dir("/d", "abcdef"), "/d/objects/ab/cd/abcdef");
}

#[test]
fn journal_line_round_trips_record() {
    let rec = SearchIndexRecord {
        hash: "deadbeef".to_string(),
        last_seen: 42,
        kind: EntryKind::Text,
        copy_count: 3,
        summary: Some("hello".to_string()),
        search_text: None,
        detected_formats: vec!["public.utf8-plain-text".to_string()],
        byte_size: 5,
        relative_path: "somewhere/else".to_string(),
    };
    let back = JournalEntry::from_record(&rec).to_record().unwrap();
    assert_eq!(back.hash, rec.hash);
    assert_eq!(back.last_seen, rec.last_seen);
    assert_eq!(back.copy_count, rec.copy_count);
    assert_eq!(back.summary, rec.summary);
    assert_eq!(back.search_text, rec.search_text);
    assert_eq!(back.detected_formats, rec.detected_formats);
    assert_eq!(back.byte_size, rec.byte_size);
    assert_eq!(back.relative_path, "objects/de/ad/deadbeef");
    assert!(JournalEntry::delete("deadbeef").to_record().is_none());
}
