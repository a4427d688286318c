use get_clipboard::item::{hash_content, ClipboardFormats};

fn text_formats(text: &str) -> ClipboardFormats {
    ClipboardFormats {
        txt: Some(text.to_string()),
        html: None,
        rtf: None,
        image_data: None,
        image_preview: None,
        files: None,
        custom_formats: None,
    }
}

fn files_formats(files: Vec<String>) -> ClipboardFormats {
    ClipboardFormats {
        txt: None,
        html: None,
        rtf: None,
        image_data: None,
        image_preview: None,
        files: Some(files),
        custom_formats: None,
    }
}

fn mixed() -> ClipboardFormats {
    ClipboardFormats {
        txt: Some("Sample text".to_string()),
        html: Some("<p>Sample HTML</p>".to_string()),
        rtf: None,
        image_data: None,
        image_preview: None,
        files: None,
        custom_formats: None,
    }
}

fn image() -> ClipboardFormats {
    let base64_image = "iVBORw0KGgoAAAANSUhEUgAAAAEAAAABCAYAAAAfFcSJAAAADUlEQVR42mP8/5+hHgAHggJ/PchI7wAAAABJRU5ErkJggg==";
    let data_uri = format!("data:image/png;base64,{}", base64_image);
    ClipboardFormats {
        txt: None,
        html: None,
        rtf: None,
        image_data: Some(data_uri),
        image_preview: None,
        files: None,
        custom_formats: None,
    }
}

#[test]
fn structs_test_hash_text_content() {
    let formats = text_formats("Hello, World!");
    let hash1 = hash_content(&formats).unwrap();
    let hash2 = hash_content(&formats).unwrap();
    assert_eq!(hash1, hash2);
    assert_eq!(hash1.len(), 64);
}

#[test]
fn structs_test_hash_different_text() {
    let hash1 = hash_content(&text_formats("Hello, World!")).unwrap();
    let hash2 = hash_content(&text_formats("Hello, Universe!")).unwrap();
    assert_ne!(hash1, hash2);
}

#[test]
fn structs_test_hash_image_data() {
    let formats = image();
    let hash1 = hash_content(&formats).unwrap();
    let hash2 = hash_content(&formats).unwrap();
    assert_eq!(hash1, hash2);
}

#[test]
fn structs_test_hash_files() {
    let files1 = vec!["/path/to/file1.txt".to_string(), "/path/to/file2.txt".to_string()];
    let files2 = vec!["/path/to/file2.txt".to_string(), "/path/to/file1.txt".to_string()];
    let hash1 = hash_content(&files_formats(files1)).unwrap();
    let hash2 = hash_content(&files_formats(files2)).unwrap();
    assert_eq!(hash1, hash2);
}

#[test]
fn structs_test_hash_mixed_content() {
    let hash1 = hash_content(&mixed()).unwrap();
    let hash2 = hash_content(&mixed()).unwrap();
    assert_eq!(hash1, hash2);
}

#[test]
fn structs_test_hash_empty_content() {
    let formats = ClipboardFormats::default();
    let hash1 = hash_content(&formats).unwrap();
    let hash2 = hash_content(&formats).unwrap();
    assert_eq!(hash1, hash2);
}

#[test]
fn test_hash_test_hash_text_content() {
    let formats = text_formats("Hello, World!");
    let hash1 = hash_content(&formats).unwrap();
    let hash2 = hash_content(&formats).unwrap();
    assert_eq!(hash1, hash2);
    assert_eq!(hash1.len(), 64);
}

#[test]
fn test_hash_test_hash_different_text() {
    let hash1 = hash_content(&text_formats("Hello, World!")).unwrap();
    let hash2 = hash_content(&text_formats("Hello, Universe!")).unwrap();
    assert_ne!(hash1, hash2);
}

#[test]
fn test_hash_test_hash_image_data() {
    let formats = image();
    let hash1 = hash_content(&formats).unwrap();
    let hash2 = hash_content(&formats).unwrap();
    assert_eq!(hash1, hash2);
}

#[test]
fn test_hash_test_hash_files() {
    let files1 = vec!["/path/to/file1.txt".to_string(), "/path/to/file2.txt".to_string()];
    let files2 = vec!["/path/to/file2.txt".to_string(), "/path/to/file1.txt".to_string()];
    let hash1 = hash_content(&files_formats(files1)).unwrap();
    let hash2 = hash_content(&files_formats(files2)).unwrap();
    assert_eq!(hash1, hash2);
}

#[test]
fn test_hash_test_hash_mixed_content() {
    let hash1 = hash_content(&mixed()).unwrap();
    let hash2 = hash_content(&mixed()).unwrap();
    assert_eq!(hash1, hash2);
}

#[test]
fn test_hash_test_hash_empty_content() {
    let formats = ClipboardFormats::default();
    let hash1 = hash_content(&formats).unwrap();
    let hash2 = hash_content(&formats).unwrap();
    assert_eq!(hash1, hash2);
}

#[test]
fn hash_of_text_is_sha256_hex_of_its_bytes() {
    // SHA-256 of "abc".
    let h = hash_content(&text_formats("abc")).unwrap();
    assert_eq!(h, "ba7816bf8f01cfea414140de5dae2223b00361a396177a9cb410ff61f20015ad");
}

#[test]
fn hash_of_empty_content_is_sha256_of_nothing() {
    let h = hash_content(&ClipboardFormats::default()).unwrap();
    assert_eq!(h, "e3b0c44298fc1c149afbf4c8996fb92427ae41e4649b934ca495991b7852b855");
}

#[test]
fn image_hash_digests_decoded_png() {
    let a = hash_content(&image()).unwrap();
    let mut raw = image();
    raw.image_data = Some("not a data uri".to_string());
    let b = hash_content(&raw).unwrap();
    assert_ne!(a, b);
}

#[test]
fn custom_formats_are_hashed_in_name_order() {
    let mut f1 = ClipboardFormats::default();
    f1.custom_formats = Some(vec![("b".into(), "2".into()), ("a".into(), "1".into())]);
    let mut f2 = ClipboardFormats::default();
    f2.custom_formats = Some(vec![("a".into(), "1".into()), ("b".into(), "2".into())]);
    assert_eq!(hash_content(&f1).unwrap(), hash_content(&f2).unwrap());
    let mut t = ClipboardFormats::default();
    t.txt = Some("a1b2".into());
    assert_eq!(hash_content(&f1).unwrap(), hash_content(&t).unwrap());
}
