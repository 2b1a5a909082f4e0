use fold_ingestion::digest::content_address;
use fold_ingestion::upload::{field_kind, FieldKind, UploadForm};

#[test]
fn test_unique_filename_format() {
    // The unique filename is the full SHA256 hex hash (content-addressed)
    let test_content = b"test file content";
    let hash_hex = content_address(test_content);

    // Full hash is 64 hex chars
    assert_eq!(hash_hex.len(), 64);

    // The filename IS the hash (content-addressed)
    let unique_filename = hash_hex.clone();
    assert_eq!(unique_filename, hash_hex);
}

#[test]
fn test_hash_consistency() {
    // Same content should produce same hash
    let content = b"identical content";
    let hash1 = content_address(content);
    let hash2 = content_address(content);
    assert_eq!(hash1, hash2);
}

#[test]
fn test_hash_uniqueness() {
    // Different content should produce different hashes
    let hash1 = content_address(b"content one");
    let hash2 = content_address(b"content two");
    assert_ne!(hash1, hash2);
}

#[test]
fn content_address_is_the_sha256_hex_digest() {
    assert_eq!(
        content_address(b""),
        "e3b0c44298fc1c149afbf4c8996fb92427ae41e4649b934ca495991b7852b855"
    );
    assert_eq!(
        content_address(b"abc"),
        "ba7816bf8f01cfea414140de5dae2223b00361a396177a9cb410ff61f20015ad"
    );
}

#[test]
fn form_fields_are_dispatched_by_name() {
    assert_eq!(field_kind(Some("file")), FieldKind::File);
    assert_eq!(field_kind(Some("autoExecute")), FieldKind::AutoExecute);
    assert_eq!(field_kind(Some("pubKey")), FieldKind::PubKey);
    assert_eq!(field_kind(Some("progressId")), FieldKind::ProgressId);
    assert_eq!(field_kind(Some("progress_id")), FieldKind::ProgressId);
    assert_eq!(field_kind(Some("s3FilePath")), FieldKind::Other);
    assert_eq!(field_kind(None), FieldKind::Other);
}

#[test]
fn form_without_a_file_is_refused() {
    let mut form = UploadForm::new();
    form.pub_key_field(Some("k".to_string()));
    assert_eq!(form.finish().unwrap_err(), "No file provided");
}

#[test]
fn form_options_keep_their_defaults_unless_given() {
    let mut form = UploadForm::new();
    form.saved_file("/tmp/f".to_string(), "abc".to_string(), true, "abc".to_string());
    form.auto_execute_field(Some("maybe".to_string()));
    form.progress_id_field(Some("p-1".to_string()));
    let data = form.finish().unwrap();
    assert_eq!(data.file_path, "/tmp/f");
    assert_eq!(data.original_filename, "abc");
    assert!(data.auto_execute);
    assert_eq!(data.pub_key, "default");
    assert!(data.already_exists);
    assert_eq!(data.progress_id, Some("p-1".to_string()));
    assert_eq!(data.file_hash, "abc");

    let mut form = UploadForm::new();
    form.saved_file("/tmp/g".to_string(), "h".to_string(), false, "h".to_string());
    form.auto_execute_field(Some("false".to_string()));
    form.pub_key_field(None);
    let data = form.finish().unwrap();
    assert!(!data.auto_execute);
    assert_eq!(data.pub_key, "default");
}
