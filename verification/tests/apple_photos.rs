use fold_ingestion::apple::photos::{build_script, export_dir_str};

#[test]
fn build_script_with_album() {
    let script = build_script(Some("Vacation"), 10);
    assert!(script.contains(r#"album "Vacation""#));
    assert!(script.contains("10"));
    assert!(script.contains("export"));
    assert!(script.contains(export_dir_str()));
}

#[test]
fn build_script_all() {
    let script = build_script(None, 50);
    assert!(!script.contains("targetAlbum"));
    assert!(script.contains("50"));
    assert!(script.contains("export"));
}

#[test]
fn photos_limit_is_printed_in_decimal() {
    let script = build_script(None, 1234);
    assert!(script.contains("set maxItems to 1234\n"));
    assert!(script.contains("POSIX file \"/tmp/folddb_photos\" with using originals"));
}
