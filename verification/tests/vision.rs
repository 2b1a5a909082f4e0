use fold_ingestion::vision::{media_type_for_extension, supports_extension};

#[test]
fn media_type_handles_common_image_extensions() {
    assert_eq!(media_type_for_extension("jpg"), Some("image/jpeg"));
    assert_eq!(media_type_for_extension("JPG"), Some("image/jpeg"));
    assert_eq!(media_type_for_extension("jpeg"), Some("image/jpeg"));
    assert_eq!(media_type_for_extension("png"), Some("image/png"));
    assert_eq!(media_type_for_extension("gif"), Some("image/gif"));
    assert_eq!(media_type_for_extension("webp"), Some("image/webp"));
}

#[test]
fn media_type_rejects_unsupported_extensions() {
    assert_eq!(media_type_for_extension("bmp"), None);
    assert_eq!(media_type_for_extension("tiff"), None);
    assert_eq!(media_type_for_extension("pdf"), None);
    assert_eq!(media_type_for_extension("svg"), None);
    assert_eq!(media_type_for_extension(""), None);
}

#[test]
fn supports_extension_matches_media_type_check() {
    assert!(supports_extension("jpg"));
    assert!(supports_extension("PNG"));
    assert!(!supports_extension("pdf"));
    assert!(!supports_extension("txt"));
}
