use fold_ingestion::error::IngestionError;
use fold_ingestion::file_conversion::{content_kind, unsupported_file_type, ContentKind};

fn list(items: &[&str]) -> Vec<String> {
    items.iter().map(|t| t.to_string()).collect()
}

#[test]
fn files_are_converted_by_extension() {
    let code = list(&["rs", "py", "js", "md"]);
    let config = list(&["yaml", "toml", "json"]);
    assert_eq!(content_kind("json", &code, &config), ContentKind::Json);
    assert_eq!(content_kind("js", &code, &config), ContentKind::Js);
    assert_eq!(content_kind("csv", &code, &config), ContentKind::Csv);
    assert_eq!(content_kind("txt", &code, &config), ContentKind::Text);
    assert_eq!(content_kind("md", &code, &config), ContentKind::Text);
    assert_eq!(content_kind("rs", &code, &config), ContentKind::Code);
    assert_eq!(content_kind("toml", &code, &config), ContentKind::Config);
    assert_eq!(content_kind("exe", &code, &config), ContentKind::Unsupported);
    assert_eq!(content_kind("JSON", &code, &config), ContentKind::Unsupported);
    match unsupported_file_type("exe") {
        IngestionError::InvalidInput(m) => assert_eq!(m, "Unsupported file type: exe"),
        other => panic!("unexpected {other:?}"),
    }
}
