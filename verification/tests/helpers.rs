use fold_ingestion::helpers::{
    ollama_models_from, resolve_folder_path, validate_folder, ApplePhotosRequest, FolderValidationError,
};
use std::path::PathBuf;
use fold_ingestion::json::Json;

#[test]
fn folder_validation_reports_missing_before_not_a_directory() {
    assert!(validate_folder("/data", true, true).is_ok());
    match validate_folder("/nope", false, false) {
        Err(e @ FolderValidationError::NotFound(_)) => assert_eq!(e.message(), "Folder not found: /nope"),
        other => panic!("unexpected {other:?}"),
    }
    match validate_folder("/file.txt", true, false) {
        Err(e @ FolderValidationError::NotADirectory(_)) => {
            assert_eq!(e.message(), "Path is not a directory: /file.txt")
        }
        other => panic!("unexpected {other:?}"),
    }
}

#[test]
fn photos_request_limit_defaults_to_fifty() {
    assert_eq!(ApplePhotosRequest { album: None, limit: None }.effective_limit(), 50);
    assert_eq!(ApplePhotosRequest { album: None, limit: Some(7) }.effective_limit(), 7);
}

fn jobj(members: Vec<(&str, Json)>) -> Json {
    Json::Object(members.into_iter().map(|(k, v)| (k.to_string(), v)).collect())
}

#[test]
fn ollama_models_are_the_named_entries_with_their_sizes() {
    let body = jobj(vec![(
        "models",
        Json::Array(vec![
            jobj(vec![("name", Json::Str("llama3.2:3b".to_string())), ("size", Json::Number("2019393189".to_string()))]),
            jobj(vec![("size", Json::Number("5".to_string()))]),
            jobj(vec![("name", Json::Str("tiny".to_string())), ("size", Json::Number("1.5".to_string()))]),
            jobj(vec![("name", Json::Str("nosize".to_string()))]),
        ]),
    )]);
    let models = ollama_models_from(&body);
    let got: Vec<(String, u64)> = models.into_iter().map(|m| (m.name, m.size)).collect();
    assert_eq!(
        got,
        vec![("llama3.2:3b".to_string(), 2019393189), ("tiny".to_string(), 0), ("nosize".to_string(), 0)]
    );
    assert!(ollama_models_from(&jobj(vec![("models", Json::Null)])).is_empty());
    assert!(ollama_models_from(&Json::Array(vec![])).is_empty());
}

fn home_and_cwd() -> (PathBuf, String) {
    let home = dirs::home_dir().expect("home_dir must exist for this test");
    (home, "/work".to_string())
}

#[test]
fn test_resolve_folder_path_tilde() {
    let (home, cwd) = home_and_cwd();
    let result = resolve_folder_path("~/Documents", home.to_str(), &cwd);
    assert_eq!(PathBuf::from(result), home.join("Documents"));
}

#[test]
fn test_resolve_folder_path_tilde_only() {
    let (home, cwd) = home_and_cwd();
    let result = resolve_folder_path("~", home.to_str(), &cwd);
    assert_eq!(PathBuf::from(result), home);
}

#[test]
fn test_resolve_folder_path_absolute() {
    let (home, cwd) = home_and_cwd();
    let result = resolve_folder_path("/tmp/test", home.to_str(), &cwd);
    assert_eq!(PathBuf::from(result), PathBuf::from("/tmp/test"));
}

#[test]
fn folder_paths_resolve_like_std_paths() {
    assert_eq!(resolve_folder_path("~/docs", Some("/home/u"), "/work"), "/home/u/docs");
    assert_eq!(resolve_folder_path("~/docs", Some("/home/u/"), "/work"), "/home/u/docs");
    assert_eq!(resolve_folder_path("~", None, "/work"), "/work/~");
    assert_eq!(resolve_folder_path("~/docs", None, "/work"), "/work/~/docs");
    assert_eq!(resolve_folder_path("notes", Some("/home/u"), "/work"), "/work/notes");
    assert_eq!(resolve_folder_path("notes", None, "/"), "/notes");
    assert_eq!(resolve_folder_path("~user/x", Some("/home/u"), "/w"), "/w/~user/x");
    for (path, home, cwd) in [("~/a/b", Some("/h"), "/c"), ("rel/x", None, "/c/d"), ("~", Some("rel"), "/c"), ("x", None, "")] {
        let expected = {
            let expanded = if path == "~" {
                home.map(PathBuf::from).unwrap_or_else(|| PathBuf::from(path))
            } else if let Some(rest) = path.strip_prefix("~/") {
                home.map(|h| PathBuf::from(h).join(rest)).unwrap_or_else(|| PathBuf::from(path))
            } else {
                PathBuf::from(path)
            };
            if expanded.is_absolute() { expanded } else { PathBuf::from(cwd).join(expanded) }
        };
        assert_eq!(PathBuf::from(resolve_folder_path(path, home, cwd)), expected);
    }
}
