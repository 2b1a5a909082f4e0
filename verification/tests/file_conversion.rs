use fold_ingestion::file_conversion::{
    derive_category_hint, extract_code_metadata, js_to_json, trim_all, wrap_text_content, CodeMetadata, JsContent,
};
use fold_ingestion::json::Json;

fn meta(content: &str, file: &str, ext: &str) -> CodeMetadata {
    extract_code_metadata(content, file, ext).unwrap()
}

fn js(content: &str, file: &str) -> JsContent {
    js_to_json(content, file).unwrap().unwrap()
}

#[test]
fn file_conversion_test_extract_code_metadata_python() {
    let content = r#"# Helper utilities
class MyClass:
    def __init__(self):
        pass

def foo(x, y):
    # compute sum
    return x + y

async def bar():
    pass
"#;
    let val = meta(content, "example.py", "py");
    assert_eq!(val.source_file, "example.py");
    assert_eq!(val.file_type, "py");

    let functions = &val.functions;
    assert!(functions.iter().any(|f| f.contains("def foo")));
    assert!(functions.iter().any(|f| f.contains("def bar")));
    assert!(functions.iter().any(|f| f.contains("def __init__")));

    assert!(val.classes.iter().any(|c| c.contains("class MyClass")));

    assert!(val.comments.iter().any(|c| c.contains("Helper utilities")));
    assert!(val.comments.iter().any(|c| c.contains("compute sum")));
}

#[test]
fn file_conversion_test_extract_code_metadata_rust() {
    let content = r#"#[derive(Debug)]
/// A greeter struct
pub struct Greeter {
    name: String,
}

// private helper
fn helper() -> bool {
    true
}

pub async fn greet(name: &str) {
    println!("Hello, {}", name);
}

enum Color {
    Red,
    Blue,
}
"#;
    let val = meta(content, "lib.rs", "rs");

    assert!(val.functions.iter().any(|f| f.contains("fn helper")));
    assert!(val.functions.iter().any(|f| f.contains("pub async fn greet")));

    assert!(val.classes.iter().any(|c| c.contains("pub struct Greeter")));
    assert!(val.classes.iter().any(|c| c.contains("enum Color")));

    assert!(val.comments.iter().any(|c| c.contains("A greeter struct")));
    assert!(val.comments.iter().any(|c| c.contains("private helper")));
    // Rust attributes must NOT be captured as comments
    assert!(!val.comments.iter().any(|c| c.contains("#[derive")));
}

#[test]
fn file_conversion_test_extract_code_metadata_javascript() {
    let content = r#"// Main entry point
function greet(name) {
    console.log("Hello " + name);
}

class App {
    constructor() {}
}
"#;
    let val = meta(content, "app.js", "js");
    assert!(val.functions.iter().any(|f| f.contains("function greet")));
    assert!(val.classes.iter().any(|c| c.contains("class App")));
}

#[test]
fn file_conversion_test_extract_code_metadata_go() {
    let content = r#"// Package main
package main

type Server struct {
    Port int
}

func main() {
    fmt.Println("hello")
}

func (s *Server) Start() {
}
"#;
    let val = meta(content, "main.go", "go");
    assert!(val.functions.iter().any(|f| f.contains("func main")));
    assert!(val.functions.iter().any(|f| f.contains("func (s *Server) Start")));
    assert!(val.classes.iter().any(|c| c.contains("type Server")));
    assert!(val.comments.iter().any(|c| c.contains("Package main")));
}

#[test]
fn file_conversion_test_js_twitter_format_detected_by_prefix() {
    let content = r#"window.YTD.tweet.part0 = [{"id": "1"}]"#;
    let val = match js(content, "tweets.js") {
        JsContent::TwitterExport(s) => serde_json::from_str::<serde_json::Value>(&s).unwrap(),
        JsContent::Code(_) => panic!("expected a Twitter export"),
    };
    // Twitter format returns an array
    assert!(val.is_array());
    assert_eq!(val[0]["id"], "1");
}

#[test]
fn test_js_non_twitter_gets_code_metadata() {
    let content = "function hello() { return 42; }\n";
    let val = match js(content, "app.js") {
        JsContent::Code(m) => m,
        JsContent::TwitterExport(_) => panic!("expected code metadata"),
    };
    assert_eq!(val.source_file, "app.js");
    assert_eq!(val.file_type, "js");
    assert!(val.functions.iter().any(|f| f.contains("function hello")));
}

#[test]
fn test_js_with_equals_not_twitter_gets_code_metadata() {
    // Has '=' but no Twitter prefix — must NOT be misclassified as Twitter export
    let content = "const data = [1, 2, 3];\nfunction process() {}\n";
    let val = match js(content, "utils.js") {
        JsContent::Code(m) => m,
        JsContent::TwitterExport(_) => panic!("expected code metadata"),
    };
    assert_eq!(val.source_file, "utils.js");
    assert_eq!(val.file_type, "js");
}

#[test]
fn file_conversion_test_extract_code_metadata_empty_file() {
    let val = meta("", "empty.py", "py");
    assert_eq!(val.source_file, "empty.py");
    assert_eq!(val.file_type, "py");
    assert!(val.functions.is_empty());
    assert!(val.classes.is_empty());
    assert!(val.comments.is_empty());
}

#[test]
fn test_extract_code_metadata_shell_comments() {
    let content = "#!/bin/bash\n# Setup env\necho hello\n# Done\n";
    let val = meta(content, "setup.sh", "sh");
    assert!(val.comments.iter().any(|c| c.contains("Setup env")));
    assert!(val.comments.iter().any(|c| c.contains("Done")));
    // Shebangs start with #! which is excluded by the pattern
    assert!(!val.comments.iter().any(|c| c.contains("#!/bin/bash")));
}

#[test]
fn code_metadata_lists_exact_trimmed_matches_in_order() {
    let content = "  fn a() {}\nstruct S;\n  // note  \nfn b() {}\n";
    let val = meta(content, "x.rs", "rs");
    assert_eq!(val.functions, vec!["fn a", "fn b"]);
    assert_eq!(val.classes, vec!["struct S"]);
    assert_eq!(val.comments, vec!["// note"]);
}

#[test]
fn trim_all_trims_each_match() {
    let v = vec![" a ".to_string(), "b\t".to_string(), String::new()];
    assert_eq!(trim_all(&v), vec!["a", "b", ""]);
}

#[test]
fn legacy_twitter_export_with_bad_json_is_an_error() {
    assert!(js_to_json("window.YTD.x = {", "t.js").is_err());
}

/// The parent directory's name as `std::path` gives it.
fn std_hint(p: &str) -> Option<String> {
    let path = std::path::Path::new(p);
    let parent = path.parent().and_then(|p| p.file_name())?;
    let dir = parent.to_string_lossy();
    if !dir.is_empty() && dir != "." && dir != ".." {
        Some(dir.to_string())
    } else {
        None
    }
}

#[test]
fn category_hint_is_the_parent_directory_name() {
    assert_eq!(derive_category_hint("recipes/cookies.txt"), Some("recipes".to_string()));
    assert_eq!(derive_category_hint("cookies.txt"), None);
    for p in [
        "recipes/cookies.txt",
        "a/b/c.txt",
        "/abs/dir/file.md",
        "/file.md",
        "file.md",
        "",
        ".",
        "./x.txt",
        "../x.txt",
        "a/../x.txt",
        "a/./x.txt",
        "a//b///c.txt",
        "a/b/",
        "a/.",
        "a/b/..",
        "./a/b",
        "/",
        "//x",
        ".hidden/x",
        "dir with space/é.txt",
    ] {
        assert_eq!(derive_category_hint(p), std_hint(p), "path {:?}", p);
    }
}

#[test]
fn text_wrapper_carries_content_type_name_and_category() {
    let w = wrap_text_content("hello", "notes/todo.txt", "txt");
    let expected = Json::Object(vec![
        ("category".to_string(), Json::Str("notes".to_string())),
        ("content".to_string(), Json::Str("hello".to_string())),
        ("file_type".to_string(), Json::Str("txt".to_string())),
        ("source_file".to_string(), Json::Str("notes/todo.txt".to_string())),
    ]);
    assert_eq!(w, expected);
    let plain = wrap_text_content("x", "todo.md", "md");
    match plain {
        Json::Object(ms) => assert_eq!(ms.len(), 3),
        _ => panic!("expected an object"),
    }
}
