use fold_ingestion::conversion::{
    ext_to_language, extract_code_metadata, is_twitter_export_js, js_to_json, pad_line_number,
    twitter_js_to_json, CodeSymbol, JsContent,
};
use fold_ingestion::error::IngestionError;

fn find_symbol<'a>(symbols: &'a [CodeSymbol], name: &str) -> Option<&'a CodeSymbol> {
    symbols.iter().find(|s| s.name == name)
}

fn find_symbols_by_kind<'a>(symbols: &'a [CodeSymbol], kind: &str) -> Vec<&'a CodeSymbol> {
    symbols.iter().filter(|s| s.kind == kind).collect()
}

#[test]
fn test_extract_returns_array() {
    let content = "pub fn main() {}\n";
    let val = extract_code_metadata(content, "lib.rs", "rs");
    assert_eq!(val.len(), 1);
}

#[test]
fn test_symbol_record_fields() {
    let content = "pub fn greet(name: &str) {\n    println!(\"Hi {}\", name);\n}\n";
    let val = extract_code_metadata(content, "lib.rs", "rs");
    let sym = find_symbol(&val, "greet").unwrap();

    assert_eq!(sym.kind, "function");
    assert_eq!(sym.signature, "pub fn greet(name: &str) {");
    assert_eq!(sym.source_file, "lib.rs");
    assert_eq!(sym.line_number, "000001");
    assert_eq!(sym.language, "rust");
    assert_eq!(sym.visibility, "pub");
    assert!(sym.body.as_str().contains("println!"));
}

#[test]
fn conversion_test_extract_code_metadata_python() {
    let content = r#"import os
from pathlib import Path

MAX_SIZE = 100

class MyClass:
    def __init__(self):
        pass

    def method(self):
        return 42

def foo(x, y):
    return x + y

async def bar():
    pass
"#;
    let val = extract_code_metadata(content, "example.py", "py");
    let arr = &val;
    assert!(!arr.is_empty());

    // Check imports
    let imports = find_symbols_by_kind(&val, "import");
    assert!(imports.len() >= 2);

    // Check constant
    let constant = find_symbol(&val, "MAX_SIZE").unwrap();
    assert_eq!(constant.kind, "constant");

    // Check class
    let class = find_symbol(&val, "MyClass").unwrap();
    assert_eq!(class.kind, "class");
    assert_eq!(class.language, "python");

    // Check methods with parent
    let init = find_symbol(&val, "__init__").unwrap();
    assert_eq!(init.kind, "method");
    assert_eq!(init.parent, "MyClass");

    let method = find_symbol(&val, "method").unwrap();
    assert_eq!(method.kind, "method");
    assert_eq!(method.parent, "MyClass");

    // Check top-level functions
    let foo = find_symbol(&val, "foo").unwrap();
    assert_eq!(foo.kind, "function");
    assert_eq!(foo.parent, "");

    let bar = find_symbol(&val, "bar").unwrap();
    assert_eq!(bar.kind, "function");
}

#[test]
fn conversion_test_extract_code_metadata_rust() {
    let content = r#"use std::collections::HashMap;

pub struct Greeter {
    name: String,
}

impl Greeter {
    pub fn new(name: String) -> Self {
        Self { name }
    }

    fn private_helper(&self) -> bool {
        true
    }
}

pub async fn greet(name: &str) {
    println!("Hello, {}", name);
}

enum Color {
    Red,
    Blue,
}

pub const MAX: usize = 100;

pub type Result<T> = std::result::Result<T, Error>;
"#;
    let val = extract_code_metadata(content, "lib.rs", "rs");

    // Import
    let import = find_symbol(&val, "HashMap").unwrap();
    assert_eq!(import.kind, "import");

    // Struct
    let greeter = find_symbol(&val, "Greeter").unwrap();
    assert_eq!(greeter.kind, "struct");
    assert_eq!(greeter.visibility, "pub");
    assert!(greeter.body.as_str().contains("name: String"));

    // Methods with parent
    let new_fn = find_symbol(&val, "new").unwrap();
    assert_eq!(new_fn.kind, "method");
    assert_eq!(new_fn.parent, "Greeter");
    assert_eq!(new_fn.visibility, "pub");

    let helper = find_symbol(&val, "private_helper").unwrap();
    assert_eq!(helper.kind, "method");
    assert_eq!(helper.parent, "Greeter");
    assert_eq!(helper.visibility, "private");

    // Top-level async fn
    let greet = find_symbol(&val, "greet").unwrap();
    assert_eq!(greet.kind, "function");
    assert_eq!(greet.parent, "");
    assert_eq!(greet.visibility, "pub");

    // Enum
    let color = find_symbol(&val, "Color").unwrap();
    assert_eq!(color.kind, "enum");

    // Constant
    let max = find_symbol(&val, "MAX").unwrap();
    assert_eq!(max.kind, "constant");

    // Type alias
    let result = find_symbol(&val, "Result").unwrap();
    assert_eq!(result.kind, "type_alias");
}

#[test]
fn conversion_test_extract_code_metadata_javascript() {
    let content = r#"import { useState } from 'react';

export const MAX_RETRIES = 5;

export function greet(name) {
    console.log("Hello " + name);
}

const helper = (x) => x + 1;

class App {
    constructor() {}
}
"#;
    let val = extract_code_metadata(content, "app.js", "js");

    // Import
    let imports = find_symbols_by_kind(&val, "import");
    assert!(!imports.is_empty());

    // Constant
    let max = find_symbol(&val, "MAX_RETRIES").unwrap();
    assert_eq!(max.kind, "constant");

    // Function
    let greet = find_symbol(&val, "greet").unwrap();
    assert_eq!(greet.kind, "function");
    assert_eq!(greet.visibility, "pub"); // exported

    // Arrow function
    let helper = find_symbol(&val, "helper").unwrap();
    assert_eq!(helper.kind, "function");

    // Class
    let app = find_symbol(&val, "App").unwrap();
    assert_eq!(app.kind, "class");
}

#[test]
fn conversion_test_extract_code_metadata_go() {
    let content = r#"package main

import "fmt"

type Server struct {
    Port int
}

func main() {
    fmt.Println("hello")
}

func (s *Server) Start() {
    fmt.Println("starting")
}
"#;
    let val = extract_code_metadata(content, "main.go", "go");

    // Struct
    let server = find_symbol(&val, "Server").unwrap();
    assert_eq!(server.kind, "struct");
    assert_eq!(server.visibility, "pub"); // uppercase = exported

    // Top-level function
    let main_fn = find_symbol(&val, "main").unwrap();
    assert_eq!(main_fn.kind, "function");
    assert_eq!(main_fn.visibility, "private"); // lowercase

    // Method with receiver
    let start = find_symbol(&val, "Start").unwrap();
    assert_eq!(start.kind, "method");
    assert_eq!(start.parent, "Server");
    assert_eq!(start.visibility, "pub");
}

#[test]
fn test_extract_code_metadata_java() {
    let content = r#"import java.util.List;

public class UserService {
    private String name;

    public void createUser(String name) {
        this.name = name;
    }

    protected List<String> getUsers() {
        return null;
    }
}
"#;
    let val = extract_code_metadata(content, "UserService.java", "java");

    let import = find_symbol(&val, "List").unwrap();
    assert_eq!(import.kind, "import");

    let class = find_symbol(&val, "UserService").unwrap();
    assert_eq!(class.kind, "class");
    assert_eq!(class.visibility, "pub");

    let create = find_symbol(&val, "createUser").unwrap();
    assert_eq!(create.kind, "method");
    assert_eq!(create.parent, "UserService");
    assert_eq!(create.visibility, "pub");

    let get = find_symbol(&val, "getUsers").unwrap();
    assert_eq!(get.kind, "method");
    assert_eq!(get.visibility, "protected");
}

#[test]
fn test_extract_code_metadata_cpp() {
    let content = r#"#include <iostream>
#include "mylib.h"

class Widget {
void draw() {
    std::cout << "drawing" << std::endl;
}
};

int main() {
Widget w;
return 0;
}
"#;
    let val = extract_code_metadata(content, "main.cpp", "cpp");

    let includes = find_symbols_by_kind(&val, "import");
    assert_eq!(includes.len(), 2);

    let widget = find_symbol(&val, "Widget").unwrap();
    assert_eq!(widget.kind, "class");

    let main_fn = find_symbol(&val, "main").unwrap();
    assert_eq!(main_fn.kind, "function");
}

#[test]
fn test_line_number_zero_padding() {
    let mut content = String::new();
    for i in 0..100 {
        content.push_str(&format!("// line {}\n", i));
    }
    content.push_str("pub fn late_function() {\n}\n");

    let val = extract_code_metadata(&content, "big.rs", "rs");
    let late = find_symbol(&val, "late_function").unwrap();
    assert_eq!(late.line_number, "000101");
}

#[test]
fn test_body_extraction_rust() {
    let content = r#"fn add(a: i32, b: i32) -> i32 {
    let result = a + b;
    result
}
"#;
    let val = extract_code_metadata(content, "math.rs", "rs");
    let add = find_symbol(&val, "add").unwrap();
    let body = add.body.as_str();
    assert!(body.contains("let result = a + b"));
    assert!(body.contains("result"));
    assert!(body.ends_with('}'));
}

#[test]
fn test_body_extraction_python() {
    let content = r#"def greet(name):
    msg = f"Hello {name}"
    print(msg)
    return msg

def other():
    pass
"#;
    let val = extract_code_metadata(content, "greet.py", "py");
    let greet = find_symbol(&val, "greet").unwrap();
    let body = greet.body.as_str();
    assert!(body.contains("msg = f\"Hello {name}\""));
    assert!(body.contains("return msg"));
    // Should NOT include the next function
    assert!(!body.contains("def other"));
}

#[test]
fn conversion_test_extract_code_metadata_empty_file() {
    let val = extract_code_metadata("", "empty.py", "py");
    assert!(val.is_empty());
}

#[test]
fn test_extract_code_metadata_typescript_interface_and_enum() {
    let content = r#"export interface User {
    name: string;
    age: number;
}

export type UserId = string;

export enum Status {
    Active,
    Inactive,
}
"#;
    let val = extract_code_metadata(content, "types.ts", "ts");

    let user = find_symbol(&val, "User").unwrap();
    assert_eq!(user.kind, "interface");
    assert_eq!(user.language, "typescript");

    let user_id = find_symbol(&val, "UserId").unwrap();
    assert_eq!(user_id.kind, "type_alias");

    let status = find_symbol(&val, "Status").unwrap();
    assert_eq!(status.kind, "enum");
}

#[test]
fn test_rust_visibility_variants() {
    let content = r#"pub fn public_fn() {}
pub(crate) fn crate_fn() {}
fn private_fn() {}
"#;
    let val = extract_code_metadata(content, "vis.rs", "rs");

    let pub_fn = find_symbol(&val, "public_fn").unwrap();
    assert_eq!(pub_fn.visibility, "pub");

    let crate_fn = find_symbol(&val, "crate_fn").unwrap();
    assert_eq!(crate_fn.visibility, "pub(crate)");

    let priv_fn = find_symbol(&val, "private_fn").unwrap();
    assert_eq!(priv_fn.visibility, "private");
}

#[test]
fn test_python_nested_methods_have_correct_parent() {
    let content = r#"class Animal:
    def speak(self):
        return "..."

    def move(self):
        return "walking"

class Vehicle:
    def start(self):
        return "vroom"
"#;
    let val = extract_code_metadata(content, "models.py", "py");

    let speak = find_symbol(&val, "speak").unwrap();
    assert_eq!(speak.parent, "Animal");

    // move is a built-in but valid method name
    let mv = find_symbol(&val, "move").unwrap();
    assert_eq!(mv.parent, "Animal");

    let start = find_symbol(&val, "start").unwrap();
    assert_eq!(start.parent, "Vehicle");
}

#[test]
fn test_generic_language_fallback() {
    let content = "sub process_data {\n    my $x = 1;\n}\n";
    let val = extract_code_metadata(content, "script.pl", "pl");
    let sym = find_symbol(&val, "process_data").unwrap();
    assert_eq!(sym.kind, "function");
    assert_eq!(sym.language, "perl");
}

#[test]
fn test_ext_to_language() {
    assert_eq!(ext_to_language("rs"), "rust");
    assert_eq!(ext_to_language("py"), "python");
    assert_eq!(ext_to_language("js"), "javascript");
    assert_eq!(ext_to_language("ts"), "typescript");
    assert_eq!(ext_to_language("go"), "go");
    assert_eq!(ext_to_language("java"), "java");
    assert_eq!(ext_to_language("cpp"), "cpp");
    assert_eq!(ext_to_language("sh"), "shell");
    assert_eq!(ext_to_language("unknown"), "unknown");
}

#[test]
fn conversion_symbols_come_in_line_order_with_bodies() {
    let content = "fn a() {\n    x();\n}\n\nstruct B {\n    y: u8,\n}\n";
    let val = extract_code_metadata(content, "m.rs", "rs");
    assert_eq!(val.len(), 2);
    assert_eq!(val[0].name, "a");
    assert_eq!(val[0].line_number, "000001");
    assert_eq!(val[0].body, "fn a() {\n    x();\n}");
    assert_eq!(val[1].name, "B");
    assert_eq!(val[1].line_number, "000005");
    assert_eq!(val[1].body, "struct B {\n    y: u8,\n}");
}

#[test]
fn conversion_unclosed_brace_body_runs_to_end() {
    let content = "fn open() {\n    let a = 1;\n";
    let val = extract_code_metadata(content, "m.rs", "rs");
    assert_eq!(val[0].body, "fn open() {\n    let a = 1;");
}

#[test]
fn conversion_python_body_drops_trailing_blank_lines() {
    let content = "def f():\n    return 1\n\n\nx = 2\n";
    let val = extract_code_metadata(content, "m.py", "py");
    let f = find_symbol(&val, "f").unwrap();
    assert_eq!(f.body, "def f():\n    return 1");
}

#[test]
fn conversion_crlf_lines_are_split() {
    let content = "fn a() {}\r\nfn b() {}\r\n";
    let val = extract_code_metadata(content, "m.rs", "rs");
    assert_eq!(val.len(), 2);
    assert_eq!(val[1].signature, "fn b() {}");
    assert_eq!(val[1].line_number, "000002");
}

#[test]
fn conversion_pad_line_number_is_six_digits() {
    assert_eq!(pad_line_number(7), "000007");
    assert_eq!(pad_line_number(1234567), "1234567");
}

#[test]
fn conversion_js_import_names_module() {
    let content = "import { a } from \"./mod\";;\n";
    let val = extract_code_metadata(content, "x.js", "js");
    assert_eq!(val[0].kind, "import");
    assert_eq!(val[0].name, "./mod");
    assert_eq!(val[0].visibility, "pub");
}

#[test]
fn conversion_go_receiver_and_visibility() {
    let content = "func (r *Repo) save() {\n}\n";
    let val = extract_code_metadata(content, "r.go", "go");
    assert_eq!(val[0].name, "save");
    assert_eq!(val[0].parent, "Repo");
    assert_eq!(val[0].visibility, "private");
}

#[test]
fn conversion_java_control_flow_is_not_a_method() {
    let content = "class A {\n    void run() {\n        else if (x) {\n        }\n    }\n}\n";
    let val = extract_code_metadata(content, "A.java", "java");
    assert!(find_symbol(&val, "if").is_none());
    assert_eq!(find_symbol(&val, "run").unwrap().parent, "A");
}

#[test]
fn twitter_export_detection_and_unwrapping() {
    assert!(is_twitter_export_js("  window.YTD.tweet.part0 = []"));
    assert!(!is_twitter_export_js("const data = [1, 2, 3];"));
    assert_eq!(
        twitter_js_to_json("window.YTD.tweet.part0 = [{\"id\": \"1\"}] ").unwrap(),
        "[{\"id\": \"1\"}]"
    );
    match twitter_js_to_json("no equals sign") {
        Err(IngestionError::InvalidInput(m)) => {
            assert_eq!(m, "Not a Twitter data export .js file (no '=' found)")
        }
        other => panic!("unexpected {other:?}"),
    }
    match twitter_js_to_json("x = {not json") {
        Err(IngestionError::InvalidInput(m)) => assert!(m.starts_with("Invalid JSON in .js file: ")),
        other => panic!("unexpected {other:?}"),
    }
}

fn js_symbols(content: &str, file_name: &str) -> Vec<CodeSymbol> {
    match js_to_json(content, file_name).unwrap() {
        JsContent::Symbols(v) => v,
        JsContent::TwitterExport(s) => panic!("expected symbols, got export {}", s),
    }
}

#[test]
fn conversion_test_js_twitter_format_detected_by_prefix() {
    let content = r#"window.YTD.tweet.part0 = [{"id": "1"}]"#;
    let val = match js_to_json(content, "tweets.js").unwrap() {
        JsContent::TwitterExport(s) => serde_json::from_str::<serde_json::Value>(&s).unwrap(),
        JsContent::Symbols(_) => panic!("expected a Twitter export"),
    };
    assert!(val.is_array());
    assert_eq!(val[0]["id"], "1");
}

#[test]
fn test_js_non_twitter_gets_symbol_array() {
    let content = "function hello() { return 42; }\n";
    let val = js_symbols(content, "app.js");
    let sym = find_symbol(&val, "hello").unwrap();
    assert_eq!(sym.kind, "function");
    assert_eq!(sym.source_file, "app.js");
}

#[test]
fn test_js_with_equals_not_twitter_gets_symbol_array() {
    let content = "const data = [1, 2, 3];\nfunction process() {}\n";
    let val = js_symbols(content, "utils.js");
    let sym = find_symbol(&val, "process").unwrap();
    assert_eq!(sym.kind, "function");
}

#[test]
fn js_twitter_export_with_bad_json_is_refused() {
    let err = js_to_json("window.YTD.tweet.part0 = [oops", "t.js").unwrap_err();
    assert!(matches!(err, IngestionError::InvalidInput(ref m) if m.starts_with("Invalid JSON in .js file: ")));
}
