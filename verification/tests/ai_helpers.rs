use fold_ingestion::ai_helpers::{
    extract_json_from_response, json_region_of, resolve_extraction, try_extract_json_from_response,
};
use fold_ingestion::error::IngestionError;
use serde_json::Value;

#[test]
fn helpers_test_extract_json_from_response() {
    // Test with JSON block markers
    let response_with_markers = r###"Here's the analysis:
```json
{"new_schemas": {"name": "test"}, "mutation_mappers": {}}
```
That should work."###;

    let result = extract_json_from_response(response_with_markers);
    assert!(result.is_ok());
    assert!(result.unwrap().contains("new_schemas"));

    // Test with direct JSON
    let response_direct = r###"{"new_schemas": null, "mutation_mappers": {}}"###;
    let result = extract_json_from_response(response_direct);
    assert!(result.is_ok());
}

#[test]
fn helpers_test_extract_json_with_trailing_brace() {
    let response_trailing = r###"
        {
            "new_schemas": null,
            "mutation_mappers": {}
        }
        some extra text with a } closing brace
        "###;

    let result = extract_json_from_response(response_trailing);
    assert!(result.is_ok());
    let json = result.unwrap();
    let parsed: Value = serde_json::from_str(&json).unwrap();
    assert!(parsed.get("new_schemas").is_some());
}

#[test]
fn helpers_test_extract_json_array_in_markdown_fence() {
    let response = r#"Here are the results:
```json
[{"path": "a.txt", "should_ingest": true}]
```
Done."#;
    let result = extract_json_from_response(response).unwrap();
    let parsed: Value = serde_json::from_str(&result).unwrap();
    assert!(parsed.is_array());
    assert_eq!(parsed.as_array().unwrap().len(), 1);
}

#[test]
fn helpers_test_extract_nested_json_with_trailing_prose() {
    let response = r#"{"outer": {"inner": {"value": 42}}} And here is some extra explanation."#;
    let result = extract_json_from_response(response).unwrap();
    let parsed: Value = serde_json::from_str(&result).unwrap();
    assert_eq!(parsed["outer"]["inner"]["value"], 42);
}

#[test]
fn helpers_test_extract_first_json_object_from_multiple() {
    let response = r#"{"first": 1} {"second": 2}"#;
    let result = extract_json_from_response(response).unwrap();
    let parsed: Value = serde_json::from_str(&result).unwrap();
    assert_eq!(parsed["first"], 1);
}

#[test]
fn helpers_test_extract_only_prose_returns_error() {
    let response = "This response contains no JSON at all, just plain text.";
    let result = extract_json_from_response(response);
    assert!(result.is_err());
}

#[test]
fn helpers_test_extract_empty_string_returns_error() {
    let result = extract_json_from_response("");
    assert!(result.is_err());
}

#[test]
fn helpers_test_extract_json_with_unicode() {
    let response = r#"{"name": "日本語テスト", "emoji": "🎉"}"#;
    let result = extract_json_from_response(response).unwrap();
    let parsed: Value = serde_json::from_str(&result).unwrap();
    assert_eq!(parsed["name"], "日本語テスト");
    assert_eq!(parsed["emoji"], "🎉");
}

#[test]
fn helpers_test_extract_unclosed_markdown_fence() {
    let response = "```json\n{\"key\": \"value\"}\nsome trailing text without closing fence";
    let result = extract_json_from_response(response).unwrap();
    let parsed: Value = serde_json::from_str(&result).unwrap();
    assert_eq!(parsed["key"], "value");
}

#[test]
fn helpers_test_extract_brace_matching_fallback() {
    // JSON with invalid trailing content that stream parser may choke on,
    // but brace-matching should rescue
    let response = "prefix {\"a\": 1, \"b\": [2, 3]} suffix with } brace";
    let result = extract_json_from_response(response).unwrap();
    let parsed: Value = serde_json::from_str(&result).unwrap();
    assert_eq!(parsed["a"], 1);
}

#[test]
fn ai_helpers_test_extract_json_from_response() {
    // Test with JSON block markers
    let response_with_markers = r###"Here's the analysis:
```json
{"new_schemas": {"name": "test"}, "mutation_mappers": {}}
```
That should work."###;

    let result = extract_json_from_response(response_with_markers);
    assert!(result.is_ok());
    assert!(result.unwrap().contains("new_schemas"));

    // Test with direct JSON
    let response_direct = r###"{"new_schemas": null, "mutation_mappers": {}}"###;
    let result = extract_json_from_response(response_direct);
    assert!(result.is_ok());
}

#[test]
fn ai_helpers_test_extract_json_with_trailing_brace() {
    let response_trailing = r###"
        {
            "new_schemas": null,
            "mutation_mappers": {}
        }
        some extra text with a } closing brace
        "###;

    let result = extract_json_from_response(response_trailing);
    assert!(result.is_ok());
    let json = result.unwrap();
    let parsed: Value = serde_json::from_str(&json).unwrap();
    assert!(parsed.get("new_schemas").is_some());
}

#[test]
fn ai_helpers_test_extract_json_array_in_markdown_fence() {
    let response = r#"Here are the results:
```json
[{"path": "a.txt", "should_ingest": true}]
```
Done."#;
    let result = extract_json_from_response(response).unwrap();
    let parsed: Value = serde_json::from_str(&result).unwrap();
    assert!(parsed.is_array());
    assert_eq!(parsed.as_array().unwrap().len(), 1);
}

#[test]
fn ai_helpers_test_extract_nested_json_with_trailing_prose() {
    let response = r#"{"outer": {"inner": {"value": 42}}} And here is some extra explanation."#;
    let result = extract_json_from_response(response).unwrap();
    let parsed: Value = serde_json::from_str(&result).unwrap();
    assert_eq!(parsed["outer"]["inner"]["value"], 42);
}

#[test]
fn ai_helpers_test_extract_first_json_object_from_multiple() {
    let response = r#"{"first": 1} {"second": 2}"#;
    let result = extract_json_from_response(response).unwrap();
    let parsed: Value = serde_json::from_str(&result).unwrap();
    assert_eq!(parsed["first"], 1);
}

#[test]
fn ai_helpers_test_extract_only_prose_returns_error() {
    let response = "This response contains no JSON at all, just plain text.";
    let result = extract_json_from_response(response);
    assert!(result.is_err());
}

#[test]
fn ai_helpers_test_extract_empty_string_returns_error() {
    let result = extract_json_from_response("");
    assert!(result.is_err());
}

#[test]
fn ai_helpers_test_extract_json_with_unicode() {
    let response = r#"{"name": "日本語テスト", "emoji": "🎉"}"#;
    let result = extract_json_from_response(response).unwrap();
    let parsed: Value = serde_json::from_str(&result).unwrap();
    assert_eq!(parsed["name"], "日本語テスト");
    assert_eq!(parsed["emoji"], "🎉");
}

#[test]
fn ai_helpers_test_extract_unclosed_markdown_fence() {
    let response = "```json\n{\"key\": \"value\"}\nsome trailing text without closing fence";
    let result = extract_json_from_response(response).unwrap();
    let parsed: Value = serde_json::from_str(&result).unwrap();
    assert_eq!(parsed["key"], "value");
}

#[test]
fn ai_helpers_test_extract_brace_matching_fallback() {
    // JSON with invalid trailing content that stream parser may choke on,
    // but brace-matching should rescue
    let response = "prefix {\"a\": 1, \"b\": [2, 3]} suffix with } brace";
    let result = extract_json_from_response(response).unwrap();
    let parsed: Value = serde_json::from_str(&result).unwrap();
    assert_eq!(parsed["a"], 1);
}


#[test]
fn region_is_the_fenced_block_or_from_the_first_opening() {
    assert_eq!(json_region_of("a ```json{\"x\":1}``` b"), "{\"x\":1}");
    assert_eq!(json_region_of("say [1] and {2}"), "[1] and {2}");
    assert_eq!(json_region_of("say {1} and [2]"), "{1} and [2]");
    assert_eq!(json_region_of("no json here"), "no json here");
    assert_eq!(json_region_of("```json [3"), " [3");
}

#[test]
fn resolution_prefers_the_stream_then_braces_then_brackets() {
    assert_eq!(resolve_extraction("x", Some(Ok("{}".to_string())), true, true).unwrap(), "{}");
    match resolve_extraction("x", Some(Err("bad".to_string())), true, true) {
        Err(IngestionError::AIResponseValidationError(m)) => {
            assert_eq!(m, "Failed to serialize extracted JSON: bad")
        }
        other => panic!("unexpected {:?}", other),
    }
    assert_eq!(resolve_extraction("a {b} [c] d", None, true, true).unwrap(), "{b}");
    assert_eq!(resolve_extraction("a {b} [c] d", None, false, true).unwrap(), "[c]");
    match resolve_extraction("a {b} [c] d", None, false, false) {
        Err(IngestionError::AIResponseValidationError(m)) => {
            assert_eq!(m, "Could not extract valid JSON from AI response: a {b} [c] d")
        }
        other => panic!("unexpected {:?}", other),
    }
    // the last closing brace comes before the first opening one: no candidate
    match resolve_extraction("} {", None, true, true) {
        Err(IngestionError::AIResponseValidationError(m)) => assert!(m.ends_with(": } {")),
        other => panic!("unexpected {:?}", other),
    }
}

#[test]
fn long_prose_is_quoted_cut_to_two_hundred_bytes() {
    let prose = "x".repeat(250);
    match extract_json_from_response(&prose) {
        Err(IngestionError::AIResponseValidationError(m)) => {
            assert_eq!(m, format!("Could not extract valid JSON from AI response: {}...", "x".repeat(200)))
        }
        other => panic!("unexpected {:?}", other),
    }
}

#[test]
fn try_extract_declines_only_where_the_cut_would_split_a_character() {
    let split = format!("{}é{}", "x".repeat(199), "y".repeat(10));
    assert!(try_extract_json_from_response(&split).is_none());
    let with_json = format!("{}é{} {{\"a\": 1}}", "x".repeat(199), "y".repeat(10));
    let r = try_extract_json_from_response(&with_json).unwrap().unwrap();
    assert_eq!(r, "{\"a\":1}");
    assert!(try_extract_json_from_response("plain").unwrap().is_err());
}

#[test]
fn streamed_value_is_reserialized_compactly() {
    assert_eq!(extract_json_from_response("{ \"a\" : [1, 2] }").unwrap(), "{\"a\":[1,2]}");
}

#[test]
fn stream_errors_with_trailing_characters_are_passed_over() {
    // `1` is followed by `-`, an error that does not end the stream; the
    // next value, `-2`, is taken.
    assert_eq!(extract_json_from_response("1-2").ok().as_deref(), Some("-2"));
    let out = extract_json_from_response("```json\n1x {\"a\": 1}\n```").ok();
    assert!(out.is_some());
    let text = out.unwrap();
    assert!(serde_json::from_str::<serde_json::Value>(&text).is_ok());
}
