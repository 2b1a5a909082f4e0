use fold_ingestion::json::Json;
use fold_ingestion::anthropic::{
    check_key_for_save, inconclusive_probe, key_file_name, key_path, probe_url, probe_verdict, rejected_key,
    error_message, status_display, stored_key, transient_failure, upstream_message, AnthropicValidationError,
    ProbeVerdict,
};

#[test]
fn anthropic_probe_url_trims_trailing_slashes() {
    assert_eq!(probe_url("https://api.anthropic.com"), "https://api.anthropic.com/v1/models");
    assert_eq!(probe_url("http://127.0.0.1:9//"), "http://127.0.0.1:9/v1/models");
}

#[test]
fn anthropic_status_verdicts() {
    assert_eq!(probe_verdict(200), ProbeVerdict::Accepted);
    assert_eq!(probe_verdict(204), ProbeVerdict::Accepted);
    assert_eq!(probe_verdict(401), ProbeVerdict::Rejected);
    assert_eq!(probe_verdict(403), ProbeVerdict::Rejected);
    assert_eq!(probe_verdict(429), ProbeVerdict::Inconclusive);
    assert_eq!(probe_verdict(500), ProbeVerdict::Inconclusive);
    assert_eq!(probe_verdict(302), ProbeVerdict::Inconclusive);
}

#[test]
fn anthropic_rejection_uses_upstream_json_message() {
    let body = r#"{"type":"error","error":{"type":"authentication_error","message":"invalid x-api-key"}}"#;
    match rejected_key(401, body, parsed(body).as_ref()) {
        Some(AnthropicValidationError::Invalid { status, upstream_message }) => {
            assert_eq!(status, 401);
            assert_eq!(upstream_message, "invalid x-api-key");
        }
        _ => panic!("expected Invalid"),
    }
    match rejected_key(403, "forbidden", parsed("forbidden").as_ref()) {
        Some(AnthropicValidationError::Invalid { status, upstream_message }) => {
            assert_eq!(status, 403);
            assert_eq!(upstream_message, "forbidden");
        }
        _ => panic!("expected Invalid"),
    }
    assert_eq!(upstream_message("", None).as_deref(), Some("Anthropic returned no body"));
    let long = "z".repeat(300);
    assert_eq!(upstream_message(&long, None), Some(format!("{}...", "z".repeat(240))));
    let split = format!("{}é{}", "a".repeat(239), "b".repeat(10));
    assert_eq!(upstream_message(&split, None), None);
}

#[test]
fn anthropic_inconclusive_answers_are_transient() {
    match inconclusive_probe(500, Some("upstream blew up")) {
        AnthropicValidationError::Transient { detail } => {
            assert_eq!(detail, "HTTP 500 Internal Server Error: upstream blew up")
        }
        _ => panic!("5xx must be transient"),
    }
    match inconclusive_probe(429, Some("")) {
        AnthropicValidationError::Transient { detail } => assert_eq!(detail, "HTTP 429 Too Many Requests"),
        _ => panic!("429 must be transient"),
    }
    assert_eq!(status_display(599), "599 <unknown status code>");
    let e = transient_failure("Network error contacting Anthropic: ", "dns");
    assert_eq!(e.message(), "Could not validate Anthropic key: Network error contacting Anthropic: dns");
}

#[test]
fn anthropic_error_messages() {
    let e = AnthropicValidationError::Invalid { status: 401, upstream_message: "bad".to_string() };
    assert_eq!(e.message(), "Anthropic key rejected (HTTP 401): bad");
}

#[test]
fn anthropic_key_store_rules() {
    assert!(check_key_for_save("sk-ant-x").is_ok());
    assert_eq!(
        check_key_for_save("").unwrap_err(),
        "Refusing to save empty Anthropic API key; use delete() instead"
    );
    assert_eq!(stored_key("sk-ant-roundtrip".to_string()).as_deref(), Some("sk-ant-roundtrip"));
    assert_eq!(stored_key(String::new()), None);
    assert_eq!(key_file_name(), "anthropic.key.json");
}

#[test]
fn key_path_is_the_key_file_inside_the_config_dir() {
    assert_eq!(key_path("/home/u/.fold"), "/home/u/.fold/anthropic.key.json");
    assert_eq!(key_path("/home/u/.fold/"), "/home/u/.fold/anthropic.key.json");
    assert_eq!(key_path(""), "anthropic.key.json");
    let dir = std::path::Path::new("/tmp/cfg");
    assert_eq!(std::path::PathBuf::from(key_path("/tmp/cfg")), dir.join(key_file_name()));
}

fn from_value(v: &serde_json::Value) -> Json {
    match v {
        serde_json::Value::Null => Json::Null,
        serde_json::Value::Bool(b) => Json::Bool(*b),
        serde_json::Value::Number(n) => Json::Number(n.to_string()),
        serde_json::Value::String(t) => Json::Str(t.clone()),
        serde_json::Value::Array(a) => Json::Array(a.iter().map(from_value).collect()),
        serde_json::Value::Object(m) => Json::Object(m.iter().map(|(k, x)| (k.clone(), from_value(x))).collect()),
    }
}

fn parsed(body: &str) -> Option<Json> {
    serde_json::from_str::<serde_json::Value>(body).ok().map(|v| from_value(&v))
}

#[test]
fn the_json_error_message_is_read_at_error_message() {
    let ok = r#"{"error":{"message":"bad key"}}"#;
    assert_eq!(error_message(parsed(ok).as_ref()).as_deref(), Some("bad key"));
    assert_eq!(error_message(parsed(r#"{"error":{"message":7}}"#).as_ref()), None);
    assert_eq!(error_message(parsed(r#"{"message":"top"}"#).as_ref()), None);
    assert_eq!(error_message(parsed(r#"{"error":"flat"}"#).as_ref()), None);
    assert_eq!(error_message(parsed("not json").as_ref()), None);
    // A JSON message is shown whole, however long.
    let long = format!(r#"{{"error":{{"message":"{}"}}}}"#, "m".repeat(300));
    assert_eq!(upstream_message(&long, parsed(&long).as_ref()), Some("m".repeat(300)));
}
