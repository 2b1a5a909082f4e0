use fold_ingestion::error::{classify_llm_error, classify_transport_failure, truncate_body, IngestionError};

#[test]
fn test_classify_llm_error_401() {
    let err = classify_llm_error("Anthropic", 401, "Unauthorized");
    assert!(matches!(err, IngestionError::AuthenticationError { .. }));
    assert!(err.user_message().contains("invalid or expired"));
}

#[test]
fn test_classify_llm_error_402() {
    let err = classify_llm_error("Anthropic", 402, "Payment required");
    assert!(matches!(err, IngestionError::ConfigurationError(_)));
    assert!(err.user_message().contains("insufficient credits"));
}

#[test]
fn test_classify_llm_error_404() {
    let err = classify_llm_error("Anthropic", 404, "Not found");
    assert!(matches!(err, IngestionError::ConfigurationError(_)));
    assert!(err.user_message().contains("model not found"));
}

#[test]
fn test_classify_llm_error_429() {
    let err = classify_llm_error("Anthropic", 429, "Rate limited");
    assert!(matches!(err, IngestionError::RateLimitError { .. }));
    assert!(err.user_message().contains("rate limit"));
}

#[test]
fn test_classify_llm_error_500() {
    let err = classify_llm_error("Anthropic", 500, "Internal server error");
    assert!(matches!(err, IngestionError::ConnectionError { .. }));
    assert!(err.user_message().contains("Cannot connect"));
}

#[test]
fn test_classify_llm_error_503() {
    let err = classify_llm_error("Ollama", 503, "Service unavailable");
    assert!(matches!(err, IngestionError::ConnectionError { .. }));
}

#[test]
fn test_classify_llm_error_unknown_status() {
    let err = classify_llm_error("Anthropic", 418, "I'm a teapot");
    assert!(matches!(err, IngestionError::ConfigurationError(_)));
}

#[test]
fn test_user_message_all_variants() {
    let auth = IngestionError::AuthenticationError {
        provider: "TestProvider".to_string(),
        message: "bad key".to_string(),
    };
    assert!(auth.user_message().contains("TestProvider"));
    assert!(auth.user_message().contains("invalid or expired"));

    let rate = IngestionError::RateLimitError {
        provider: "TestProvider".to_string(),
        message: "slow down".to_string(),
    };
    assert!(rate.user_message().contains("rate limit"));

    let timeout = IngestionError::TimeoutError {
        provider: "TestProvider".to_string(),
        message: "took too long".to_string(),
    };
    assert!(timeout.user_message().contains("timed out"));

    let conn = IngestionError::ConnectionError {
        provider: "TestProvider".to_string(),
        message: "Is the service running?".to_string(),
    };
    assert!(conn.user_message().contains("Cannot connect"));
    assert!(conn.user_message().contains("Is the service running?"));

    let config = IngestionError::ConfigurationError("missing key".to_string());
    assert!(config.user_message().contains("missing key"));

    let input = IngestionError::InvalidInput("bad data".to_string());
    assert!(input.user_message().contains("bad data"));

    let schema = IngestionError::AIResponseValidationError("parse fail".to_string());
    assert!(schema.user_message().contains("parse fail"));
}

#[test]
fn test_truncate_body_short() {
    let short = "short body";
    assert_eq!(truncate_body(short), "short body");
}

#[test]
fn test_truncate_body_long() {
    let long = "x".repeat(300);
    let truncated = truncate_body(&long);
    assert!(truncated.len() < 210);
    assert!(truncated.ends_with("..."));
}

#[test]
fn classify_llm_error_exact_messages() {
    match classify_llm_error("Anthropic", 503, "down") {
        IngestionError::ConnectionError { provider, message } => {
            assert_eq!(provider, "Anthropic");
            assert_eq!(message, "Server error (HTTP 503). Try again later.");
        }
        other => panic!("unexpected {other:?}"),
    }
    match classify_llm_error("Ollama", 418, "teapot") {
        IngestionError::ConfigurationError(m) => {
            assert_eq!(m, "Ollama: API request failed with status 418: teapot")
        }
        other => panic!("unexpected {other:?}"),
    }
    let e = classify_llm_error("Anthropic", 429, &"y".repeat(250));
    match e {
        IngestionError::RateLimitError { message, .. } => {
            assert_eq!(message, format!("Too many requests. {}...", "y".repeat(200)))
        }
        other => panic!("unexpected {other:?}"),
    }
}

#[test]
fn transport_failures_by_trait() {
    assert!(matches!(
        classify_transport_failure("P", true, true, "d"),
        IngestionError::TimeoutError { .. }
    ));
    match classify_transport_failure("P", false, true, "refused") {
        IngestionError::ConnectionError { message, .. } => {
            assert_eq!(message, "Could not connect. Is the service running? (refused)")
        }
        other => panic!("unexpected {other:?}"),
    }
    match classify_transport_failure("P", false, false, "reset") {
        IngestionError::ConnectionError { message, .. } => assert_eq!(message, "Network error: reset"),
        other => panic!("unexpected {other:?}"),
    }
}

#[test]
fn error_messages_use_display_text() {
    assert_eq!(
        IngestionError::ollama_error("down").message(),
        "Ollama API error: down"
    );
    assert_eq!(
        IngestionError::invalid_input("bad").message(),
        "Invalid input data: bad"
    );
    assert_eq!(IngestionError::Extraction("raw".to_string()).message(), "raw");
}

#[test]
fn statuses_with_their_own_message_take_any_body() {
    // byte 200 falls inside a two-byte character: such a body cannot be cut,
    // but these statuses never quote it.
    let body = format!("{}é{}", "a".repeat(199), "b".repeat(20));
    assert!(matches!(classify_llm_error("Anthropic", 401, &body), IngestionError::AuthenticationError { .. }));
    assert!(matches!(classify_llm_error("Anthropic", 402, &body), IngestionError::ConfigurationError(_)));
    assert!(matches!(classify_llm_error("Anthropic", 404, &body), IngestionError::ConfigurationError(_)));
    match classify_llm_error("Anthropic", 503, &body) {
        IngestionError::ConnectionError { message, .. } => {
            assert_eq!(message, "Server error (HTTP 503). Try again later.")
        },
        other => panic!("unexpected {other:?}"),
    }
}
