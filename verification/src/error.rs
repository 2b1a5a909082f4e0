//! Errors of the ingestion process and the classification of provider
//! failures into them.

use crate::text::{decimal, decimal_string, owned, push_str};
use vstd::prelude::*;
use vstd::string::StringSliceAdditionalSpecFns;
use vstd::utf8::{decode_utf8, encode_utf8_decode_utf8, is_char_boundary};

verus! {

/// `reqwest::Error`, carried opaquely.
#[verifier::external_type_specification]
#[verifier::external_body]
pub struct ExReqwestError(reqwest::Error);

/// `serde_json::Error`, carried opaquely.
#[verifier::external_type_specification]
#[verifier::external_body]
pub struct ExSerdeJsonError(serde_json::Error);

/// Errors that can occur during the ingestion process.
#[derive(Debug)]
pub enum IngestionError {
    /// Ollama API communication errors
    OllamaError(String),
    /// HTTP request errors
    HttpError(reqwest::Error),
    /// JSON parsing errors
    JsonError(serde_json::Error),
    /// Schema creation errors
    SchemaCreationError(String),
    /// Configuration errors (missing API keys, etc.)
    ConfigurationError(String),
    /// Schema system errors, carried as the schema layer's message
    SchemaSystemError(String),
    /// Invalid input data
    InvalidInput(String),
    /// AI response validation errors
    AIResponseValidationError(String),
    /// File conversion errors (e.g., PDF to JSON conversion failed)
    FileConversionFailed(String),
    /// Authentication errors (invalid or expired API key)
    AuthenticationError { provider: String, message: String },
    /// Rate limit errors (too many requests)
    RateLimitError { provider: String, message: String },
    /// Timeout errors (request took too long)
    TimeoutError { provider: String, message: String },
    /// Connection errors (cannot reach the AI service)
    ConnectionError { provider: String, message: String },
    /// Failures while extracting data from a macOS app
    Extraction(String),
}

/// `s` cut to its first `limit` bytes followed by `"..."` when it is longer
/// than `limit` bytes; otherwise `s` itself.
pub open spec fn truncated_bytes(s: &str, limit: nat) -> Seq<char> {
    if s.spec_bytes().len() > limit {
        decode_utf8(s.spec_bytes().subrange(0, limit as int)) + "..."@
    } else {
        s@
    }
}

/// A cut after `limit` bytes lands on a character boundary (slicing there
/// does not panic).
pub open spec fn cut_ok(s: &str, limit: nat) -> bool {
    s.spec_bytes().len() > limit ==> is_char_boundary(s.spec_bytes(), limit as int)
}

/// `format!("{}...", &s[..limit])` when `s.len() > limit`, else `s`.
pub fn truncate_at_bytes(s: &str, limit: usize) -> (r: String)
    requires
        cut_ok(s, limit as nat),
    ensures
        r@ == truncated_bytes(s, limit as nat),
{
    let byte_len = s.as_bytes().len();
    if byte_len > limit {
        let (head, _tail) = s.split_at(limit);
        proof {
            encode_utf8_decode_utf8(head@);
            assert(head.spec_bytes() =~= s.spec_bytes().subrange(0, limit as int));
            assert(head.spec_bytes() == vstd::utf8::encode_utf8(head@));
            assert(decode_utf8(s.spec_bytes().subrange(0, limit as int)) == head@);
        }
        let mut r = owned(head);
        push_str(&mut r, "...");
        assert(r@ == head@ + "..."@);
        r
    } else {
        let r = owned(s);
        assert(!(s.spec_bytes().len() > limit));
        r
    }
}

/// The concatenation of three strings.
pub open spec fn cat3(a: Seq<char>, b: Seq<char>, c: Seq<char>) -> Seq<char> {
    a + b + c
}

/// The display text of an error whose variant carries only strings.
pub open spec fn display_text(e: IngestionError) -> Seq<char> {
    match e {
        IngestionError::OllamaError(m) => "Ollama API error: "@ + m@,
        IngestionError::SchemaCreationError(m) => "Schema creation error: "@ + m@,
        IngestionError::ConfigurationError(m) => "Configuration error: "@ + m@,
        IngestionError::SchemaSystemError(m) => "Schema system error: "@ + m@,
        IngestionError::InvalidInput(m) => "Invalid input data: "@ + m@,
        IngestionError::AIResponseValidationError(m) => "AI response validation error: "@ + m@,
        IngestionError::FileConversionFailed(m) => "File conversion failed: "@ + m@,
        IngestionError::AuthenticationError { provider, message } => cat3(
            provider@,
            " authentication error: "@,
            message@,
        ),
        IngestionError::RateLimitError { provider, message } => cat3(
            provider@,
            " rate limited: "@,
            message@,
        ),
        IngestionError::TimeoutError { provider, message } => cat3(
            provider@,
            " request timed out: "@,
            message@,
        ),
        IngestionError::ConnectionError { provider, message } => cat3(
            provider@,
            " connection error: "@,
            message@,
        ),
        IngestionError::Extraction(m) => m@,
        _ => Seq::empty(),
    }
}

/// The concise message shown in the UI for an error whose variant carries
/// only strings.
pub open spec fn user_text(e: IngestionError) -> Seq<char> {
    match e {
        IngestionError::AuthenticationError { provider, .. } => provider@
            + " API key is invalid or expired. Check your configuration."@,
        IngestionError::RateLimitError { provider, .. } => provider@
            + " rate limit reached. Please wait a moment and try again."@,
        IngestionError::TimeoutError { provider, .. } => provider@
            + " request timed out. The service may be slow or unavailable."@,
        IngestionError::ConnectionError { provider, message } => "Cannot connect to "@ + provider@
            + ". "@ + message@,
        IngestionError::ConfigurationError(m) => "Configuration error: "@ + m@,
        IngestionError::InvalidInput(m) => "Invalid input: "@ + m@,
        _ => display_text(e),
    }
}

/// The error carries an outside error value.
pub open spec fn carries_outside_error(e: IngestionError) -> bool {
    e is HttpError || e is JsonError
}

/// Display text of a `reqwest::Error`; its wording is reqwest's own.
#[verifier::external_body]
fn reqwest_error_text(e: &reqwest::Error) -> String {
    format!("{}", e)
}

/// Display text of a `serde_json::Error`; its wording is serde_json's own.
#[verifier::external_body]
fn serde_json_error_text(e: &serde_json::Error) -> String {
    format!("{}", e)
}

fn prefixed(prefix: &str, m: &String) -> (r: String)
    ensures
        r@ == prefix@ + m@,
{
    let mut r = owned(prefix);
    push_str(&mut r, m.as_str());
    r
}

fn joined2(a: &str, b: &str) -> (r: String)
    ensures
        r@ == a@ + b@,
{
    let mut r = owned(a);
    push_str(&mut r, b);
    r
}

fn joined3(a: &str, b: &str, c: &str) -> (r: String)
    ensures
        r@ == a@ + b@ + c@,
{
    let mut r = owned(a);
    push_str(&mut r, b);
    push_str(&mut r, c);
    r
}

impl IngestionError {
    /// Create a new Ollama API error
    pub fn ollama_error(msg: &str) -> (r: Self)
        ensures
            r matches IngestionError::OllamaError(m) && m@ == msg@,
    {
        IngestionError::OllamaError(owned(msg))
    }

    /// Create a new configuration error
    pub fn configuration_error(msg: &str) -> (r: Self)
        ensures
            r matches IngestionError::ConfigurationError(m) && m@ == msg@,
    {
        IngestionError::ConfigurationError(owned(msg))
    }

    /// Create a new invalid input error
    pub fn invalid_input(msg: &str) -> (r: Self)
        ensures
            r matches IngestionError::InvalidInput(m) && m@ == msg@,
    {
        IngestionError::InvalidInput(owned(msg))
    }

    /// Create a new AI response validation error
    pub fn ai_response_validation_error(msg: &str) -> (r: Self)
        ensures
            r matches IngestionError::AIResponseValidationError(m) && m@ == msg@,
    {
        IngestionError::AIResponseValidationError(owned(msg))
    }

    /// The error's display text (`"Configuration error: …"` and so on).
    pub fn message(&self) -> (r: String)
        ensures
            !carries_outside_error(*self) ==> r@ == display_text(*self),
    {
        match self {
            IngestionError::OllamaError(m) => prefixed("Ollama API error: ", m),
            IngestionError::HttpError(e) => {
                let t = reqwest_error_text(e);
                prefixed("HTTP request failed: ", &t)
            },
            IngestionError::JsonError(e) => {
                let t = serde_json_error_text(e);
                prefixed("JSON parsing error: ", &t)
            },
            IngestionError::SchemaCreationError(m) => prefixed("Schema creation error: ", m),
            IngestionError::ConfigurationError(m) => prefixed("Configuration error: ", m),
            IngestionError::SchemaSystemError(m) => prefixed("Schema system error: ", m),
            IngestionError::InvalidInput(m) => prefixed("Invalid input data: ", m),
            IngestionError::AIResponseValidationError(m) => prefixed(
                "AI response validation error: ",
                m,
            ),
            IngestionError::FileConversionFailed(m) => prefixed("File conversion failed: ", m),
            IngestionError::AuthenticationError { provider, message } => joined3(
                provider.as_str(),
                " authentication error: ",
                message.as_str(),
            ),
            IngestionError::RateLimitError { provider, message } => joined3(
                provider.as_str(),
                " rate limited: ",
                message.as_str(),
            ),
            IngestionError::TimeoutError { provider, message } => joined3(
                provider.as_str(),
                " request timed out: ",
                message.as_str(),
            ),
            IngestionError::ConnectionError { provider, message } => joined3(
                provider.as_str(),
                " connection error: ",
                message.as_str(),
            ),
            IngestionError::Extraction(m) => owned(m.as_str()),
        }
    }

    /// Returns a concise, user-friendly message suitable for UI display.
    pub fn user_message(&self) -> (r: String)
        ensures
            !carries_outside_error(*self) ==> r@ == user_text(*self),
    {
        match self {
            IngestionError::AuthenticationError { provider, .. } => joined2(provider.as_str(), " API key is invalid or expired. Check your configuration."),
            IngestionError::RateLimitError { provider, .. } => joined2(provider.as_str(), " rate limit reached. Please wait a moment and try again."),
            IngestionError::TimeoutError { provider, .. } => joined2(provider.as_str(), " request timed out. The service may be slow or unavailable."),
            IngestionError::ConnectionError { provider, message } => {
                let mut r = joined3("Cannot connect to ", provider.as_str(), ". ");
                push_str(&mut r, message.as_str());
                r
            },
            IngestionError::ConfigurationError(m) => prefixed("Configuration error: ", m),
            IngestionError::InvalidInput(m) => prefixed("Invalid input: ", m),
            _ => self.message(),
        }
    }
}

/// `truncate_body`: a response body cut to 200 bytes plus `"..."`.
pub open spec fn truncated_body(body: &str) -> Seq<char> {
    truncated_bytes(body, 200)
}

/// Truncate a response body to avoid huge error messages.
pub fn truncate_body(body: &str) -> (r: String)
    requires
        cut_ok(body, 200),
    ensures
        r@ == truncated_body(body),
{
    truncate_at_bytes(body, 200)
}

/// The full contract of `classify_llm_error`.
pub open spec fn classified_llm_error(
    e: IngestionError,
    provider: &str,
    status_code: u16,
    body: &str,
) -> bool {
    if status_code == 401 {
        e matches IngestionError::AuthenticationError { provider: p, message: m } && p@
            == provider@ && m@ == "API key invalid or expired"@
    } else if status_code == 402 {
        e matches IngestionError::ConfigurationError(m) && m@ == provider@
            + ": insufficient credits — add funds to your account"@
    } else if status_code == 404 {
        e matches IngestionError::ConfigurationError(m) && m@ == provider@
            + ": model not found — check your model setting"@
    } else if status_code == 429 {
        e matches IngestionError::RateLimitError { provider: p, message: m } && p@ == provider@
            && m@ == "Too many requests. "@ + truncated_body(body)
    } else if 500 <= status_code <= 599 {
        e matches IngestionError::ConnectionError { provider: p, message: m } && p@ == provider@
            && m@ == "Server error (HTTP "@ + decimal(status_code as nat) + "). Try again later."@
    } else {
        e matches IngestionError::ConfigurationError(m) && m@ == provider@
            + ": API request failed with status "@ + decimal(status_code as nat) + ": "@
            + truncated_body(body)
    }
}

/// Whether the message for `status_code` quotes the response body (cut to
/// 200 bytes): for 429 and for statuses with no message of their own.
pub open spec fn quotes_body(status_code: u16) -> bool {
    status_code == 429 || !(status_code == 401 || status_code == 402 || status_code == 404 || (500
        <= status_code <= 599))
}

/// Classify an HTTP error response from an LLM provider into a specific
/// error variant. Where the message quotes the body, the 200-byte cut must
/// fall between characters.
pub fn classify_llm_error(provider: &str, status_code: u16, body: &str) -> (e: IngestionError)
    requires
        quotes_body(status_code) ==> cut_ok(body, 200),
    ensures
        classified_llm_error(e, provider, status_code, body),
{
    if status_code == 401 {
        IngestionError::AuthenticationError {
            provider: owned(provider),
            message: owned("API key invalid or expired"),
        }
    } else if status_code == 402 {
        IngestionError::ConfigurationError(
            joined2(provider, ": insufficient credits — add funds to your account"),
        )
    } else if status_code == 404 {
        IngestionError::ConfigurationError(
            joined2(provider, ": model not found — check your model setting"),
        )
    } else if status_code == 429 {
        let t = truncate_body(body);
        IngestionError::RateLimitError {
            provider: owned(provider),
            message: prefixed("Too many requests. ", &t),
        }
    } else if 500 <= status_code && status_code <= 599 {
        let code = decimal_string(status_code as u64);
        let mut m = prefixed("Server error (HTTP ", &code);
        push_str(&mut m, "). Try again later.");
        IngestionError::ConnectionError { provider: owned(provider), message: m }
    } else {
        let code = decimal_string(status_code as u64);
        let t = truncate_body(body);
        let mut m = joined3(provider, ": API request failed with status ", code.as_str());
        push_str(&mut m, ": ");
        push_str(&mut m, t.as_str());
        IngestionError::ConfigurationError(m)
    }
}

/// What `classify_transport_error` returns once reqwest has said whether
/// the failure was a timeout or a failed connect, and how it reads.
pub open spec fn classified_transport_error(
    e: IngestionError,
    provider: Seq<char>,
    is_timeout: bool,
    is_connect: bool,
    detail: Seq<char>,
) -> bool {
    if is_timeout {
        e matches IngestionError::TimeoutError { provider: p, message: m } && p@ == provider
            && m@ == "Request exceeded the configured timeout"@
    } else if is_connect {
        e matches IngestionError::ConnectionError { provider: p, message: m } && p@ == provider
            && m@ == "Could not connect. Is the service running? ("@ + detail + ")"@
    } else {
        e matches IngestionError::ConnectionError { provider: p, message: m } && p@ == provider
            && m@ == "Network error: "@ + detail
    }
}

/// The error variant for a transport failure with the given traits.
pub fn classify_transport_failure(provider: &str, is_timeout: bool, is_connect: bool, detail: &str) -> (e:
    IngestionError)
    ensures
        classified_transport_error(e, provider@, is_timeout, is_connect, detail@),
{
    if is_timeout {
        IngestionError::TimeoutError {
            provider: owned(provider),
            message: owned("Request exceeded the configured timeout"),
        }
    } else if is_connect {
        IngestionError::ConnectionError {
            provider: owned(provider),
            message: joined3("Could not connect. Is the service running? (", detail, ")"),
        }
    } else {
        IngestionError::ConnectionError {
            provider: owned(provider),
            message: joined2("Network error: ", detail),
        }
    }
}

/// Calls `reqwest::Error::is_timeout`; nothing is stated of the answer,
/// which depends on reqwest's internal error kind.
#[verifier::external_body]
fn reqwest_is_timeout(err: &reqwest::Error) -> bool {
    err.is_timeout()
}

/// Calls `reqwest::Error::is_connect`; nothing is stated of the answer,
/// which depends on reqwest's internal error kind.
#[verifier::external_body]
fn reqwest_is_connect(err: &reqwest::Error) -> bool {
    err.is_connect()
}

/// Classify a transport-level (reqwest) error into a specific error variant.
pub fn classify_transport_error(provider: &str, err: &reqwest::Error) -> (e: IngestionError)
    ensures
        exists|t: bool, c: bool, d: Seq<char>| classified_transport_error(e, provider@, t, c, d),
{
    let t = reqwest_is_timeout(err);
    let c = reqwest_is_connect(err);
    let d = reqwest_error_text(err);
    classify_transport_failure(provider, t, c, d.as_str())
}

} // verus!
