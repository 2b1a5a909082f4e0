//! One-shot Anthropic API key validation: the decisions around the probe.
//!
//! The probe is a zero-cost GET of `/v1/models`. A 2xx answer accepts the
//! key; 401 and 403 reject it with Anthropic's own message; anything else
//! (5xx, 429, network failure) is transient, so the caller can soft-warn
//! instead of refusing to save. The request itself is made by the caller.

use crate::error::{cut_ok, truncate_at_bytes, truncated_bytes};
use crate::ai_schema::{get, member_index, str_of};
use crate::helpers::{joined_path, path_join};
use crate::json::{lemma_members_view, Json, JsonV};
use crate::text::{decimal, decimal_string, owned, push_str};
use vstd::prelude::*;
use vstd::string::StringSliceAdditionalSpecFns;

verus! {

/// Path on the Anthropic API used as a zero-cost auth probe.
pub open spec fn models_path() -> Seq<char> {
    "/v1/models"@
}

/// Default upstream Anthropic API base.
pub open spec fn anthropic_api_base() -> Seq<char> {
    "https://api.anthropic.com"@
}

/// Path on the Anthropic API used as a zero-cost auth probe.
pub fn models_path_str() -> (s: &'static str)
    ensures
        s@ == models_path(),
{
    "/v1/models"
}

/// Default upstream Anthropic API base.
pub fn anthropic_api_base_str() -> (s: &'static str)
    ensures
        s@ == anthropic_api_base(),
{
    "https://api.anthropic.com"
}

/// Outcome of a failed key validation.
#[derive(Debug)]
pub enum AnthropicValidationError {
    /// Anthropic returned 401 or 403: the key is definitively bad.
    Invalid {
        /// Upstream HTTP status (401 or 403).
        status: u16,
        /// Anthropic's message, or its response body truncated.
        upstream_message: String,
    },
    /// Network failure, 5xx, timeout, etc.: the key is not demonstrably bad.
    Transient { detail: String },
}

/// The display text of a validation error.
pub open spec fn validation_error_text(e: AnthropicValidationError) -> Seq<char> {
    match e {
        AnthropicValidationError::Invalid { status, upstream_message } => "Anthropic key rejected (HTTP "@
            + decimal(status as nat) + "): "@ + upstream_message@,
        AnthropicValidationError::Transient { detail } => "Could not validate Anthropic key: "@
            + detail@,
    }
}

impl AnthropicValidationError {
    /// The display text of this error.
    pub fn message(&self) -> (r: String)
        ensures
            r@ == validation_error_text(*self),
    {
        match self {
            AnthropicValidationError::Invalid { status, upstream_message } => {
                let mut s = owned("Anthropic key rejected (HTTP ");
                let code = decimal_string(*status as u64);
                push_str(&mut s, code.as_str());
                push_str(&mut s, "): ");
                push_str(&mut s, upstream_message.as_str());
                s
            },
            AnthropicValidationError::Transient { detail } => {
                let mut s = owned("Could not validate Anthropic key: ");
                push_str(&mut s, detail.as_str());
                s
            },
        }
    }
}

/// `s` without its trailing `/` characters.
pub open spec fn trim_trailing_slashes(s: Seq<char>) -> Seq<char>
    decreases s.len(),
{
    if s.len() > 0 && s.last() == '/' {
        trim_trailing_slashes(s.drop_last())
    } else {
        s
    }
}

/// The probe URL for the API base `base`: the base without trailing
/// slashes, then the models path.
pub fn probe_url(base: &str) -> (url: String)
    ensures
        url@ == trim_trailing_slashes(base@) + models_path(),
{
    let chars = crate::text::chars_of(base);
    let mut n: usize = chars.len();
    proof {
        assert(chars@.take(n as int) =~= chars@);
    }
    while n > 0 && chars[n - 1] == '/'
        invariant
            n <= chars.len(),
            trim_trailing_slashes(chars@.take(n as int)) == trim_trailing_slashes(base@),
            chars@ == base@,
        decreases n,
    {
        proof {
            assert(chars@.take(n as int).drop_last() =~= chars@.take(n - 1));
        }
        n -= 1;
    }
    let head = crate::text::subvec(&chars, 0, n);
    proof {
        assert(head@ =~= chars@.take(n as int));
    }
    let mut url = crate::text::string_of(&head);
    push_str(&mut url, models_path_str());
    url
}

/// How a probe answer with HTTP status `status` is judged.
#[derive(Clone, Copy, Debug, PartialEq, Eq, Structural)]
pub enum ProbeVerdict {
    /// 2xx: the key works.
    Accepted,
    /// 401 or 403: the key is definitively bad.
    Rejected,
    /// Anything else: no conclusion about the key.
    Inconclusive,
}

/// The verdict on HTTP status `status`.
pub open spec fn verdict_of(status: u16) -> ProbeVerdict {
    if 200 <= status < 300 {
        ProbeVerdict::Accepted
    } else if status == 401 || status == 403 {
        ProbeVerdict::Rejected
    } else {
        ProbeVerdict::Inconclusive
    }
}

/// Judge the probe answer's HTTP status: 2xx accepts the key, 401/403
/// reject it, anything else (5xx, 429, ...) is transient.
pub fn probe_verdict(status: u16) -> (v: ProbeVerdict)
    ensures
        v == verdict_of(status),
{
    if 200 <= status && status < 300 {
        ProbeVerdict::Accepted
    } else if status == 401 || status == 403 {
        ProbeVerdict::Rejected
    } else {
        ProbeVerdict::Inconclusive
    }
}

/// The message at `error.message` of a response body parsed as JSON
/// (`None` when it did not parse): Anthropic's error shape is
/// `{"error":{"message":"...","type":"..."}}`.
pub open spec fn error_message_of(parsed: Option<JsonV>) -> Option<Seq<char>> {
    match parsed {
        Some(p) => match get(p, "error"@) {
            Some(e) => str_of(get(e, "message"@)),
            None => None,
        },
        None => None,
    }
}

/// The plain form of an optional parsed body.
pub open spec fn parsed_view(parsed: Option<&Json>) -> Option<JsonV> {
    match parsed {
        Some(j) => Some(j@),
        None => None,
    }
}

fn member_of<'a>(j: &'a Json, k: &str) -> (r: Option<&'a Json>)
    ensures
        match r {
            Some(v) => get(j@, k@) == Some(v@),
            None => get(j@, k@) is None,
        },
{
    match j {
        Json::Object(ms) => {
            proof {
                lemma_members_view(ms@);
            }
            match member_index(ms, k) {
                Some(i) => Some(&ms[i].1),
                None => None,
            }
        },
        _ => None,
    }
}

/// The message at `error.message` of a parsed response body.
pub fn error_message(parsed: Option<&Json>) -> (r: Option<String>)
    ensures
        match error_message_of(parsed_view(parsed)) {
            Some(m) => r matches Some(x) && x@ == m,
            None => r is None,
        },
{
    let p = match parsed {
        Some(p) => p,
        None => {
            return None;
        },
    };
    match member_of(p, "error") {
        Some(e) => match member_of(e, "message") {
            Some(Json::Str(m)) => Some(owned(m.as_str())),
            _ => None,
        },
        None => None,
    }
}

/// A response body cut to 240 bytes (plus `"..."`) for display.
pub fn truncate(body: &str) -> (r: String)
    requires
        cut_ok(body, 240),
    ensures
        r@ == truncated_bytes(body, 240),
{
    truncate_at_bytes(body, 240)
}

/// The user-facing message for a rejected key, given the response body
/// and its JSON error message `json`: a placeholder for an empty body, the
/// JSON message when there is one, else the body cut to 240 bytes.
pub open spec fn upstream_text(body: &str, json: Option<Seq<char>>) -> Seq<char> {
    if body@.len() == 0 {
        "Anthropic returned no body"@
    } else {
        match json {
            Some(m) => m,
            None => truncated_bytes(body, 240),
        }
    }
}

/// Cutting the body for display would split a character: the body is used
/// as it is (not empty, no JSON message) and byte 240 is inside one.
pub open spec fn cut_splits_char(body: &str, json: Option<Seq<char>>) -> bool {
    body@.len() > 0 && json is None && !cut_ok(body, 240)
}

/// The user-facing message for a rejected key from its response body and
/// the body's JSON error message `json` (as computed by the caller).
pub fn upstream_message_from(body: &str, json: Option<String>) -> (r: String)
    requires
        !cut_splits_char(
            body,
            match json {
                Some(m) => Some(m@),
                None => None,
            },
        ),
    ensures
        r@ == upstream_text(
            body,
            match json {
                Some(m) => Some(m@),
                None => None,
            },
        ),
{
    if body.as_bytes().len() == 0 {
        proof {
            vstd::utf8::encode_utf8_decode_utf8(body@);
        }
        return owned("Anthropic returned no body");
    }
    proof {
        vstd::utf8::encode_utf8_decode_utf8(body@);
        if body@.len() == 0 {
            assert(body.spec_bytes() =~= vstd::utf8::encode_utf8(Seq::<char>::empty()));
        }
    }
    match json {
        Some(m) => m,
        None => truncate(body),
    }
}

/// The message Anthropic gave for rejecting a key, from the response body
/// and the body parsed as JSON (`None` when it does not parse): `None`
/// exactly when cutting the body for display would split a character
/// (where a plain byte slice would panic).
pub fn upstream_message(body: &str, parsed: Option<&Json>) -> (r: Option<String>)
    ensures
        r is None <==> cut_splits_char(body, error_message_of(parsed_view(parsed))),
        r matches Some(m) ==> m@ == upstream_text(body, error_message_of(parsed_view(parsed))),
{
    let json = error_message(parsed);
    let ghost jv = error_message_of(parsed_view(parsed));
    proof {
        assert(jv == match json {
            Some(m) => Some(m@),
            None => None::<Seq<char>>,
        });
    }
    let ok_cut = body.as_bytes().len() <= 240 || body.is_char_boundary(240);
    if body.as_bytes().len() > 0 && json.is_none() && !ok_cut {
        proof {
            vstd::utf8::encode_utf8_decode_utf8(body@);
            if body@.len() == 0 {
                assert(body.spec_bytes() =~= vstd::utf8::encode_utf8(Seq::<char>::empty()));
            }
        }
        return None;
    }
    proof {
        vstd::utf8::encode_utf8_decode_utf8(body@);
        if body@.len() > 0 && body.spec_bytes().len() == 0 {
            assert(vstd::utf8::decode_utf8(body.spec_bytes()) =~= Seq::<char>::empty());
        }
    }
    Some(upstream_message_from(body, json))
}

/// The detail of a transient failure with HTTP status text `status_text`
/// and response body `body` (none when it could not be read): the body,
/// cut to 240 bytes, follows the status when it is not empty.
pub open spec fn transient_text(status_text: Seq<char>, body: Option<&str>) -> Seq<char> {
    match body {
        Some(b) => if b@.len() > 0 {
            "HTTP "@ + status_text + ": "@ + truncated_bytes(b, 240)
        } else {
            "HTTP "@ + status_text
        },
        None => "HTTP "@ + status_text,
    }
}

/// The detail of a transient failure, given the status's display text and
/// the response body if it could be read.
pub fn transient_detail(status_text: &str, body: Option<&str>) -> (r: String)
    requires
        body matches Some(b) ==> cut_ok(b, 240),
    ensures
        r@ == transient_text(status_text@, body),
{
    let mut s = owned("HTTP ");
    push_str(&mut s, status_text);
    match body {
        Some(b) => {
            let chars = crate::text::chars_of(b);
            if chars.len() > 0 {
                let t = truncate(b);
                push_str(&mut s, ": ");
                push_str(&mut s, t.as_str());
            }
        },
        None => {},
    }
    s
}

/// The reason phrase registered for HTTP status `code` (`"Unauthorized"`
/// for 401), if the `http` crate knows one.
pub uninterp spec fn canonical_reason_of(code: u16) -> Option<Seq<char>>;

/// `http::StatusCode::canonical_reason` of the status `code`. Trusted: the
/// result is the named reason phrase of `code`.
#[verifier::external_body]
fn canonical_reason(code: u16) -> (r: Option<&'static str>)
    requires
        100 <= code <= 999,
    ensures
        r matches Some(s) ==> canonical_reason_of(code) == Some(s@),
        r is None ==> canonical_reason_of(code) is None,
{
    match reqwest::StatusCode::from_u16(code) {
        Ok(status) => status.canonical_reason(),
        Err(_) => None,
    }
}

/// How an HTTP status prints: its code, a space, and its reason phrase
/// (`"<unknown status code>"` when there is none).
pub open spec fn status_text(code: u16) -> Seq<char> {
    decimal(code as nat) + " "@ + match canonical_reason_of(code) {
        Some(r) => r,
        None => "<unknown status code>"@,
    }
}

/// The display text of HTTP status `code` (`"500 Internal Server Error"`).
pub fn status_display(code: u16) -> (s: String)
    requires
        100 <= code <= 999,
    ensures
        s@ == status_text(code),
{
    let mut s = decimal_string(code as u64);
    push_str(&mut s, " ");
    match canonical_reason(code) {
        Some(r) => push_str(&mut s, r),
        None => push_str(&mut s, "<unknown status code>"),
    }
    s
}

/// The error for a key rejected with HTTP `status`, given the response
/// body and the body parsed as JSON, or `None` when the upstream message
/// cannot be cut for display (see [`upstream_message`]).
pub fn rejected_key(status: u16, body: &str, parsed: Option<&Json>) -> (r: Option<AnthropicValidationError>)
    ensures
        r is None <==> cut_splits_char(body, error_message_of(parsed_view(parsed))),
        r matches Some(e) ==> (e matches AnthropicValidationError::Invalid {
            status: s,
            upstream_message: m,
        } && s == status && m@ == upstream_text(body, error_message_of(parsed_view(parsed)))),
{
    match upstream_message(body, parsed) {
        Some(m) => Some(AnthropicValidationError::Invalid { status, upstream_message: m }),
        None => None,
    }
}

/// The error for an inconclusive probe answer with HTTP `status` and the
/// response body if it could be read.
pub fn inconclusive_probe(status: u16, body: Option<&str>) -> (e: AnthropicValidationError)
    requires
        100 <= status <= 999,
        body matches Some(b) ==> cut_ok(b, 240),
    ensures
        e matches AnthropicValidationError::Transient { detail } && detail@ == transient_text(
            status_text(status),
            body,
        ),
{
    let text = status_display(status);
    AnthropicValidationError::Transient { detail: transient_detail(text.as_str(), body) }
}

/// A transient error whose detail is `prefix` followed by the failure's
/// own text (`"Network error contacting Anthropic: "` and the like).
pub fn transient_failure(prefix: &str, cause: &str) -> (e: AnthropicValidationError)
    ensures
        e matches AnthropicValidationError::Transient { detail } && detail@ == prefix@ + cause@,
{
    let mut s = owned(prefix);
    push_str(&mut s, cause);
    AnthropicValidationError::Transient { detail: s }
}

// ---------------------------------------------------------------------------
// The stored key
// ---------------------------------------------------------------------------

/// The name of the key file inside the config directory.
pub fn key_file_name() -> (s: &'static str)
    ensures
        s@ == "anthropic.key.json"@,
{
    "anthropic.key.json"
}

/// The path of the key file for the given config directory.
pub fn key_path(config_dir: &str) -> (r: String)
    ensures
        r@ == path_join(config_dir@, "anthropic.key.json"@),
{
    joined_path(config_dir, key_file_name())
}

/// The message for an attempt to store an empty key.
pub open spec fn empty_key_refusal() -> Seq<char> {
    "Refusing to save empty Anthropic API key; use delete() instead"@
}

/// A key may be stored only when it is not empty.
pub open spec fn save_allowed(api_key: Seq<char>) -> bool {
    api_key.len() > 0
}

/// The key served back from a store holding `api_key`: an empty stored key
/// counts as none.
pub open spec fn read_back(api_key: String) -> Option<String> {
    if api_key@.len() == 0 {
        None
    } else {
        Some(api_key)
    }
}

/// Check a key before it is stored: an empty key is refused (deleting the
/// store is the way to forget a key).
pub fn check_key_for_save(api_key: &str) -> (r: Result<(), String>)
    ensures
        r is Ok <==> save_allowed(api_key@),
        r matches Err(m) ==> m@ == empty_key_refusal(),
{
    if api_key.as_bytes().len() == 0 {
        proof {
            vstd::utf8::encode_utf8_decode_utf8(api_key@);
        }
        return Err(owned("Refusing to save empty Anthropic API key; use delete() instead"));
    }
    proof {
        vstd::utf8::encode_utf8_decode_utf8(api_key@);
        if api_key@.len() == 0 {
            assert(api_key.spec_bytes() =~= vstd::utf8::encode_utf8(Seq::<char>::empty()));
        }
    }
    Ok(())
}

/// The key read back from the store.
pub fn stored_key(api_key: String) -> (r: Option<String>)
    ensures
        r == read_back(api_key),
{
    let n = crate::text::chars_of(api_key.as_str()).len();
    if n == 0 {
        None
    } else {
        Some(api_key)
    }
}

/// Every key that may be stored is read back as itself, and the store
/// never serves an empty key.
pub proof fn law_saved_key_reads_back(api_key: String)
    ensures
        save_allowed(api_key@) ==> read_back(api_key) == Some(api_key),
        read_back(api_key) matches Some(k) ==> save_allowed(k@),
{
}

} // verus!
