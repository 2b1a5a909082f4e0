//! Finding the JSON in the reply of a language model: inside a ```json
//! fence, after leading prose, or between the outermost braces.

use crate::conversion::{json_syntax_error, json_syntax_error_of};
use crate::error::{cut_ok, truncate_at_bytes, truncated_bytes, IngestionError};
use crate::text::{chars_of, find_from, find_from_exec, lemma_find_from, matches_at, owned, push_str, string_of, subvec};
use vstd::prelude::*;

verus! {

/// The items of `serde_json`'s stream of JSON values over `text`, in
/// order: `None` for an item that is an error, `Some(..)` for a value,
/// serialized compactly (or the text of the error serializing it).
pub uninterp spec fn json_stream_items_of(text: Seq<char>) -> Seq<Option<Result<Seq<char>, Seq<char>>>>;

/// The text of a streamed outcome.
pub open spec fn stream_view(r: Option<Result<String, String>>) -> Option<Result<Seq<char>, Seq<char>>> {
    match r {
        Some(Ok(s)) => Some(Ok(s@)),
        Some(Err(e)) => Some(Err(e@)),
        None => None,
    }
}

/// The text of the stream's items.
pub open spec fn items_text(r: Seq<Option<Result<String, String>>>) -> Seq<Option<Result<Seq<char>, Seq<char>>>> {
    r.map_values(|x: Option<Result<String, String>>| stream_view(x))
}

/// `serde_json::Deserializer::from_str(text).into_iter::<Value>()`, each
/// item taken as it comes, a value passed through `serde_json::to_string`.
/// Trusted: the result is the named sequence of items for `text`, and the
/// text of each serialized value parses as JSON again (`to_string` writes
/// JSON that `from_str` reads).
#[verifier::external_body]
fn stream_items(text: &str) -> (r: Vec<Option<Result<String, String>>>)
    ensures
        items_text(r@) == json_stream_items_of(text@),
        forall|i: int|
            0 <= i < r@.len() ==> (#[trigger] r@[i] matches Some(Ok(s)) ==> json_syntax_error_of(s@) is None),
{
    let mut out = Vec::new();
    for item in serde_json::Deserializer::from_str(text).into_iter::<serde_json::Value>() {
        out.push(match item {
            Ok(v) => Some(serde_json::to_string(&v).map_err(|e| e.to_string())),
            Err(_) => None,
        });
    }
    out
}

/// The value the stream over a region gives: its first item that is a
/// value; nothing when no item is one. An error as an item (a value with
/// trailing characters, say) is passed over.
pub open spec fn first_value(items: Seq<Option<Result<Seq<char>, Seq<char>>>>) -> Option<Result<Seq<char>, Seq<char>>>
    decreases items.len(),
{
    if items.len() == 0 {
        None
    } else {
        match items[0] {
            Some(r) => Some(r),
            None => first_value(items.drop_first()),
        }
    }
}

/// The first JSON value of the stream over `text`, serialized; see
/// [`first_value`]. A value it gives parses as JSON.
fn first_streamed_json(text: &str) -> (r: Option<Result<String, String>>)
    ensures
        stream_view(r) == first_value(json_stream_items_of(text@)),
        r matches Some(Ok(s)) ==> json_syntax_error_of(s@) is None,
{
    let items = stream_items(text);
    let ghost iv = items_text(items@);
    proof {
        assert(iv.subrange(0, iv.len() as int) =~= iv);
    }
    let mut i: usize = 0;
    while i < items.len()
        invariant
            i <= items@.len(),
            iv == items_text(items@),
            iv == json_stream_items_of(text@),
            iv.len() == items@.len(),
            first_value(iv) == first_value(iv.subrange(i as int, iv.len() as int)),
            forall|k: int|
                0 <= k < items@.len() ==> (#[trigger] items@[k] matches Some(Ok(s)) ==> json_syntax_error_of(s@) is None),
        decreases items.len() - i,
    {
        let ghost rest = iv.subrange(i as int, iv.len() as int);
        proof {
            assert(rest.drop_first() =~= iv.subrange(i + 1, iv.len() as int));
            assert(rest[0] == stream_view(items@[i as int]));
        }
        match &items[i] {
            Some(Ok(s)) => {
                return Some(Ok(owned(s.as_str())));
            },
            Some(Err(e)) => {
                return Some(Err(owned(e.as_str())));
            },
            None => {},
        }
        i += 1;
    }
    proof {
        assert(iv.subrange(i as int, iv.len() as int) =~= Seq::<Option<Result<Seq<char>, Seq<char>>>>::empty());
    }
    None
}

/// The part of a reply the JSON is looked for in: what follows a ```json
/// fence, up to the next fence or the end; without a fence, the text from
/// the first `{` or `[`, whichever comes first; else the whole reply.
pub open spec fn json_region(t: Seq<char>) -> Seq<char> {
    match find_from(t, "```json"@, 0) {
        Some(start) => match find_from(t, "```"@, start + 7) {
            Some(end) => t.subrange(start + 7, end),
            None => t.subrange(start + 7, t.len() as int),
        },
        None => match (find_from(t, seq!['{'], 0), find_from(t, seq!['['], 0)) {
            (Some(o), Some(a)) => t.subrange(if o <= a { o } else { a }, t.len() as int),
            (Some(o), None) => t.subrange(o, t.len() as int),
            (None, Some(a)) => t.subrange(a, t.len() as int),
            (None, None) => t,
        },
    }
}

/// The index of the last `c` among the first `n` characters of `t`.
pub open spec fn last_index(t: Seq<char>, c: char, n: int) -> Option<int>
    decreases n,
{
    if n <= 0 {
        None
    } else if t[n - 1] == c {
        Some(n - 1)
    } else {
        last_index(t, c, n - 1)
    }
}

/// The text from the first `open` through the last `close`, when the
/// last `close` comes after the first `open`.
pub open spec fn bracket_candidate(t: Seq<char>, open: char, close: char) -> Option<Seq<char>> {
    match (find_from(t, seq![open], 0), last_index(t, close, t.len() as int)) {
        (Some(s), Some(e)) => if e > s {
            Some(t.subrange(s, e + 1))
        } else {
            None
        },
        _ => None,
    }
}

/// What a reply gives, from what the stream found in its region and
/// whether its brace and bracket candidates parse: the streamed value,
/// else the brace candidate, else the bracket candidate, else the message
/// that nothing was found, quoting the reply cut to 200 bytes.
pub open spec fn resolved(
    text: &str,
    streamed: Option<Result<Seq<char>, Seq<char>>>,
    object_parses: bool,
    array_parses: bool,
) -> Result<Seq<char>, Seq<char>> {
    match streamed {
        Some(Ok(v)) => Ok(v),
        Some(Err(e)) => Err("Failed to serialize extracted JSON: "@ + e),
        None => if object_parses && bracket_candidate(text@, '{', '}') is Some {
            Ok(bracket_candidate(text@, '{', '}')->0)
        } else if array_parses && bracket_candidate(text@, '[', ']') is Some {
            Ok(bracket_candidate(text@, '[', ']')->0)
        } else {
            Err("Could not extract valid JSON from AI response: "@ + truncated_bytes(text, 200))
        },
    }
}

/// Some strategy found JSON.
pub open spec fn found(
    text: &str,
    streamed: Option<Result<Seq<char>, Seq<char>>>,
    object_parses: bool,
    array_parses: bool,
) -> bool {
    ||| streamed is Some
    ||| object_parses && bracket_candidate(text@, '{', '}') is Some
    ||| array_parses && bracket_candidate(text@, '[', ']') is Some
}

/// The candidate between `open` and `close` exists and is one JSON value.
pub open spec fn candidate_parses(t: Seq<char>, open: char, close: char) -> bool {
    match bracket_candidate(t, open, close) {
        Some(c) => json_syntax_error_of(c) is None,
        None => false,
    }
}

/// What the reply `text` gives.
pub open spec fn extraction(text: &str) -> Result<Seq<char>, Seq<char>> {
    resolved(
        text,
        first_value(json_stream_items_of(json_region(text@))),
        candidate_parses(text@, '{', '}'),
        candidate_parses(text@, '[', ']'),
    )
}

/// Some strategy finds JSON in the reply `text`.
pub open spec fn extraction_found(text: &str) -> bool {
    found(
        text,
        first_value(json_stream_items_of(json_region(text@))),
        candidate_parses(text@, '{', '}'),
        candidate_parses(text@, '[', ']'),
    )
}

/// The outcome `r` gives the result `e` as an `AIResponseValidationError`.
pub open spec fn gives(r: Result<String, IngestionError>, e: Result<Seq<char>, Seq<char>>) -> bool {
    match e {
        Ok(v) => r matches Ok(s) && s@ == v,
        Err(m) => r matches Err(IngestionError::AIResponseValidationError(x)) && x@ == m,
    }
}

/// The region of a reply the JSON is looked for in.
pub fn json_region_of(text: &str) -> (r: String)
    ensures
        r@ == json_region(text@),
{
    let t = chars_of(text);
    let fence = chars_of("```json");
    proof {
        reveal_strlit("```json");
        reveal_strlit("```");
    }
    match find_from_exec(&t, &fence, 0) {
        Some(start) => {
            proof {
                lemma_find_from(t@, fence@, 0);
            }
            let close = chars_of("```");
            match find_from_exec(&t, &close, start + 7) {
                Some(end) => {
                    proof {
                        lemma_find_from(t@, close@, start + 7);
                    }
                    string_of(&subvec(&t, start + 7, end))
                },
                None => string_of(&subvec(&t, start + 7, t.len())),
            }
        },
        None => {
            let ov = chars_of("{");
            let av = chars_of("[");
            proof {
                reveal_strlit("{");
                reveal_strlit("[");
                assert(ov@ =~= seq!['{']);
                assert(av@ =~= seq!['[']);
            }
            let o = find_from_exec(&t, &ov, 0);
            let a = find_from_exec(&t, &av, 0);
            proof {
                lemma_find_from(t@, ov@, 0);
                lemma_find_from(t@, av@, 0);
            }
            match (o, a) {
                (Some(o), Some(a)) => {
                    let s = if o <= a {
                        o
                    } else {
                        a
                    };
                    string_of(&subvec(&t, s, t.len()))
                },
                (Some(o), None) => string_of(&subvec(&t, o, t.len())),
                (None, Some(a)) => string_of(&subvec(&t, a, t.len())),
                (None, None) => owned(text),
            }
        },
    }
}

pub(crate) fn last_index_exec(t: &Vec<char>, c: char) -> (r: Option<usize>)
    ensures
        r matches Some(i) ==> last_index(t@, c, t@.len() as int) == Some(i as int),
        r is None ==> last_index(t@, c, t@.len() as int) is None,
{
    let mut n: usize = t.len();
    while n > 0
        invariant
            n <= t.len(),
            last_index(t@, c, t@.len() as int) == last_index(t@, c, n as int),
        decreases n,
    {
        if t[n - 1] == c {
            return Some(n - 1);
        }
        n -= 1;
    }
    None
}

fn candidate_exec(t: &Vec<char>, open: char, close: char) -> (r: Option<String>)
    ensures
        r matches Some(s) ==> bracket_candidate(t@, open, close) == Some(s@),
        r is None ==> bracket_candidate(t@, open, close) is None,
{
    let mut ov: Vec<char> = Vec::new();
    ov.push(open);
    assert(ov@ =~= seq![open]);
    let s = find_from_exec(t, &ov, 0);
    let e = last_index_exec(t, close);
    match (s, e) {
        (Some(s), Some(e)) => {
            if e > s {
                proof {
                    lemma_last_index_in_range(t@, close, t@.len() as int);
                    assert(last_index(t@, close, t@.len() as int) == Some(e as int));
                    assert(e < t@.len());
                    assert(t@.len() == t.len());
                }
                assert(e < t.len());
                Some(string_of(&subvec(t, s, e + 1)))
            } else {
                None
            }
        },
        _ => None,
    }
}

pub proof fn lemma_last_index_in_range(t: Seq<char>, c: char, n: int)
    requires
        n <= t.len(),
    ensures
        last_index(t, c, n) matches Some(i) ==> 0 <= i < n,
    decreases n,
{
    if n > 0 && t[n - 1] != c {
        lemma_last_index_in_range(t, c, n - 1);
    }
}

/// What a reply gives once the stream over its region has come back
/// (`streamed`) and its brace and bracket candidates have been tried
/// (`object_parses`, `array_parses`). When nothing was found the reply is
/// quoted cut to 200 bytes, so the cut must fall between characters.
pub fn resolve_extraction(
    text: &str,
    streamed: Option<Result<String, String>>,
    object_parses: bool,
    array_parses: bool,
) -> (r: Result<String, IngestionError>)
    requires
        found(text, stream_view(streamed), object_parses, array_parses) || cut_ok(text, 200),
    ensures
        gives(r, resolved(text, stream_view(streamed), object_parses, array_parses)),
{
    match streamed {
        Some(Ok(v)) => {
            return Ok(v);
        },
        Some(Err(e)) => {
            let mut m = owned("Failed to serialize extracted JSON: ");
            push_str(&mut m, e.as_str());
            return Err(IngestionError::AIResponseValidationError(m));
        },
        None => {},
    }
    let t = chars_of(text);
    if object_parses {
        if let Some(c) = candidate_exec(&t, '{', '}') {
            return Ok(c);
        }
    }
    if array_parses {
        if let Some(c) = candidate_exec(&t, '[', ']') {
            return Ok(c);
        }
    }
    let preview = truncate_at_bytes(text, 200);
    let mut m = owned("Could not extract valid JSON from AI response: ");
    push_str(&mut m, preview.as_str());
    Err(IngestionError::AIResponseValidationError(m))
}

fn candidate_parses_exec(text: &str, open: char, close: char) -> (b: bool)
    ensures
        b == candidate_parses(text@, open, close),
{
    let t = chars_of(text);
    match candidate_exec(&t, open, close) {
        Some(c) => json_syntax_error(c.as_str()).is_none(),
        None => false,
    }
}

/// Extract the JSON from the reply of a language model: the first JSON
/// value in the region a ```json fence or the first `{` or `[` marks,
/// re-serialized; else the text from the first `{` to the last `}`, or
/// from the first `[` to the last `]`, if it is one JSON value. When none
/// is found the error quotes the reply cut to 200 bytes, which must then
/// fall between characters. What it extracts parses as JSON.
pub fn extract_json_from_response(text: &str) -> (r: Result<String, IngestionError>)
    requires
        extraction_found(text) || cut_ok(text, 200),
    ensures
        gives(r, extraction(text)),
        r matches Ok(s) ==> json_syntax_error_of(s@) is None,
{
    let region = json_region_of(text);
    let streamed = first_streamed_json(region.as_str());
    if streamed.is_some() {
        return resolve_extraction(text, streamed, false, false);
    }
    let object_parses = candidate_parses_exec(text, '{', '}');
    let array_parses = if object_parses {
        false
    } else {
        candidate_parses_exec(text, '[', ']')
    };
    proof {
        if object_parses {
            assert(resolved(text, None, true, false) == resolved(
                text,
                None,
                true,
                candidate_parses(text@, '[', ']'),
            ));
            assert(found(text, None, true, false));
        }
    }
    resolve_extraction(text, streamed, object_parses, array_parses)
}

/// [`extract_json_from_response`] on every reply: `None` exactly when no
/// JSON is found and the 200-byte cut of the reply would split a
/// character.
pub fn try_extract_json_from_response(text: &str) -> (r: Option<Result<String, IngestionError>>)
    ensures
        r is None <==> !(extraction_found(text) || cut_ok(text, 200)),
        r matches Some(x) ==> gives(x, extraction(text)),
        r matches Some(Ok(s)) ==> json_syntax_error_of(s@) is None,
{
    let region = json_region_of(text);
    let streamed = first_streamed_json(region.as_str());
    let object_parses = candidate_parses_exec(text, '{', '}');
    let array_parses = candidate_parses_exec(text, '[', ']');
    let bytes = text.as_bytes();
    let fits = bytes.len() <= 200 || text.is_char_boundary(200);
    if streamed.is_some() || (object_parses && candidate_exists(text, '{', '}')) || (array_parses
        && candidate_exists(text, '[', ']')) || fits {
        Some(extract_json_from_response(text))
    } else {
        None
    }
}

fn candidate_exists(text: &str, open: char, close: char) -> (b: bool)
    ensures
        b == bracket_candidate(text@, open, close) is Some,
{
    let t = chars_of(text);
    candidate_exec(&t, open, close).is_some()
}

proof fn lemma_last_index_facts(t: Seq<char>, c: char, n: int)
    requires
        n <= t.len(),
    ensures
        last_index(t, c, n) matches Some(e) ==> 0 <= e < n && t[e] == c && forall|k: int| e < k < n ==> t[k] != c,
        last_index(t, c, n) is None ==> forall|k: int| 0 <= k < n ==> t[k] != c,
    decreases n,
{
    if n > 0 && t[n - 1] != c {
        lemma_last_index_facts(t, c, n - 1);
    }
}

/// The fallback candidate for a pair of brackets runs from the first
/// `open` of the reply through the last `close`: when there is one, it is
/// the text from an `open` with none before it to a later `close` with none
/// after it; when there is none, no `close` follows any `open`.
pub proof fn law_candidate_spans_first_open_to_last_close(t: Seq<char>, open: char, close: char)
    ensures
        bracket_candidate(t, open, close) matches Some(c) ==> exists|s: int, e: int|
            0 <= s < e < t.len() && #[trigger] t[s] == open && #[trigger] t[e] == close && (forall|k: int|
                0 <= k < s ==> t[k] != open) && (forall|k: int| e < k < t.len() ==> t[k] != close) && c
                == t.subrange(s, e + 1),
        bracket_candidate(t, open, close) is None ==> forall|s: int, e: int|
            0 <= s < e < t.len() && #[trigger] t[s] == open ==> #[trigger] t[e] != close,
{
    lemma_find_from(t, seq![open], 0);
    lemma_last_index_facts(t, close, t.len() as int);
    let f = find_from(t, seq![open], 0);
    let l = last_index(t, close, t.len() as int);
    assert forall|k: int| 0 <= k < t.len() implies (matches_at(t, k, seq![open]) <==> t[k] == open) by {
        assert(t.subrange(k, k + 1) =~= seq![t[k]]);
        if matches_at(t, k, seq![open]) {
            assert(seq![t[k]][0] == seq![open][0]);
        }
    }
    match (f, l) {
        (Some(s), Some(e)) => {
            if e > s {
                assert(t[s] == open);
                assert(forall|k: int| 0 <= k < s ==> t[k] != open);
            } else {
                assert forall|a: int, b: int| 0 <= a < b < t.len() && #[trigger] t[a] == open implies #[trigger] t[b]
                    != close by {
                    assert(!matches_at(t, a, seq![open]) || a >= s);
                }
            }
        },
        (None, _) => {
            assert forall|a: int, b: int| 0 <= a < b < t.len() && #[trigger] t[a] == open implies #[trigger] t[b]
                != close by {
                assert(!matches_at(t, a, seq![open]));
            }
        },
        (_, None) => {},
    }
}

} // verus!
