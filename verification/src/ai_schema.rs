//! The schema a language model proposes: shortening sample data for the
//! prompt, and checking, completing and cleaning up the proposal.

use crate::json::{
    copy_json, items_view, json_view, lemma_items_view, lemma_items_view_ext, lemma_members_view,
    lemma_members_view_ext, members_view, scalar_text, scalar_to_text, Json, JsonV,
};
use crate::ai_helpers::{last_index, last_index_exec, lemma_last_index_in_range};
use crate::apple::records::{join_strings, join_with};
use crate::error::IngestionError;
use crate::schema_cache::pairs;
use crate::text::{chars_of, decimal, decimal_string, owned, push_str, str_eq, string_of, subvec, trim_seq, trim_string};
use vstd::prelude::*;

verus! {

// ---------------------------------------------------------------------------
// Looking up members
// ---------------------------------------------------------------------------

/// The value of the first member with key `k`.
pub open spec fn first_member(ms: Seq<(Seq<char>, JsonV)>, k: Seq<char>) -> Option<JsonV>
    decreases ms.len(),
{
    if ms.len() == 0 {
        None
    } else if ms[0].0 == k {
        Some(ms[0].1)
    } else {
        first_member(ms.drop_first(), k)
    }
}

/// `Value::get`: the member `k` of an object; nothing for other values.
pub open spec fn get(j: JsonV, k: Seq<char>) -> Option<JsonV> {
    match j {
        JsonV::Object(ms) => first_member(ms, k),
        _ => None,
    }
}

/// The text of a string value.
pub open spec fn str_of(j: Option<JsonV>) -> Option<Seq<char>> {
    match j {
        Some(JsonV::Str(s)) => Some(s),
        _ => None,
    }
}

/// The index of the first member with key `k`.
pub open spec fn first_key_index(ms: Seq<(Seq<char>, JsonV)>, k: Seq<char>) -> Option<int>
    decreases ms.len(),
{
    if ms.len() == 0 {
        None
    } else if ms[0].0 == k {
        Some(0)
    } else {
        match first_key_index(ms.drop_first(), k) {
            Some(i) => Some(i + 1),
            None => None,
        }
    }
}

/// The first member with key `k` is at `i` (or there is none, when `i` is
/// the length).
pub proof fn lemma_first_key_index(ms: Seq<(Seq<char>, JsonV)>, k: Seq<char>, i: int)
    requires
        0 <= i <= ms.len(),
        forall|j: int| 0 <= j < i ==> (#[trigger] ms[j]).0 != k,
        i < ms.len() ==> ms[i].0 == k,
    ensures
        first_key_index(ms, k) == (if i < ms.len() {
            Some(i)
        } else {
            None::<int>
        }),
    decreases i,
{
    if i > 0 {
        let t = ms.drop_first();
        assert forall|j: int| 0 <= j < i - 1 implies (#[trigger] t[j]).0 != k by {
            assert(t[j] == ms[j + 1]);
        }
        if i - 1 < t.len() {
            assert(t[i - 1] == ms[i]);
        }
        lemma_first_key_index(t, k, i - 1);
        assert(ms[0].0 != k);
    } else if ms.len() == 0 {
    }
}

/// The index of the first member with key `k`.
pub fn member_index(ms: &Vec<(String, Json)>, k: &str) -> (r: Option<usize>)
    ensures
        r matches Some(i) ==> i < ms@.len() && first_member(members_view(ms@), k@) == Some(
            json_view(ms@[i as int].1),
        ),
        r is None ==> first_member(members_view(ms@), k@) is None,
        match r {
            Some(i) => first_key_index(members_view(ms@), k@) == Some(i as int),
            None => first_key_index(members_view(ms@), k@) is None,
        },
{
    let ghost mv = members_view(ms@);
    proof {
        lemma_members_view(ms@);
        assert(mv.subrange(0, mv.len() as int) =~= mv);
    }
    let mut i: usize = 0;
    while i < ms.len()
        invariant
            i <= ms@.len(),
            mv == members_view(ms@),
            mv.len() == ms@.len(),
            forall|j: int| 0 <= j < ms@.len() ==> #[trigger] mv[j] == (ms@[j].0@, json_view(ms@[j].1)),
            first_member(mv, k@) == first_member(mv.subrange(i as int, mv.len() as int), k@),
            forall|j: int| 0 <= j < i ==> (#[trigger] mv[j]).0 != k@,
        decreases ms.len() - i,
    {
        let ghost rest = mv.subrange(i as int, mv.len() as int);
        proof {
            assert(rest[0] == mv[i as int]);
            assert(rest.drop_first() =~= mv.subrange(i + 1, mv.len() as int));
        }
        if crate::text::str_eq(ms[i].0.as_str(), k) {
            proof {
                lemma_first_key_index(mv, k@, i as int);
            }
            return Some(i);
        }
        i += 1;
    }
    proof {
        lemma_first_key_index(mv, k@, i as int);
    }
    None
}

// ---------------------------------------------------------------------------
// Shortening long strings
// ---------------------------------------------------------------------------

/// A string longer than 300 characters cut to its first 300 characters
/// and `"..."`.
pub open spec fn shortened(s: Seq<char>) -> Seq<char> {
    if s.len() > 300 {
        s.subrange(0, 300) + "..."@
    } else {
        s
    }
}

/// The value with every string shortened, through arrays and objects.
pub open spec fn truncated(j: JsonV) -> JsonV
    decreases j,
{
    match j {
        JsonV::Str(s) => JsonV::Str(shortened(s)),
        JsonV::Array(items) => JsonV::Array(truncated_items(items)),
        JsonV::Object(ms) => JsonV::Object(truncated_members(ms)),
        _ => j,
    }
}

/// Each item truncated.
pub open spec fn truncated_items(s: Seq<JsonV>) -> Seq<JsonV>
    decreases s,
{
    if s.len() == 0 {
        seq![]
    } else {
        truncated_items(s.subrange(0, s.len() - 1)).push(truncated(s[s.len() - 1]))
    }
}

/// Each member's value truncated.
pub open spec fn truncated_members(s: Seq<(Seq<char>, JsonV)>) -> Seq<(Seq<char>, JsonV)>
    decreases s,
{
    if s.len() == 0 {
        seq![]
    } else {
        truncated_members(s.subrange(0, s.len() - 1)).push(
            (s[s.len() - 1].0, truncated(s[s.len() - 1].1)),
        )
    }
}

proof fn lemma_truncated_items(s: Seq<JsonV>)
    ensures
        truncated_items(s).len() == s.len(),
        forall|i: int| 0 <= i < s.len() ==> #[trigger] truncated_items(s)[i] == truncated(s[i]),
    decreases s.len(),
{
    if s.len() > 0 {
        let p = s.subrange(0, s.len() - 1);
        lemma_truncated_items(p);
        assert forall|i: int| 0 <= i < s.len() implies #[trigger] truncated_items(s)[i] == truncated(
            s[i],
        ) by {
            if i < s.len() - 1 {
                assert(p[i] == s[i]);
            }
        }
    }
}

proof fn lemma_truncated_members(s: Seq<(Seq<char>, JsonV)>)
    ensures
        truncated_members(s).len() == s.len(),
        forall|i: int|
            0 <= i < s.len() ==> #[trigger] truncated_members(s)[i] == (s[i].0, truncated(s[i].1)),
    decreases s.len(),
{
    if s.len() > 0 {
        let p = s.subrange(0, s.len() - 1);
        lemma_truncated_members(p);
        assert forall|i: int| 0 <= i < s.len() implies #[trigger] truncated_members(s)[i] == (
            s[i].0,
            truncated(s[i].1),
        ) by {
            if i < s.len() - 1 {
                assert(p[i] == s[i]);
            }
        }
    }
}

fn shorten(s: &String) -> (r: String)
    ensures
        r@ == shortened(s@),
{
    let cs = chars_of(s.as_str());
    if cs.len() > 300 {
        let mut r = string_of(&subvec(&cs, 0, 300));
        push_str(&mut r, "...");
        r
    } else {
        owned(s.as_str())
    }
}

/// A copy of `value` with every string longer than 300 characters cut to
/// its first 300 characters plus `"..."`, through objects and arrays.
pub fn truncate_long_strings(value: &Json) -> (r: Json)
    ensures
        r@ == truncated(value@),
    decreases value,
{
    match value {
        Json::Str(s) => Json::Str(shorten(s)),
        Json::Array(items) => {
            let mut out: Vec<Json> = Vec::new();
            let mut i: usize = 0;
            while i < items.len()
                invariant
                    *value == Json::Array(*items),
                    i <= items@.len(),
                    out@.len() == i,
                    forall|j: int|
                        0 <= j < i ==> json_view(#[trigger] out@[j]) == truncated(json_view(items@[j])),
                decreases items.len() - i,
            {
                proof {
                    assert(decreases_to!(*value => (*value)->Array_0));
                    assert(decreases_to!(*items => items@));
                    assert(decreases_to!(items@ => items@[i as int]));
                }
                out.push(truncate_long_strings(&items[i]));
                i += 1;
            }
            proof {
                lemma_items_view(items@);
                lemma_truncated_items(items_view(items@));
                lemma_items_view_ext(out@, truncated_items(items_view(items@)));
            }
            Json::Array(out)
        },
        Json::Object(members) => {
            let mut out: Vec<(String, Json)> = Vec::new();
            let mut i: usize = 0;
            while i < members.len()
                invariant
                    *value == Json::Object(*members),
                    i <= members@.len(),
                    out@.len() == i,
                    forall|j: int|
                        0 <= j < i ==> (#[trigger] out@[j]).0@ == members@[j].0@ && json_view(out@[j].1)
                            == truncated(json_view(members@[j].1)),
                decreases members.len() - i,
            {
                proof {
                    assert(decreases_to!(*value => (*value)->Object_0));
                    assert(decreases_to!(*members => members@));
                    assert(decreases_to!(members@ => members@[i as int]));
                    assert(decreases_to!(members@[i as int] => members@[i as int].1));
                }
                let t = truncate_long_strings(&members[i].1);
                out.push((owned(members[i].0.as_str()), t));
                i += 1;
            }
            proof {
                lemma_members_view(members@);
                lemma_truncated_members(members_view(members@));
                lemma_members_view_ext(out@, truncated_members(members_view(members@)));
            }
            Json::Object(out)
        },
        _ => copy_json(value),
    }
}

// ---------------------------------------------------------------------------
// The content preview of text-file data
// ---------------------------------------------------------------------------

/// The object a hint is taken from: the data itself, or the first item of
/// an array.
pub open spec fn hint_object(j: JsonV) -> Option<Seq<(Seq<char>, JsonV)>> {
    match j {
        JsonV::Array(items) => if items.len() > 0 {
            match items[0] {
                JsonV::Object(ms) => Some(ms),
                _ => None,
            }
        } else {
            None
        },
        JsonV::Object(ms) => Some(ms),
        _ => None,
    }
}

/// The value of the first of two members that is present.
pub open spec fn either_member(ms: Seq<(Seq<char>, JsonV)>, a: Seq<char>, b: Seq<char>) -> Option<JsonV> {
    match first_member(ms, a) {
        Some(v) => Some(v),
        None => first_member(ms, b),
    }
}

/// The preview of text-file data for the schema prompt: for an object (or
/// the first object of an array) with a `file_type` and a string `content`
/// (or, without `content`, `markdown`), its first 500 characters quoted
/// (with `...` when longer), the `category` and `source_file` (or
/// `source`) strings when present, and the instruction to name the schema
/// by topic.
pub open spec fn content_hint(j: JsonV) -> Option<Seq<char>> {
    match hint_object(j) {
        Some(ms) => members_hint(ms),
        None => None,
    }
}

/// The preview of an object's text content; see [`content_hint`].
pub open spec fn members_hint(ms: Seq<(Seq<char>, JsonV)>) -> Option<Seq<char>> {
    if first_member(ms, "file_type"@) is None {
        None
    } else {
        match str_of(either_member(ms, "content"@, "markdown"@)) {
            Some(content) => Some(
                preview_head(content) + match str_of(first_member(ms, "category"@)) {
                    Some(c) => "\nCategory hint: \""@ + c + "\""@,
                    None => ""@,
                } + match str_of(either_member(ms, "source_file"@, "source"@)) {
                    Some(src) => "\nSource file: \""@ + src + "\""@,
                    None => ""@,
                } + "\n\nName the schema based on the CONTENT TOPIC above (e.g., \"recipes\", \"journal_entries\", \"medical_records\"), NOT based on the data format."@,
            ),
            None => None,
        }
    }
}

fn member_str(ms: &Vec<(String, Json)>, k: &str) -> (r: Option<String>)
    ensures
        match str_of(first_member(members_view(ms@), k@)) {
            Some(s) => r matches Some(x) && x@ == s,
            None => r is None,
        },
{
    match member_index(ms, k) {
        Some(i) => match &ms[i].1 {
            Json::Str(s) => Some(owned(s.as_str())),
            _ => None,
        },
        None => None,
    }
}

fn either_str(ms: &Vec<(String, Json)>, a: &str, b: &str) -> (r: Option<String>)
    ensures
        match str_of(either_member(members_view(ms@), a@, b@)) {
            Some(s) => r matches Some(x) && x@ == s,
            None => r is None,
        },
{
    match member_index(ms, a) {
        Some(i) => match &ms[i].1 {
            Json::Str(s) => Some(owned(s.as_str())),
            _ => None,
        },
        None => member_str(ms, b),
    }
}

/// The content preview of text-file data (an object with `file_type`, or
/// an array whose first item is one) for the schema prompt; `None` for
/// other data.
pub fn extract_content_hint(json: &Json) -> (r: Option<String>)
    ensures
        match content_hint(json@) {
            Some(h) => r matches Some(x) && x@ == h,
            None => r is None,
        },
{
    let ms = match json {
        Json::Array(items) => {
            proof {
                lemma_items_view(items@);
            }
            if items.len() == 0 {
                return None;
            }
            match &items[0] {
                Json::Object(ms) => ms,
                _ => {
                    return None;
                },
            }
        },
        Json::Object(ms) => ms,
        _ => {
            return None;
        },
    };
    hint_from_members(ms)
}

/// The opening of a content preview: the heading and the first 500
/// characters of the content, quoted, with `...` when there are more.
pub open spec fn preview_head(content: Seq<char>) -> Seq<char> {
    "\n\nCONTENT PREVIEW (use this to determine the schema name topic):\n\""@ + (if content.len() <= 500 {
        content
    } else {
        content.subrange(0, 500)
    }) + (if content.len() > 500 {
        "..."@
    } else {
        ""@
    }) + "\""@
}

fn quoted_preview(content: &str) -> (r: String)
    ensures
        r@ == preview_head(content@),
{
    proof {
        reveal_strlit("");
    }
    let cs = chars_of(content);
    let k: usize = if cs.len() <= 500 {
        cs.len()
    } else {
        500
    };
    let preview = string_of(&subvec(&cs, 0, k));
    proof {
        if cs.len() <= 500 {
            assert(cs@.subrange(0, k as int) =~= cs@);
        }
    }
    let mut hint = owned("\n\nCONTENT PREVIEW (use this to determine the schema name topic):\n\"");
    push_str(&mut hint, preview.as_str());
    if cs.len() > 500 {
        push_str(&mut hint, "...");
    }
    push_str(&mut hint, "\"");
    hint
}

/// The preview of an object's text content for the schema prompt.
fn hint_from_members(ms: &Vec<(String, Json)>) -> (r: Option<String>)
    ensures
        match members_hint(members_view(ms@)) {
            Some(h) => r matches Some(x) && x@ == h,
            None => r is None,
        },
{
    proof {
        lemma_members_view(ms@);
        reveal_strlit("");
    }
    if member_index(ms, "file_type").is_none() {
        return None;
    }
    let content = match either_str(ms, "content", "markdown") {
        Some(c) => c,
        None => {
            return None;
        },
    };
    let mut hint = quoted_preview(content.as_str());
    match member_str(ms, "category") {
        Some(c) => {
            push_str(&mut hint, "\nCategory hint: \"");
            push_str(&mut hint, c.as_str());
            push_str(&mut hint, "\"");
        },
        None => {},
    }
    match either_str(ms, "source_file", "source") {
        Some(src) => {
            push_str(&mut hint, "\nSource file: \"");
            push_str(&mut hint, src.as_str());
            push_str(&mut hint, "\"");
        },
        None => {},
    }
    push_str(
        &mut hint,
        "\n\nName the schema based on the CONTENT TOPIC above (e.g., \"recipes\", \"journal_entries\", \"medical_records\"), NOT based on the data format.",
    );
    Some(hint)
}

// ---------------------------------------------------------------------------
// Flattening values that should be strings
// ---------------------------------------------------------------------------

/// The text of the first member whose value is a string.
pub open spec fn first_str_value(ms: Seq<(Seq<char>, JsonV)>) -> Option<Seq<char>>
    decreases ms.len(),
{
    if ms.len() == 0 {
        None
    } else {
        match ms[0].1 {
            JsonV::Str(s) => Some(s),
            _ => first_str_value(ms.drop_first()),
        }
    }
}

/// The strings among the items, in order.
pub open spec fn str_items(items: Seq<JsonV>) -> Seq<Seq<char>>
    decreases items.len(),
{
    if items.len() == 0 {
        seq![]
    } else {
        let p = str_items(items.drop_last());
        match items.last() {
            JsonV::Str(s) => p.push(s),
            _ => p,
        }
    }
}

/// A string made of a value: a string itself, the first string member of
/// an object, the string items of an array joined by `", "` (none when
/// there are none), the text of a number or a boolean; nothing for null.
pub open spec fn flattened(j: JsonV) -> Option<Seq<char>> {
    match j {
        JsonV::Str(s) => Some(s),
        JsonV::Object(ms) => first_str_value(ms),
        JsonV::Array(items) => if str_items(items).len() == 0 {
            None
        } else {
            Some(join_with(str_items(items), ", "@))
        },
        JsonV::Number(t) => Some(t),
        JsonV::Bool(b) => Some(
            if b {
                "true"@
            } else {
                "false"@
            },
        ),
        JsonV::Null => None,
    }
}

/// The value made a string where it can be.
pub open spec fn flatten_any(j: JsonV) -> JsonV {
    match flattened(j) {
        Some(s) => JsonV::Str(s),
        None => j,
    }
}

/// A string made of a value: a string itself, the first string member of
/// an object, the string items of an array joined by `", "`, the text of a
/// number or a boolean; `None` for null and for what holds no string.
pub fn flatten_value_to_string(val: &Json) -> (r: Option<String>)
    ensures
        r matches Some(s) ==> flattened(val@) == Some(s@),
        r is None ==> flattened(val@) is None,
{
    match val {
        Json::Str(s) => Some(owned(s.as_str())),
        Json::Object(ms) => {
            let ghost mv = members_view(ms@);
            proof {
                lemma_members_view(ms@);
                assert(mv.subrange(0, mv.len() as int) =~= mv);
            }
            let mut i: usize = 0;
            while i < ms.len()
                invariant
                    *val == Json::Object(*ms),
                    i <= ms@.len(),
                    mv == members_view(ms@),
                    mv.len() == ms@.len(),
                    forall|j: int|
                        0 <= j < ms@.len() ==> #[trigger] mv[j] == (ms@[j].0@, json_view(ms@[j].1)),
                    first_str_value(mv) == first_str_value(mv.subrange(i as int, mv.len() as int)),
                decreases ms.len() - i,
            {
                let ghost rest = mv.subrange(i as int, mv.len() as int);
                proof {
                    assert(rest[0] == mv[i as int]);
                    assert(rest.drop_first() =~= mv.subrange(i + 1, mv.len() as int));
                }
                match &ms[i].1 {
                    Json::Str(s) => {
                        return Some(owned(s.as_str()));
                    },
                    _ => {},
                }
                i += 1;
            }
            None
        },
        Json::Array(items) => {
            let ghost iv = items_view(items@);
            proof {
                lemma_items_view(items@);
            }
            let mut strs: Vec<String> = Vec::new();
            let mut i: usize = 0;
            while i < items.len()
                invariant
                    i <= items@.len(),
                    iv == items_view(items@),
                    iv.len() == items@.len(),
                    forall|j: int| 0 <= j < items@.len() ==> #[trigger] iv[j] == json_view(items@[j]),
                    strs@.map_values(|x: String| x@) == str_items(iv.take(i as int)),
                decreases items.len() - i,
            {
                proof {
                    assert(iv.take(i + 1).drop_last() =~= iv.take(i as int));
                    assert(iv.take(i + 1).last() == iv[i as int]);
                }
                match &items[i] {
                    Json::Str(s) => {
                        let c = owned(s.as_str());
                        proof {
                            assert(strs@.push(c).map_values(|x: String| x@) =~= strs@.map_values(
                                |x: String| x@,
                            ).push(c@));
                        }
                        strs.push(c);
                    },
                    _ => {},
                }
                i += 1;
            }
            proof {
                assert(iv.take(items@.len() as int) =~= iv);
            }
            if strs.len() == 0 {
                None
            } else {
                Some(join_strings(&strs, ", "))
            }
        },
        Json::Number(t) => Some(owned(t.as_str())),
        Json::Bool(b) => Some(
            if *b {
                owned("true")
            } else {
                owned("false")
            },
        ),
        Json::Null => None,
    }
}

fn flatten_any_exec(v: &Json) -> (r: Json)
    ensures
        r@ == flatten_any(v@),
{
    match flatten_value_to_string(v) {
        Some(s) => Json::Str(s),
        None => copy_json(v),
    }
}

/// The schema members whose values map names to strings.
pub open spec fn string_map_field(k: Seq<char>) -> bool {
    k == "field_descriptions"@ || k == "field_interest_categories"@ || k == "ref_fields"@ || k
        == "transform_fields"@
}

/// The key members that name a field.
pub open spec fn key_field(k: Seq<char>) -> bool {
    k == "hash_field"@ || k == "range_field"@
}

/// A schema member cleaned up: the values of the string maps, `name`,
/// `descriptive_name`, and the hash and range fields of `key` made strings
/// where they can be.
pub open spec fn sanitize_member(k: Seq<char>, v: JsonV) -> JsonV {
    if string_map_field(k) {
        match v {
            JsonV::Object(inner) => JsonV::Object(
                inner.map_values(|p: (Seq<char>, JsonV)| (p.0, flatten_any(p.1))),
            ),
            _ => v,
        }
    } else if k == "name"@ || k == "descriptive_name"@ {
        flatten_any(v)
    } else if k == "key"@ {
        match v {
            JsonV::Object(inner) => JsonV::Object(
                inner.map_values(
                    |p: (Seq<char>, JsonV)|
                        (
                            p.0,
                            if key_field(p.0) {
                                flatten_any(p.1)
                            } else {
                                p.1
                            },
                        ),
                ),
            ),
            _ => v,
        }
    } else {
        v
    }
}

/// A schema with its members cleaned up; other values as they are.
pub open spec fn sanitized(j: JsonV) -> JsonV {
    match j {
        JsonV::Object(ms) => JsonV::Object(
            ms.map_values(|p: (Seq<char>, JsonV)| (p.0, sanitize_member(p.0, p.1))),
        ),
        _ => j,
    }
}

/// Making a value a string twice is making it one once.
proof fn lemma_flatten_any_idempotent(j: JsonV)
    ensures
        flatten_any(flatten_any(j)) == flatten_any(j),
{
}

proof fn lemma_sanitize_member_idempotent(k: Seq<char>, v: JsonV)
    ensures
        sanitize_member(k, sanitize_member(k, v)) == sanitize_member(k, v),
{
    if string_map_field(k) {
        if let JsonV::Object(inner) = v {
            let once = inner.map_values(|p: (Seq<char>, JsonV)| (p.0, flatten_any(p.1)));
            let twice = once.map_values(|p: (Seq<char>, JsonV)| (p.0, flatten_any(p.1)));
            assert forall|i: int| 0 <= i < once.len() implies twice[i] == once[i] by {
                lemma_flatten_any_idempotent(inner[i].1);
            }
            assert(twice =~= once);
        }
    } else if k == "name"@ || k == "descriptive_name"@ {
        lemma_flatten_any_idempotent(v);
    } else if k == "key"@ {
        if let JsonV::Object(inner) = v {
            let f = |p: (Seq<char>, JsonV)|
                (
                    p.0,
                    if key_field(p.0) {
                        flatten_any(p.1)
                    } else {
                        p.1
                    },
                );
            let once = inner.map_values(f);
            let twice = once.map_values(f);
            assert forall|i: int| 0 <= i < once.len() implies twice[i] == once[i] by {
                lemma_flatten_any_idempotent(inner[i].1);
            }
            assert(twice =~= once);
        }
    }
}

/// Cleaning up a schema twice is cleaning it up once, and keeps its
/// member names in order.
pub proof fn law_sanitize_idempotent(j: JsonV)
    ensures
        sanitized(sanitized(j)) == sanitized(j),
        j matches JsonV::Object(ms) ==> (sanitized(j) matches JsonV::Object(ns) && ns.len() == ms.len()
            && forall|i: int| 0 <= i < ms.len() ==> #[trigger] ns[i].0 == ms[i].0),
{
    if let JsonV::Object(ms) = j {
        let once = ms.map_values(|p: (Seq<char>, JsonV)| (p.0, sanitize_member(p.0, p.1)));
        let twice = once.map_values(|p: (Seq<char>, JsonV)| (p.0, sanitize_member(p.0, p.1)));
        assert forall|i: int| 0 <= i < once.len() implies twice[i] == once[i] by {
            lemma_sanitize_member_idempotent(ms[i].0, ms[i].1);
        }
        assert(twice =~= once);
    }
}

/// Cleaning up a schema keeps the keys of the maps it cleans up: a string
/// map (`field_descriptions` and the like) or `key` that holds an object
/// still holds one, with the same keys in the same order.
pub proof fn law_sanitize_keeps_inner_keys(ms: Seq<(Seq<char>, JsonV)>, i: int)
    requires
        0 <= i < ms.len(),
        ms[i].1 is Object,
        string_map_field(ms[i].0) || ms[i].0 == "key"@,
    ensures
        sanitized(JsonV::Object(ms)) matches JsonV::Object(ns) && ns[i].0 == ms[i].0 && (ns[i].1 matches JsonV::Object(
            inner2,
        ) && inner2.len() == ms[i].1->Object_0.len() && forall|t: int|
            0 <= t < inner2.len() ==> #[trigger] inner2[t].0 == ms[i].1->Object_0[t].0),
{
    reveal_strlit("key");
    reveal_strlit("name");
    reveal_strlit("descriptive_name");
    reveal_strlit("field_descriptions");
    reveal_strlit("field_interest_categories");
    reveal_strlit("ref_fields");
    reveal_strlit("transform_fields");
    assert("key"@.len() != "name"@.len() && "key"@.len() != "descriptive_name"@.len());
    let ns = ms.map_values(|p: (Seq<char>, JsonV)| (p.0, sanitize_member(p.0, p.1)));
    assert(ns[i] == (ms[i].0, sanitize_member(ms[i].0, ms[i].1)));
}

/// Cleaning up a schema flattens every value of its string maps
/// `field_descriptions`, `field_interest_categories`, `ref_fields` and
/// `transform_fields`: a value that has a string form (a string, the first
/// string of an object, the strings of an array joined, a number or a
/// boolean) is replaced by it; other values stay.
pub proof fn law_string_maps_are_flattened(ms: Seq<(Seq<char>, JsonV)>, i: int, t: int)
    requires
        0 <= i < ms.len(),
        ms[i].0 == "field_descriptions"@ || ms[i].0 == "field_interest_categories"@ || ms[i].0 == "ref_fields"@
            || ms[i].0 == "transform_fields"@,
        ms[i].1 matches JsonV::Object(inner) && 0 <= t < inner.len(),
    ensures
        sanitized(JsonV::Object(ms)) matches JsonV::Object(ns) && ns.len() == ms.len() && ns[i].0 == ms[i].0 && (
        ns[i].1 matches JsonV::Object(inner2) && inner2.len() == ms[i].1->Object_0.len() && inner2[t].0
            == ms[i].1->Object_0[t].0 && inner2[t].1 == match flattened(ms[i].1->Object_0[t].1) {
            Some(s) => JsonV::Str(s),
            None => ms[i].1->Object_0[t].1,
        }),
{
    let ns = ms.map_values(|p: (Seq<char>, JsonV)| (p.0, sanitize_member(p.0, p.1)));
    assert(ns[i] == (ms[i].0, sanitize_member(ms[i].0, ms[i].1)));
}

/// A value that is already a string, or null, stays as it is.
pub open spec fn plain_text(v: JsonV) -> bool {
    v is Str || v is Null
}

/// A schema member that cleaning up leaves alone: the string maps hold
/// strings, `name` and `descriptive_name` are strings or null, and so are
/// the hash and range fields of `key`.
pub open spec fn clean_member(k: Seq<char>, v: JsonV) -> bool {
    &&& string_map_field(k) ==> (v matches JsonV::Object(inner) ==> forall|i: int|
        0 <= i < inner.len() ==> #[trigger] inner[i].1 is Str)
    &&& (k == "name"@ || k == "descriptive_name"@) ==> plain_text(v)
    &&& k == "key"@ ==> (v matches JsonV::Object(inner) ==> forall|i: int|
        0 <= i < inner.len() && key_field(#[trigger] inner[i].0) ==> plain_text(inner[i].1))
}

/// A schema whose string maps, names and key fields are already strings
/// (or null) comes back from cleaning up unchanged.
pub proof fn law_sanitize_leaves_clean_schemas(ms: Seq<(Seq<char>, JsonV)>)
    requires
        forall|i: int| 0 <= i < ms.len() ==> clean_member(#[trigger] ms[i].0, ms[i].1),
    ensures
        sanitized(JsonV::Object(ms)) == JsonV::Object(ms),
{
    let once = ms.map_values(|p: (Seq<char>, JsonV)| (p.0, sanitize_member(p.0, p.1)));
    assert forall|i: int| 0 <= i < ms.len() implies once[i] == ms[i] by {
        let (k, v) = ms[i];
        assert(clean_member(k, v));
        if string_map_field(k) {
            if let JsonV::Object(inner) = v {
                let m = inner.map_values(|p: (Seq<char>, JsonV)| (p.0, flatten_any(p.1)));
                assert forall|t: int| 0 <= t < inner.len() implies m[t] == inner[t] by {
                    assert(inner[t].1 is Str);
                }
                assert(m =~= inner);
            }
        } else if k == "key"@ {
            if let JsonV::Object(inner) = v {
                let m = inner.map_values(
                    |p: (Seq<char>, JsonV)|
                        (
                            p.0,
                            if key_field(p.0) {
                                flatten_any(p.1)
                            } else {
                                p.1
                            },
                        ),
                );
                assert forall|t: int| 0 <= t < inner.len() implies m[t] == inner[t] by {
                    if key_field(inner[t].0) {
                        assert(plain_text(inner[t].1));
                    }
                }
                assert(m =~= inner);
            }
        }
    }
    assert(once =~= ms);
}

/// Apply `flatten_any` to the members of `inner` that `all` says, or to
/// the key fields.
fn flatten_members(inner: &Vec<(String, Json)>, all: bool) -> (r: Vec<(String, Json)>)
    ensures
        members_view(r@) == members_view(inner@).map_values(
            |p: (Seq<char>, JsonV)|
                (
                    p.0,
                    if all || key_field(p.0) {
                        flatten_any(p.1)
                    } else {
                        p.1
                    },
                ),
        ),
{
    let ghost w = members_view(inner@).map_values(
        |p: (Seq<char>, JsonV)|
            (
                p.0,
                if all || key_field(p.0) {
                    flatten_any(p.1)
                } else {
                    p.1
                },
            ),
    );
    proof {
        lemma_members_view(inner@);
    }
    let mut out: Vec<(String, Json)> = Vec::new();
    let mut i: usize = 0;
    while i < inner.len()
        invariant
            i <= inner@.len(),
            out@.len() == i,
            w.len() == inner@.len(),
            forall|j: int|
                0 <= j < inner@.len() ==> #[trigger] w[j] == (
                    inner@[j].0@,
                    if all || key_field(inner@[j].0@) {
                        flatten_any(json_view(inner@[j].1))
                    } else {
                        json_view(inner@[j].1)
                    },
                ),
            forall|j: int|
                0 <= j < i ==> (#[trigger] out@[j]).0@ == w[j].0 && json_view(out@[j].1) == w[j].1,
        decreases inner.len() - i,
    {
        let k = inner[i].0.as_str();
        let flat = all || str_eq(k, "hash_field") || str_eq(k, "range_field");
        let v = if flat {
            flatten_any_exec(&inner[i].1)
        } else {
            copy_json(&inner[i].1)
        };
        out.push((owned(k), v));
        i += 1;
    }
    proof {
        lemma_members_view_ext(out@, w);
    }
    out
}

fn sanitize_member_exec(k: &str, v: &Json) -> (r: Json)
    ensures
        r@ == sanitize_member(k@, v@),
{
    if str_eq(k, "field_descriptions") || str_eq(k, "field_interest_categories") || str_eq(
        k,
        "ref_fields",
    ) || str_eq(k, "transform_fields") {
        match v {
            Json::Object(inner) => {
                let r = flatten_members(inner, true);
                proof {
                    assert(members_view(r@) =~= members_view(inner@).map_values(
                        |p: (Seq<char>, JsonV)| (p.0, flatten_any(p.1)),
                    ));
                }
                Json::Object(r)
            },
            _ => copy_json(v),
        }
    } else if str_eq(k, "name") || str_eq(k, "descriptive_name") {
        flatten_any_exec(v)
    } else if str_eq(k, "key") {
        match v {
            Json::Object(inner) => {
                let r = flatten_members(inner, false);
                proof {
                    assert(members_view(r@) =~= members_view(inner@).map_values(
                        |p: (Seq<char>, JsonV)|
                            (
                                p.0,
                                if key_field(p.0) {
                                    flatten_any(p.1)
                                } else {
                                    p.1
                                },
                            ),
                    ));
                }
                Json::Object(r)
            },
            _ => copy_json(v),
        }
    } else {
        copy_json(v)
    }
}

/// Make strings of the schema members that should be strings: the values
/// of `field_descriptions`, `field_interest_categories`, `ref_fields` and
/// `transform_fields`, the top-level `name` and `descriptive_name`, and
/// `key.hash_field` and `key.range_field`. Models sometimes answer with a
/// nested object, an array or a number there.
pub fn sanitize_string_map_fields(schema_val: Json) -> (r: Json)
    ensures
        r@ == sanitized(schema_val@),
{
    match &schema_val {
        Json::Object(ms) => {
            let ghost w = members_view(ms@).map_values(
                |p: (Seq<char>, JsonV)| (p.0, sanitize_member(p.0, p.1)),
            );
            proof {
                lemma_members_view(ms@);
            }
            let mut out: Vec<(String, Json)> = Vec::new();
            let mut i: usize = 0;
            while i < ms.len()
                invariant
                    i <= ms@.len(),
                    out@.len() == i,
                    w.len() == ms@.len(),
                    forall|j: int|
                        0 <= j < ms@.len() ==> #[trigger] w[j] == (
                            ms@[j].0@,
                            sanitize_member(ms@[j].0@, json_view(ms@[j].1)),
                        ),
                    forall|j: int|
                        0 <= j < i ==> (#[trigger] out@[j]).0@ == w[j].0 && json_view(out@[j].1)
                            == w[j].1,
                decreases ms.len() - i,
            {
                let v = sanitize_member_exec(ms[i].0.as_str(), &ms[i].1);
                out.push((owned(ms[i].0.as_str()), v));
                i += 1;
            }
            proof {
                lemma_members_view_ext(out@, w);
            }
            Json::Object(out)
        },
        _ => schema_val,
    }
}

// ---------------------------------------------------------------------------
// Completing the mutation mappers
// ---------------------------------------------------------------------------

/// The part of a mapper target after its last `.` (the field of
/// `Schema.field`), or the whole target.
pub open spec fn last_segment(v: Seq<char>) -> Seq<char> {
    match last_index(v, '.', v.len() as int) {
        Some(i) => v.subrange(i + 1, v.len() as int),
        None => v,
    }
}

/// Some mapper points at the field `f`.
pub open spec fn targets_field(ps: Seq<(Seq<char>, Seq<char>)>, f: Seq<char>) -> bool {
    exists|i: int| 0 <= i < ps.len() && last_segment(ps[i].1) == f
}

/// Some mapper maps the key `k`.
pub open spec fn has_key(ps: Seq<(Seq<char>, Seq<char>)>, k: Seq<char>) -> bool {
    exists|i: int| 0 <= i < ps.len() && ps[i].0 == k
}

/// The identity target of the field `f` in the schema `name`.
pub open spec fn target_of(name: Seq<char>, f: Seq<char>) -> Seq<char> {
    if name.len() == 0 {
        f
    } else {
        name + "."@ + f
    }
}

/// The mappers `orig` with an identity mapper appended for each string of
/// `fields` that no original mapper points at and no mapper yet maps.
pub open spec fn backfilled(
    orig: Seq<(Seq<char>, Seq<char>)>,
    name: Seq<char>,
    fields: Seq<JsonV>,
) -> Seq<(Seq<char>, Seq<char>)>
    decreases fields.len(),
{
    if fields.len() == 0 {
        orig
    } else {
        let m = backfilled(orig, name, fields.drop_last());
        match fields.last() {
            JsonV::Str(f) => if !targets_field(orig, f) && !has_key(m, f) {
                m.push((f, target_of(name, f)))
            } else {
                m
            },
            _ => m,
        }
    }
}

/// The plain form of an optional value.
pub open spec fn opt_view(o: Option<Json>) -> Option<JsonV> {
    match o {
        Some(j) => Some(json_view(j)),
        None => None,
    }
}

/// The mappers completed from the schema's `fields` list; unchanged without
/// a schema or a list.
pub open spec fn backfill_outcome(orig: Seq<(Seq<char>, Seq<char>)>, new_schemas: Option<JsonV>) -> Seq<
    (Seq<char>, Seq<char>),
> {
    match new_schemas {
        Some(schema) => match get(schema, "fields"@) {
            Some(JsonV::Array(fields)) => backfilled(
                orig,
                match str_of(get(schema, "name"@)) {
                    Some(n) => n,
                    None => ""@,
                },
                fields,
            ),
            _ => orig,
        },
        None => orig,
    }
}

pub(crate) fn last_segment_exec(v: &str) -> (r: String)
    ensures
        r@ == last_segment(v@),
{
    let cs = chars_of(v);
    match last_index_exec(&cs, '.') {
        Some(i) => {
            proof {
                lemma_last_index_in_range(cs@, '.', cs@.len() as int);
            }
            string_of(&subvec(&cs, i + 1, cs.len()))
        },
        None => owned(v),
    }
}

fn has_key_exec(ps: &Vec<(String, String)>, k: &str) -> (b: bool)
    ensures
        b == has_key(pairs(ps@), k@),
{
    let mut i: usize = 0;
    while i < ps.len()
        invariant
            i <= ps@.len(),
            forall|j: int| 0 <= j < i ==> ps@[j].0@ != k@,
        decreases ps.len() - i,
    {
        if str_eq(ps[i].0.as_str(), k) {
            assert(pairs(ps@)[i as int].0 == k@);
            return true;
        }
        i += 1;
    }
    proof {
        if has_key(pairs(ps@), k@) {
            let j = choose|j: int| 0 <= j < pairs(ps@).len() && pairs(ps@)[j].0 == k@;
            assert(pairs(ps@)[j].0 == ps@[j].0@);
        }
    }
    false
}

fn contains_text(v: &Vec<String>, s: &str) -> (b: bool)
    ensures
        b <==> exists|i: int| 0 <= i < v@.len() && v@[i]@ == s@,
{
    let mut i: usize = 0;
    while i < v.len()
        invariant
            i <= v@.len(),
            forall|j: int| 0 <= j < i ==> v@[j]@ != s@,
        decreases v.len() - i,
    {
        if str_eq(v[i].as_str(), s) {
            return true;
        }
        i += 1;
    }
    false
}

/// For each field declared in `new_schemas.fields` that no mapper points at
/// or maps, add an identity mapper from the field to `Schema.field` (or to
/// the field itself when the schema has no name).
pub fn backfill_missing_mappers(mappers: Vec<(String, String)>, new_schemas: &Option<Json>) -> (r: Vec<
    (String, String),
>)
    ensures
        pairs(r@) == backfill_outcome(pairs(mappers@), opt_view(*new_schemas)),
{
    let schema = match new_schemas {
        Some(v) => v,
        None => {
            return mappers;
        },
    };
    let ms = match schema {
        Json::Object(ms) => ms,
        _ => {
            return mappers;
        },
    };
    proof {
        lemma_members_view(ms@);
    }
    let fields = match member_index(ms, "fields") {
        Some(i) => match &ms[i].1 {
            Json::Array(f) => f,
            _ => {
                return mappers;
            },
        },
        None => {
            return mappers;
        },
    };
    let name = match member_index(ms, "name") {
        Some(j) => match &ms[j].1 {
            Json::Str(n) => owned(n.as_str()),
            _ => String::new(),
        },
        None => String::new(),
    };
    proof {
        reveal_strlit("");
        assert(json_view(*schema) == JsonV::Object(members_view(ms@)));
        assert(name@ == match str_of(get(json_view(*schema), "name"@)) {
            Some(n) => n,
            None => ""@,
        });
    }
    let ghost orig = pairs(mappers@);
    let mut segs: Vec<String> = Vec::new();
    let mut i: usize = 0;
    while i < mappers.len()
        invariant
            i <= mappers@.len(),
            orig == pairs(mappers@),
            segs@.len() == i,
            forall|j: int| 0 <= j < i ==> (#[trigger] segs@[j])@ == last_segment(mappers@[j].1@),
        decreases mappers.len() - i,
    {
        segs.push(last_segment_exec(mappers[i].1.as_str()));
        i += 1;
    }
    let ghost fv = items_view(fields@);
    proof {
        lemma_items_view(fields@);
        assert(fv.take(0) =~= Seq::<JsonV>::empty());
    }
    let mut out = mappers;
    let mut k: usize = 0;
    while k < fields.len()
        invariant
            k <= fields@.len(),
            fv == items_view(fields@),
            fv.len() == fields@.len(),
            forall|j: int| 0 <= j < fields@.len() ==> #[trigger] fv[j] == json_view(fields@[j]),
            segs@.len() == orig.len(),
            forall|j: int| 0 <= j < orig.len() ==> (#[trigger] segs@[j])@ == last_segment(orig[j].1),
            pairs(out@) == backfilled(orig, name@, fv.take(k as int)),
        decreases fields.len() - k,
    {
        proof {
            assert(fv.take(k + 1).drop_last() =~= fv.take(k as int));
            assert(fv.take(k + 1).last() == fv[k as int]);
        }
        match &fields[k] {
            Json::Str(f) => {
                let targeted = contains_text(&segs, f.as_str());
                proof {
                    if targeted {
                        let j = choose|j: int| 0 <= j < segs@.len() && segs@[j]@ == f@;
                        assert(last_segment(orig[j].1) == f@);
                    }
                    if targets_field(orig, f@) {
                        let j = choose|j: int| 0 <= j < orig.len() && last_segment(orig[j].1) == f@;
                        assert(segs@[j]@ == f@);
                    }
                }
                if !targeted && !has_key_exec(&out, f.as_str()) {
                    let target = if name.as_str().is_empty() {
                        owned(f.as_str())
                    } else {
                        let mut t = owned(name.as_str());
                        push_str(&mut t, ".");
                        push_str(&mut t, f.as_str());
                        t
                    };
                    let key = owned(f.as_str());
                    let ghost before = pairs(out@);
                    out.push((key, target));
                    proof {
                        assert(pairs(out@) =~= before.push((f@, target_of(name@, f@))));
                    }
                }
            },
            _ => {},
        }
        k += 1;
    }
    proof {
        assert(fv.take(fields@.len() as int) =~= fv);
    }
    out
}

// ---------------------------------------------------------------------------
// Checking the proposal
// ---------------------------------------------------------------------------

/// The message for a schema without a descriptive name.
pub open spec fn missing_name_text() -> Seq<char> {
    "Schema must have a non-empty 'descriptive_name'. ALWAYS include \"descriptive_name\": a clear, human-readable description."@
}

/// The message for a schema whose descriptive name is too generic.
pub open spec fn generic_name_text() -> Seq<char> {
    "Schema descriptive_name is too generic (e.g., 'Document Collection'). The name must describe the CONTENT TOPIC \u{2014} read the actual data and name it specifically (e.g., 'Family Vacation Photos', 'Technical Architecture Notes')."@
}

/// The descriptive name of a schema, trimmed; empty when it has none.
pub open spec fn descriptive_name(schema: JsonV) -> Seq<char> {
    match str_of(get(schema, "descriptive_name"@)) {
        Some(s) => trim_seq(s),
        None => ""@,
    }
}

/// What the descriptive-name check says of a schema, given whether its
/// name is too generic: nothing when it passes.
pub open spec fn descriptive_name_error(schema: JsonV, name_is_generic: bool) -> Option<Seq<char>> {
    if !(schema is Object) {
        Some("Schema must be a JSON object"@)
    } else if descriptive_name(schema).len() == 0 {
        Some(missing_name_text())
    } else if name_is_generic {
        Some(generic_name_text())
    } else {
        None
    }
}

/// The descriptive name of a schema, trimmed (empty when it has none).
pub fn schema_descriptive_name(schema: &Json) -> (r: String)
    ensures
        r@ == descriptive_name(schema@),
{
    proof {
        reveal_strlit("");
    }
    match schema {
        Json::Object(ms) => {
            proof {
                lemma_members_view(ms@);
            }
            match member_index(ms, "descriptive_name") {
                Some(i) => match &ms[i].1 {
                    Json::Str(s) => trim_string(s.as_str()),
                    _ => String::new(),
                },
                None => String::new(),
            }
        },
        _ => String::new(),
    }
}

/// Check that a schema has a non-empty descriptive name that is not too
/// generic; `name_is_generic` is the verdict on its name.
pub fn validate_schema_has_descriptive_name(schema_val: &Json, name_is_generic: bool) -> (r: Result<
    (),
    IngestionError,
>)
    ensures
        match descriptive_name_error(schema_val@, name_is_generic) {
            None => r is Ok,
            Some(m) => r matches Err(IngestionError::AIResponseValidationError(x)) && x@ == m,
        },
{
    if !matches!(schema_val, Json::Object(_)) {
        return Err(IngestionError::AIResponseValidationError(owned("Schema must be a JSON object")));
    }
    let name = schema_descriptive_name(schema_val);
    if name.as_str().is_empty() {
        return Err(
            IngestionError::AIResponseValidationError(
                owned(
                    "Schema must have a non-empty 'descriptive_name'. ALWAYS include \"descriptive_name\": a clear, human-readable description.",
                ),
            ),
        );
    }
    if name_is_generic {
        return Err(
            IngestionError::AIResponseValidationError(
                owned(
                    "Schema descriptive_name is too generic (e.g., 'Document Collection'). The name must describe the CONTENT TOPIC \u{2014} read the actual data and name it specifically (e.g., 'Family Vacation Photos', 'Technical Architecture Notes').",
                ),
            ),
        );
    }
    Ok(())
}

/// Check a schema's field classifications: only an object can carry them;
/// missing or empty ones get defaults later.
pub fn validate_schema_has_classifications(schema_val: &Json) -> (r: Result<(), IngestionError>)
    ensures
        schema_val@ is Object ==> r is Ok,
        !(schema_val@ is Object) ==> (r matches Err(IngestionError::AIResponseValidationError(x))
            && x@ == "Schema must be a JSON object"@),
{
    match schema_val {
        Json::Object(_) => Ok(()),
        _ => Err(IngestionError::AIResponseValidationError(owned("Schema must be a JSON object"))),
    }
}

/// The parsed proposal: the schema, if any, and the mutation mappers from
/// data fields to schema fields.
#[derive(Debug)]
pub struct AISchemaResponse {
    pub new_schemas: Option<Json>,
    pub mutation_mappers: Vec<(String, String)>,
}

/// The members whose values are strings, with those strings.
pub open spec fn string_members(ms: Seq<(Seq<char>, JsonV)>) -> Seq<(Seq<char>, Seq<char>)>
    decreases ms.len(),
{
    if ms.len() == 0 {
        seq![]
    } else {
        let p = string_members(ms.drop_last());
        match ms.last().1 {
            JsonV::Str(s) => p.push((ms.last().0, s)),
            _ => p,
        }
    }
}

/// The mutation mappers of a reply: the string members of an object, none
/// for null or absent; `None` for any other value.
pub open spec fn mappers_of(m: Option<JsonV>) -> Option<Seq<(Seq<char>, Seq<char>)>> {
    match m {
        Some(JsonV::Object(ms)) => Some(string_members(ms)),
        Some(JsonV::Null) => Some(seq![]),
        None => Some(seq![]),
        _ => None,
    }
}

/// The schema of a reply, null read as absent, and a one-element array
/// read as its element; an error for an array of more than one.
pub open spec fn unwrapped_schema(ms: Seq<(Seq<char>, JsonV)>) -> Result<Option<JsonV>, Seq<char>> {
    match first_member(ms, "new_schemas"@) {
        Some(JsonV::Null) => Ok(None),
        Some(JsonV::Array(arr)) => if arr.len() == 1 {
            Ok(Some(arr[0]))
        } else if arr.len() > 1 {
            Err("new_schemas array contains "@ + decimal(arr.len()) + " schemas, expected 1"@)
        } else {
            Ok(Some(JsonV::Array(arr)))
        },
        other => Ok(other),
    }
}

/// What the checks of the schema say: an object must pass the descriptive
/// name check; an array (empty here) passes; anything else is refused.
pub open spec fn schema_error(ns: Option<JsonV>, name_is_generic: bool) -> Option<Seq<char>> {
    match ns {
        Some(JsonV::Array(_)) => None,
        Some(JsonV::Object(sm)) => descriptive_name_error(JsonV::Object(sm), name_is_generic),
        Some(other) => Some("new_schemas must be an object or array, got: "@ + scalar_text(other)),
        None => None,
    }
}

/// What a parsed reply gives, given the verdict on its schema's name: the
/// cleaned-up schema and the completed mappers, or the message of the
/// first check it fails.
pub open spec fn outcome(p: JsonV, name_is_generic: bool) -> Result<
    (Option<JsonV>, Seq<(Seq<char>, Seq<char>)>),
    Seq<char>,
> {
    match p {
        JsonV::Object(ms) => match unwrapped_schema(ms) {
            Err(m) => Err(m),
            Ok(ns) => match schema_error(ns, name_is_generic) {
                Some(m) => Err(m),
                None => match mappers_of(first_member(ms, "mutation_mappers"@)) {
                    None => Err("mutation_mappers must be an object with string values"@),
                    Some(mm) => Ok(
                        (
                            match ns {
                                Some(s) => Some(sanitized(s)),
                                None => None,
                            },
                            backfill_outcome(mm, ns),
                        ),
                    ),
                },
            },
        },
        _ => Err("Response must be a JSON object"@),
    }
}

/// The descriptive name whose genericness decides the outcome, when the
/// checks get that far.
pub open spec fn name_to_check(p: JsonV) -> Option<Seq<char>> {
    match p {
        JsonV::Object(ms) => match unwrapped_schema(ms) {
            Ok(Some(JsonV::Object(sm))) => if descriptive_name(JsonV::Object(sm)).len() > 0 {
                Some(descriptive_name(JsonV::Object(sm)))
            } else {
                None
            },
            _ => None,
        },
        _ => None,
    }
}

fn copy_opt(o: &Option<Json>) -> (r: Option<Json>)
    ensures
        opt_view(r) == opt_view(*o),
{
    match o {
        Some(j) => Some(copy_json(j)),
        None => None,
    }
}

fn unwrap_schema(ms: &Vec<(String, Json)>) -> (r: Result<Option<Json>, IngestionError>)
    ensures
        match unwrapped_schema(members_view(ms@)) {
            Ok(ns) => r matches Ok(x) && opt_view(x) == ns,
            Err(m) => r matches Err(IngestionError::AIResponseValidationError(x)) && x@ == m,
        },
{
    match member_index(ms, "new_schemas") {
        None => Ok(None),
        Some(i) => match &ms[i].1 {
            Json::Null => Ok(None),
            Json::Array(arr) => {
                proof {
                    lemma_items_view(arr@);
                }
                if arr.len() == 1 {
                    Ok(Some(copy_json(&arr[0])))
                } else if arr.len() > 1 {
                    let mut m = owned("new_schemas array contains ");
                    let n = decimal_string(arr.len() as u64);
                    push_str(&mut m, n.as_str());
                    push_str(&mut m, " schemas, expected 1");
                    Err(IngestionError::AIResponseValidationError(m))
                } else {
                    Ok(Some(copy_json(&ms[i].1)))
                }
            },
            other => Ok(Some(copy_json(other))),
        },
    }
}

fn mappers_from(ms: &Vec<(String, Json)>) -> (r: Option<Vec<(String, String)>>)
    ensures
        match mappers_of(first_member(members_view(ms@), "mutation_mappers"@)) {
            Some(mm) => r matches Some(v) && pairs(v@) == mm,
            None => r is None,
        },
{
    match member_index(ms, "mutation_mappers") {
        None => Some(Vec::new()),
        Some(i) => match &ms[i].1 {
            Json::Null => Some(Vec::new()),
            Json::Object(inner) => {
                let ghost mv = members_view(inner@);
                proof {
                    lemma_members_view(inner@);
                }
                let mut out: Vec<(String, String)> = Vec::new();
                let mut k: usize = 0;
                while k < inner.len()
                    invariant
                        k <= inner@.len(),
                        mv == members_view(inner@),
                        mv.len() == inner@.len(),
                        forall|j: int|
                            0 <= j < inner@.len() ==> #[trigger] mv[j] == (
                                inner@[j].0@,
                                json_view(inner@[j].1),
                            ),
                        pairs(out@) == string_members(mv.take(k as int)),
                    decreases inner.len() - k,
                {
                    proof {
                        assert(mv.take(k + 1).drop_last() =~= mv.take(k as int));
                        assert(mv.take(k + 1).last() == mv[k as int]);
                    }
                    match &inner[k].1 {
                        Json::Str(v) => {
                            let a = owned(inner[k].0.as_str());
                            let b = owned(v.as_str());
                            let ghost before = pairs(out@);
                            out.push((a, b));
                            proof {
                                assert(pairs(out@) =~= before.push((a@, b@)));
                            }
                        },
                        _ => {},
                    }
                    k += 1;
                }
                proof {
                    assert(mv.take(inner@.len() as int) =~= mv);
                }
                Some(out)
            },
            _ => None,
        },
    }
}

/// The descriptive name the checks of a parsed reply ask about (to learn
/// whether it is too generic), when they get that far.
pub fn descriptive_name_to_check(parsed: &Json) -> (r: Option<String>)
    ensures
        match name_to_check(parsed@) {
            Some(n) => r matches Some(s) && s@ == n,
            None => r is None,
        },
{
    match parsed {
        Json::Object(ms) => {
            proof {
                lemma_members_view(ms@);
            }
            match unwrap_schema(ms) {
                Ok(Some(schema)) => {
                    if matches!(schema, Json::Object(_)) {
                        let name = schema_descriptive_name(&schema);
                        if name.as_str().is_empty() {
                            None
                        } else {
                            Some(name)
                        }
                    } else {
                        None
                    }
                },
                _ => None,
            }
        },
        _ => None,
    }
}

/// Check and convert a parsed reply into the proposed schema and mutation
/// mappers. `name_is_generic` is the verdict on the name that
/// [`descriptive_name_to_check`] gives. The reply must be an object; a
/// null schema is absent, a one-element array of schemas is unwrapped and
/// a longer one refused; the schema must pass the descriptive-name check;
/// the mappers keep the string members of `mutation_mappers`, are
/// completed with identity mappers for the schema's unmapped fields, and
/// the schema is cleaned up.
pub fn validate_and_convert_response(parsed: Json, name_is_generic: bool) -> (r: Result<
    AISchemaResponse,
    IngestionError,
>)
    ensures
        match outcome(parsed@, name_is_generic) {
            Ok((ns, mm)) => r matches Ok(resp) && opt_view(resp.new_schemas) == ns && pairs(
                resp.mutation_mappers@,
            ) == mm,
            Err(m) => r matches Err(IngestionError::AIResponseValidationError(x)) && x@ == m,
        },
{
    let ms = match &parsed {
        Json::Object(ms) => ms,
        _ => {
            return Err(
                IngestionError::AIResponseValidationError(owned("Response must be a JSON object")),
            );
        },
    };
    proof {
        lemma_members_view(ms@);
        reveal_strlit("null");
    }
    let ns = match unwrap_schema(ms) {
        Ok(ns) => ns,
        Err(e) => {
            return Err(e);
        },
    };
    if let Some(schema) = &ns {
        match schema {
            Json::Array(_) => {},
            Json::Object(_) => {
                match validate_schema_has_descriptive_name(schema, name_is_generic) {
                    Ok(()) => {},
                    Err(e) => {
                        return Err(e);
                    },
                }
            },
            other => {
                let mut m = owned("new_schemas must be an object or array, got: ");
                let t = scalar_to_text(other);
                push_str(&mut m, t.as_str());
                return Err(IngestionError::AIResponseValidationError(m));
            },
        }
    }
    let mm = match mappers_from(ms) {
        Some(mm) => mm,
        None => {
            return Err(
                IngestionError::AIResponseValidationError(
                    owned("mutation_mappers must be an object with string values"),
                ),
            );
        },
    };
    let mappers = backfill_missing_mappers(mm, &ns);
    let new_schemas = match ns {
        Some(s) => Some(sanitize_string_map_fields(s)),
        None => None,
    };
    Ok(AISchemaResponse { new_schemas, mutation_mappers: mappers })
}

} // verus!
