//! JSON values as the library reads them: each number by its text, and
//! each object as its members in the order its map walks them.

use crate::digest::{hex_digit, hex_digit_exec};
use crate::text::{chars_of, owned, push_char, push_str};
use vstd::prelude::*;

verus! {

/// A JSON value.
#[derive(Debug, PartialEq)]
pub enum Json {
    Null,
    Bool(bool),
    /// A number, by its JSON text.
    Number(String),
    Str(String),
    Array(Vec<Json>),
    /// The members of an object, in the order its map walks them.
    Object(Vec<(String, Json)>),
}

/// A JSON value as plain text and sequences.
pub enum JsonV {
    Null,
    Bool(bool),
    Number(Seq<char>),
    Str(Seq<char>),
    Array(Seq<JsonV>),
    Object(Seq<(Seq<char>, JsonV)>),
}

/// The plain form of a JSON value.
pub open spec fn json_view(j: Json) -> JsonV
    decreases j,
{
    match j {
        Json::Null => JsonV::Null,
        Json::Bool(b) => JsonV::Bool(b),
        Json::Number(t) => JsonV::Number(t@),
        Json::Str(s) => JsonV::Str(s@),
        Json::Array(v) => JsonV::Array(items_view(v@)),
        Json::Object(m) => JsonV::Object(members_view(m@)),
    }
}

/// The plain form of each item.
pub open spec fn items_view(s: Seq<Json>) -> Seq<JsonV>
    decreases s,
{
    if s.len() == 0 {
        seq![]
    } else {
        items_view(s.subrange(0, s.len() - 1)).push(json_view(s[s.len() - 1]))
    }
}

/// The plain form of each member.
pub open spec fn members_view(s: Seq<(String, Json)>) -> Seq<(Seq<char>, JsonV)>
    decreases s,
{
    if s.len() == 0 {
        seq![]
    } else {
        members_view(s.subrange(0, s.len() - 1)).push(
            (s[s.len() - 1].0@, json_view(s[s.len() - 1].1)),
        )
    }
}

impl View for Json {
    type V = JsonV;

    open spec fn view(&self) -> JsonV {
        json_view(*self)
    }
}

/// Item `i` of the plain form is the plain form of item `i`.
pub proof fn lemma_items_view(s: Seq<Json>)
    ensures
        items_view(s).len() == s.len(),
        forall|i: int| 0 <= i < s.len() ==> #[trigger] items_view(s)[i] == json_view(s[i]),
    decreases s.len(),
{
    if s.len() > 0 {
        let p = s.subrange(0, s.len() - 1);
        lemma_items_view(p);
        assert forall|i: int| 0 <= i < s.len() implies #[trigger] items_view(s)[i] == json_view(
            s[i],
        ) by {
            if i < s.len() - 1 {
                assert(p[i] == s[i]);
            }
        }
    }
}

/// Member `i` of the plain form is the plain form of member `i`.
pub proof fn lemma_members_view(s: Seq<(String, Json)>)
    ensures
        members_view(s).len() == s.len(),
        forall|i: int|
            0 <= i < s.len() ==> #[trigger] members_view(s)[i] == (s[i].0@, json_view(s[i].1)),
    decreases s.len(),
{
    if s.len() > 0 {
        let p = s.subrange(0, s.len() - 1);
        lemma_members_view(p);
        assert forall|i: int| 0 <= i < s.len() implies #[trigger] members_view(s)[i] == (
            s[i].0@,
            json_view(s[i].1),
        ) by {
            if i < s.len() - 1 {
                assert(p[i] == s[i]);
            }
        }
    }
}

/// Items whose plain forms are given, one by one, have the plain form of
/// the whole.
pub proof fn lemma_items_view_ext(s: Seq<Json>, w: Seq<JsonV>)
    requires
        s.len() == w.len(),
        forall|i: int| 0 <= i < s.len() ==> json_view(#[trigger] s[i]) == w[i],
    ensures
        items_view(s) == w,
{
    lemma_items_view(s);
    assert(items_view(s) =~= w);
}

/// Members whose plain forms are given, one by one, have the plain form of
/// the whole.
pub proof fn lemma_members_view_ext(s: Seq<(String, Json)>, w: Seq<(Seq<char>, JsonV)>)
    requires
        s.len() == w.len(),
        forall|i: int| 0 <= i < s.len() ==> (#[trigger] s[i]).0@ == w[i].0 && json_view(s[i].1) == w[i].1,
    ensures
        members_view(s) == w,
{
    lemma_members_view(s);
    assert forall|i: int| 0 <= i < s.len() implies members_view(s)[i] == w[i] by {
        assert(members_view(s)[i] == (s[i].0@, json_view(s[i].1)));
    }
    assert(members_view(s) =~= w);
}

/// A deep copy of a JSON value.
pub fn copy_json(v: &Json) -> (r: Json)
    ensures
        r@ == v@,
    decreases v,
{
    match v {
        Json::Null => Json::Null,
        Json::Bool(b) => Json::Bool(*b),
        Json::Number(t) => Json::Number(owned(t.as_str())),
        Json::Str(s) => Json::Str(owned(s.as_str())),
        Json::Array(items) => {
            let mut out: Vec<Json> = Vec::new();
            let mut i: usize = 0;
            while i < items.len()
                invariant
                    *v == Json::Array(*items),
                    i <= items@.len(),
                    out@.len() == i,
                    forall|j: int| 0 <= j < i ==> json_view(#[trigger] out@[j]) == json_view(items@[j]),
                decreases items.len() - i,
            {
                proof {
                    assert(decreases_to!(*v => (*v)->Array_0));
                    assert(decreases_to!(*items => items@));
                    assert(decreases_to!(items@ => items@[i as int]));
                }
                let c = copy_json(&items[i]);
                out.push(c);
                i += 1;
            }
            proof {
                lemma_items_view(items@);
                lemma_items_view_ext(out@, items_view(items@));
            }
            Json::Array(out)
        },
        Json::Object(members) => {
            let mut out: Vec<(String, Json)> = Vec::new();
            let mut i: usize = 0;
            while i < members.len()
                invariant
                    *v == Json::Object(*members),
                    i <= members@.len(),
                    out@.len() == i,
                    forall|j: int|
                        0 <= j < i ==> (#[trigger] out@[j]).0@ == members@[j].0@ && json_view(out@[j].1)
                            == json_view(members@[j].1),
                decreases members.len() - i,
            {
                proof {
                    assert(decreases_to!(*v => (*v)->Object_0));
                    assert(decreases_to!(*members => members@));
                    assert(decreases_to!(members@ => members@[i as int]));
                    assert(decreases_to!(members@[i as int] => members@[i as int].1));
                }
                let c = copy_json(&members[i].1);
                out.push((owned(members[i].0.as_str()), c));
                i += 1;
            }
            proof {
                lemma_members_view(members@);
                lemma_members_view_ext(out@, members_view(members@));
            }
            Json::Object(out)
        },
    }
}

// ---------------------------------------------------------------------------
// Compact JSON text
// ---------------------------------------------------------------------------

/// The JSON escape of one character, as `serde_json` writes it: `"` and
/// `\` after a backslash, the short escapes `\b \t \n \f \r`, other
/// control characters below U+0020 as `\u00` and two lowercase hex digits,
/// and every other character as itself.
pub open spec fn escaped_char(c: char) -> Seq<char> {
    if c == '"' {
        seq!['\\', '"']
    } else if c == '\\' {
        seq!['\\', '\\']
    } else if c == '\u{8}' {
        seq!['\\', 'b']
    } else if c == '\t' {
        seq!['\\', 't']
    } else if c == '\n' {
        seq!['\\', 'n']
    } else if c == '\u{c}' {
        seq!['\\', 'f']
    } else if c == '\r' {
        seq!['\\', 'r']
    } else if (c as u32) < 0x20 {
        seq!['\\', 'u', '0', '0', hex_digit((c as u32) as int / 16), hex_digit((c as u32) as int % 16)]
    } else {
        seq![c]
    }
}

/// Each character of `s` escaped.
pub open spec fn escaped(s: Seq<char>) -> Seq<char>
    decreases s.len(),
{
    if s.len() == 0 {
        seq![]
    } else {
        escaped(s.drop_last()) + escaped_char(s.last())
    }
}

/// The JSON text of a string: its characters escaped, between quotes.
pub open spec fn json_string_literal_of(s: Seq<char>) -> Seq<char> {
    seq!['"'] + escaped(s) + seq!['"']
}

fn push_escaped(out: &mut String, c: char)
    ensures
        final(out)@ == old(out)@ + escaped_char(c),
{
    let ghost start = out@;
    if c == '"' {
        push_char(out, '\\');
        push_char(out, '"');
    } else if c == '\\' {
        push_char(out, '\\');
        push_char(out, '\\');
    } else if c == '\u{8}' {
        push_char(out, '\\');
        push_char(out, 'b');
    } else if c == '\t' {
        push_char(out, '\\');
        push_char(out, 't');
    } else if c == '\n' {
        push_char(out, '\\');
        push_char(out, 'n');
    } else if c == '\u{c}' {
        push_char(out, '\\');
        push_char(out, 'f');
    } else if c == '\r' {
        push_char(out, '\\');
        push_char(out, 'r');
    } else if (c as u32) < 0x20 {
        let b: u8 = (c as u32) as u8;
        push_char(out, '\\');
        push_char(out, 'u');
        push_char(out, '0');
        push_char(out, '0');
        push_char(out, hex_digit_exec(b / 16));
        push_char(out, hex_digit_exec(b % 16));
    } else {
        push_char(out, c);
    }
    proof {
        assert(out@ =~= start + escaped_char(c));
    }
}

/// The JSON text of a string, as `serde_json` prints a string value.
pub fn json_string_literal(s: &str) -> (r: String)
    ensures
        r@ == json_string_literal_of(s@),
{
    let cs = chars_of(s);
    let mut out = String::new();
    push_char(&mut out, '"');
    let mut i: usize = 0;
    while i < cs.len()
        invariant
            i <= cs@.len(),
            cs@ == s@,
            out@ == seq!['"'] + escaped(cs@.take(i as int)),
        decreases cs.len() - i,
    {
        proof {
            assert(cs@.take(i + 1).drop_last() =~= cs@.take(i as int));
        }
        push_escaped(&mut out, cs[i]);
        i += 1;
    }
    proof {
        assert(cs@.take(cs@.len() as int) =~= cs@);
    }
    push_char(&mut out, '"');
    out
}

/// The JSON text of a value that is neither an array nor an object.
pub open spec fn scalar_text(j: JsonV) -> Seq<char> {
    match j {
        JsonV::Str(s) => json_string_literal_of(s),
        JsonV::Number(t) => t,
        JsonV::Bool(b) => if b {
            "true"@
        } else {
            "false"@
        },
        _ => "null"@,
    }
}

/// The compact JSON text of a value: no whitespace, items and members in
/// order, separated by commas.
pub open spec fn json_text(j: JsonV) -> Seq<char>
    decreases j,
{
    match j {
        JsonV::Array(items) => "["@ + items_text(items) + "]"@,
        JsonV::Object(ms) => "{"@ + members_text(ms) + "}"@,
        _ => scalar_text(j),
    }
}

/// The texts of the items, separated by commas.
pub open spec fn items_text(s: Seq<JsonV>) -> Seq<char>
    decreases s,
{
    if s.len() == 0 {
        seq![]
    } else {
        let p = s.subrange(0, s.len() - 1);
        items_text(p) + (if p.len() == 0 {
            seq![]
        } else {
            ","@
        }) + json_text(s[s.len() - 1])
    }
}

/// The members as `"key":value`, separated by commas.
pub open spec fn members_text(s: Seq<(Seq<char>, JsonV)>) -> Seq<char>
    decreases s,
{
    if s.len() == 0 {
        seq![]
    } else {
        let p = s.subrange(0, s.len() - 1);
        members_text(p) + (if p.len() == 0 {
            seq![]
        } else {
            ","@
        }) + json_string_literal_of(s[s.len() - 1].0) + ":"@ + json_text(s[s.len() - 1].1)
    }
}

/// The JSON text of a value that is neither an array nor an object.
pub fn scalar_to_text(v: &Json) -> (r: String)
    requires
        !(v is Array) && !(v is Object),
    ensures
        r@ == scalar_text(v@),
{
    match v {
        Json::Str(t) => json_string_literal(t.as_str()),
        Json::Number(n) => owned(n.as_str()),
        Json::Bool(b) => if *b {
            owned("true")
        } else {
            owned("false")
        },
        _ => owned("null"),
    }
}

/// The compact JSON text of a value: members in the order they are held,
/// numbers by their text. For a value read from a `serde_json::Value`
/// (members in its map's order, numbers in its text) this is what
/// `serde_json` prints.
pub fn to_json_text(v: &Json) -> (r: String)
    ensures
        r@ == json_text(v@),
    decreases v,
{
    match v {
        Json::Array(items) => {
            let ghost iv = items_view(items@);
            proof {
                lemma_items_view(items@);
                reveal_strlit("[");
                assert(iv.take(0) =~= Seq::<JsonV>::empty());
            }
            let mut out = owned("[");
            let mut i: usize = 0;
            while i < items.len()
                invariant
                    *v == Json::Array(*items),
                    i <= items@.len(),
                    iv == items_view(items@),
                    iv.len() == items@.len(),
                    forall|k: int| 0 <= k < items@.len() ==> #[trigger] iv[k] == json_view(items@[k]),
                    out@ == "["@ + items_text(iv.take(i as int)),
                decreases items.len() - i,
            {
                proof {
                    assert(decreases_to!(*v => (*v)->Array_0));
                    assert(decreases_to!(*items => items@));
                    assert(decreases_to!(items@ => items@[i as int]));
                    assert(iv.take(i + 1).subrange(0, i as int) =~= iv.take(i as int));
                    reveal_strlit(",");
                }
                if i > 0 {
                    push_str(&mut out, ",");
                }
                let t = to_json_text(&items[i]);
                push_str(&mut out, t.as_str());
                proof {
                    assert(out@ =~= "["@ + items_text(iv.take(i + 1)));
                }
                i += 1;
            }
            proof {
                assert(iv.take(items@.len() as int) =~= iv);
            }
            push_str(&mut out, "]");
            out
        },
        Json::Object(members) => {
            let ghost mv = members_view(members@);
            proof {
                lemma_members_view(members@);
                reveal_strlit("{");
                assert(mv.take(0) =~= Seq::<(Seq<char>, JsonV)>::empty());
            }
            let mut out = owned("{");
            let mut i: usize = 0;
            while i < members.len()
                invariant
                    *v == Json::Object(*members),
                    i <= members@.len(),
                    mv == members_view(members@),
                    mv.len() == members@.len(),
                    forall|k: int|
                        0 <= k < members@.len() ==> #[trigger] mv[k] == (members@[k].0@, json_view(members@[k].1)),
                    out@ == "{"@ + members_text(mv.take(i as int)),
                decreases members.len() - i,
            {
                proof {
                    assert(decreases_to!(*v => (*v)->Object_0));
                    assert(decreases_to!(*members => members@));
                    assert(decreases_to!(members@ => members@[i as int]));
                    assert(decreases_to!(members@[i as int] => members@[i as int].1));
                    assert(mv.take(i + 1).subrange(0, i as int) =~= mv.take(i as int));
                    reveal_strlit(",");
                    reveal_strlit(":");
                }
                if i > 0 {
                    push_str(&mut out, ",");
                }
                let k = json_string_literal(members[i].0.as_str());
                push_str(&mut out, k.as_str());
                push_str(&mut out, ":");
                let t = to_json_text(&members[i].1);
                push_str(&mut out, t.as_str());
                proof {
                    assert(out@ =~= "{"@ + members_text(mv.take(i + 1)));
                }
                i += 1;
            }
            proof {
                assert(mv.take(members@.len() as int) =~= mv);
            }
            push_str(&mut out, "}");
            out
        },
        _ => scalar_to_text(v),
    }
}

} // verus!
