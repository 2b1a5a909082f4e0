//! The text of a record that is scanned for identity signals (emails,
//! phone numbers): its string leaves, one per line.

use crate::json::{json_view, lemma_items_view, lemma_members_view, items_view, members_view, Json, JsonV};
use crate::text::push_str;
use vstd::prelude::*;

verus! {

/// `s` appended to the text collected so far, on a line of its own unless
/// nothing has been collected yet.
pub open spec fn append_leaf(acc: Seq<char>, s: Seq<char>) -> Seq<char> {
    if acc.len() == 0 {
        s
    } else {
        acc + "\n"@ + s
    }
}

/// The text collected so far with the string leaves of `j` appended, in
/// order, through arrays and object members; other scalars and nulls add
/// nothing.
pub open spec fn with_strings(acc: Seq<char>, j: JsonV) -> Seq<char>
    decreases j,
{
    match j {
        JsonV::Str(s) => append_leaf(acc, s),
        JsonV::Array(items) => with_item_strings(acc, items),
        JsonV::Object(ms) => with_member_strings(acc, ms),
        _ => acc,
    }
}

/// The strings of each item appended in turn.
pub open spec fn with_item_strings(acc: Seq<char>, items: Seq<JsonV>) -> Seq<char>
    decreases items,
{
    if items.len() == 0 {
        acc
    } else {
        with_strings(
            with_item_strings(acc, items.subrange(0, items.len() - 1)),
            items[items.len() - 1],
        )
    }
}

/// The strings of each member's value appended in turn.
pub open spec fn with_member_strings(acc: Seq<char>, ms: Seq<(Seq<char>, JsonV)>) -> Seq<char>
    decreases ms,
{
    if ms.len() == 0 {
        acc
    } else {
        with_strings(
            with_member_strings(acc, ms.subrange(0, ms.len() - 1)),
            ms[ms.len() - 1].1,
        )
    }
}

fn push_strings(value: &Json, buf: &mut String)
    ensures
        final(buf)@ == with_strings(old(buf)@, value@),
    decreases value,
{
    match value {
        Json::Str(s) => {
            if !buf.as_str().is_empty() {
                push_str(buf, "\n");
            }
            push_str(buf, s.as_str());
        },
        Json::Array(items) => {
            let ghost start = buf@;
            let ghost iv = items_view(items@);
            proof {
                lemma_items_view(items@);
                assert(iv.take(0) =~= Seq::<JsonV>::empty());
            }
            let mut i: usize = 0;
            while i < items.len()
                invariant
                    *value == Json::Array(*items),
                    i <= items@.len(),
                    iv == items_view(items@),
                    iv.len() == items@.len(),
                    forall|k: int| 0 <= k < items@.len() ==> #[trigger] iv[k] == json_view(items@[k]),
                    buf@ == with_item_strings(start, iv.take(i as int)),
                decreases items.len() - i,
            {
                proof {
                    assert(decreases_to!(*value => (*value)->Array_0));
                    assert(decreases_to!(*items => items@));
                    assert(decreases_to!(items@ => items@[i as int]));
                    assert(iv.take(i + 1).subrange(0, i as int) =~= iv.take(i as int));
                    assert(iv.take(i + 1)[i as int] == iv[i as int]);
                }
                push_strings(&items[i], buf);
                i += 1;
            }
            proof {
                assert(iv.take(items@.len() as int) =~= iv);
            }
        },
        Json::Object(ms) => {
            let ghost start = buf@;
            let ghost mv = members_view(ms@);
            proof {
                lemma_members_view(ms@);
                assert(mv.take(0) =~= Seq::<(Seq<char>, JsonV)>::empty());
            }
            let mut i: usize = 0;
            while i < ms.len()
                invariant
                    *value == Json::Object(*ms),
                    i <= ms@.len(),
                    mv == members_view(ms@),
                    mv.len() == ms@.len(),
                    forall|k: int|
                        0 <= k < ms@.len() ==> #[trigger] mv[k] == (ms@[k].0@, json_view(ms@[k].1)),
                    buf@ == with_member_strings(start, mv.take(i as int)),
                decreases ms.len() - i,
            {
                proof {
                    assert(decreases_to!(*value => (*value)->Object_0));
                    assert(decreases_to!(*ms => ms@));
                    assert(decreases_to!(ms@ => ms@[i as int]));
                    assert(decreases_to!(ms@[i as int] => ms@[i as int].1));
                    assert(mv.take(i + 1).subrange(0, i as int) =~= mv.take(i as int));
                    assert(mv.take(i + 1)[i as int] == mv[i as int]);
                }
                push_strings(&ms[i].1, buf);
                i += 1;
            }
            proof {
                assert(mv.take(ms@.len() as int) =~= mv);
            }
        },
        _ => {},
    }
}

/// The text of a record's fields, in the order they are given: every
/// string leaf, through nested objects and arrays, one per line. Numbers,
/// booleans, nulls and the field names add nothing.
pub fn collect_string_fields(fields: &Vec<(String, Json)>) -> (text: String)
    ensures
        text@ == with_member_strings(seq![], members_view(fields@)),
{
    let ghost mv = members_view(fields@);
    proof {
        lemma_members_view(fields@);
        assert(mv.take(0) =~= Seq::<(Seq<char>, JsonV)>::empty());
    }
    let mut buf = String::new();
    let mut i: usize = 0;
    while i < fields.len()
        invariant
            i <= fields@.len(),
            mv == members_view(fields@),
            mv.len() == fields@.len(),
            forall|k: int| 0 <= k < fields@.len() ==> #[trigger] mv[k] == (fields@[k].0@, json_view(fields@[k].1)),
            buf@ == with_member_strings(seq![], mv.take(i as int)),
        decreases fields.len() - i,
    {
        proof {
            assert(mv.take(i + 1).subrange(0, i as int) =~= mv.take(i as int));
            assert(mv.take(i + 1)[i as int] == mv[i as int]);
        }
        push_strings(&fields[i].1, &mut buf);
        i += 1;
    }
    proof {
        assert(mv.take(fields@.len() as int) =~= mv);
    }
    buf
}

} // verus!
