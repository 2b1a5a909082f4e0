//! What the ingestion paths do to records and mappers before mutations are
//! generated: mappers whose target the schema lacks are dropped, a record's
//! scalar fields are handed down to its children, and references to the
//! children are put in the parent.

use crate::ai_schema::{first_key_index, first_member, last_segment, last_segment_exec};
use crate::ingestion_service::{ensure_member, ensure_member_exec, lemma_first_key, set_member, set_member_exec};
use crate::json::{copy_json, items_view, json_view, lemma_items_view, lemma_members_view, lemma_members_view_ext, members_view, Json, JsonV};
use crate::schema_cache::pairs;
use crate::schema_creation::copy_members;
use crate::text::{owned, push_str, str_eq};
use vstd::prelude::*;

verus! {

// ---------------------------------------------------------------------------
// Mappers the schema can take
// ---------------------------------------------------------------------------

/// Whether a mapper's target (the part of its schema field after the last
/// `.`) is one of the schema's fields.
pub open spec fn known_target(fields: Seq<Seq<char>>, m: (Seq<char>, Seq<char>)) -> bool {
    fields.contains(last_segment(m.1))
}

/// The mappers whose target is one of the schema's fields, in order.
pub open spec fn known_mappers(
    mappers: Seq<(Seq<char>, Seq<char>)>,
    fields: Seq<Seq<char>>,
) -> Seq<(Seq<char>, Seq<char>)>
    decreases mappers.len(),
{
    if mappers.len() == 0 {
        seq![]
    } else {
        let p = known_mappers(mappers.drop_last(), fields);
        if known_target(fields, mappers.last()) {
            p.push(mappers.last())
        } else {
            p
        }
    }
}

fn contains_text(items: &Vec<String>, x: &str) -> (b: bool)
    ensures
        b == items@.map_values(|s: String| s@).contains(x@),
{
    let ghost v = items@.map_values(|s: String| s@);
    let mut i: usize = 0;
    while i < items.len()
        invariant
            i <= items@.len(),
            v == items@.map_values(|s: String| s@),
            forall|k: int| 0 <= k < i ==> v[k] != x@,
        decreases items.len() - i,
    {
        if str_eq(items[i].as_str(), x) {
            proof {
                assert(v[i as int] == x@);
            }
            return true;
        }
        i += 1;
    }
    false
}

/// Keep only the mappers whose target field the schema has (the fields a
/// mutation can write); the model may map fields it left out of the schema.
pub fn retain_known_mappers(mappers: &Vec<(String, String)>, schema_fields: &Vec<String>) -> (r: Vec<(String, String)>)
    ensures
        pairs(r@) == known_mappers(pairs(mappers@), schema_fields@.map_values(|s: String| s@)),
{
    let ghost fields = schema_fields@.map_values(|s: String| s@);
    let ghost mv = pairs(mappers@);
    let mut out: Vec<(String, String)> = Vec::new();
    let mut i: usize = 0;
    proof {
        assert(mv.take(0) =~= Seq::<(Seq<char>, Seq<char>)>::empty());
        assert(pairs(out@) =~= Seq::<(Seq<char>, Seq<char>)>::empty());
    }
    while i < mappers.len()
        invariant
            i <= mappers@.len(),
            fields == schema_fields@.map_values(|s: String| s@),
            mv == pairs(mappers@),
            pairs(out@) == known_mappers(mv.take(i as int), fields),
        decreases mappers.len() - i,
    {
        proof {
            assert(mv.take(i + 1).drop_last() =~= mv.take(i as int));
            assert(mv.take(i + 1).last() == (mappers@[i as int].0@, mappers@[i as int].1@));
        }
        let target = last_segment_exec(mappers[i].1.as_str());
        if contains_text(schema_fields, target.as_str()) {
            let p = (owned(mappers[i].0.as_str()), owned(mappers[i].1.as_str()));
            proof {
                assert(pairs(out@.push(p)) =~= pairs(out@).push((p.0@, p.1@)));
            }
            out.push(p);
        }
        i += 1;
    }
    proof {
        assert(mv.take(mappers@.len() as int) =~= mv);
    }
    out
}

// ---------------------------------------------------------------------------
// The records of flat data
// ---------------------------------------------------------------------------

/// The records mutations are made for: the objects of an array, or the
/// object itself; nothing for other values.
pub open spec fn flat_records(data: JsonV) -> Seq<Seq<(Seq<char>, JsonV)>> {
    match data {
        JsonV::Array(items) => object_members(items),
        JsonV::Object(ms) => seq![ms],
        _ => seq![],
    }
}

/// The members of each item that is an object, in order.
pub open spec fn object_members(items: Seq<JsonV>) -> Seq<Seq<(Seq<char>, JsonV)>>
    decreases items.len(),
{
    if items.len() == 0 {
        seq![]
    } else {
        let p = object_members(items.drop_last());
        match items.last() {
            JsonV::Object(ms) => p.push(ms),
            _ => p,
        }
    }
}

/// The plain form of a list of records.
pub open spec fn records_view(rs: Seq<Vec<(String, Json)>>) -> Seq<Seq<(Seq<char>, JsonV)>> {
    rs.map_values(|r: Vec<(String, Json)>| members_view(r@))
}

/// The records of flat data that mutations are generated for.
pub fn flat_records_of(data: &Json) -> (r: Vec<Vec<(String, Json)>>)
    ensures
        records_view(r@) == flat_records(data@),
{
    match data {
        Json::Array(items) => {
            let ghost iv = items_view(items@);
            proof {
                lemma_items_view(items@);
                assert(iv.take(0) =~= Seq::<JsonV>::empty());
            }
            let mut out: Vec<Vec<(String, Json)>> = Vec::new();
            let mut i: usize = 0;
            proof {
                assert(records_view(out@) =~= Seq::<Seq<(Seq<char>, JsonV)>>::empty());
            }
            while i < items.len()
                invariant
                    i <= items@.len(),
                    iv == items_view(items@),
                    iv.len() == items@.len(),
                    forall|k: int| 0 <= k < items@.len() ==> #[trigger] iv[k] == json_view(items@[k]),
                    records_view(out@) == object_members(iv.take(i as int)),
                decreases items.len() - i,
            {
                proof {
                    assert(iv.take(i + 1).drop_last() =~= iv.take(i as int));
                    assert(iv.take(i + 1).last() == json_view(items@[i as int]));
                }
                match &items[i] {
                    Json::Object(ms) => {
                        let c = copy_members(ms);
                        proof {
                            assert(records_view(out@.push(c)) =~= records_view(out@).push(members_view(c@)));
                        }
                        out.push(c);
                    },
                    _ => {},
                }
                i += 1;
            }
            proof {
                assert(iv.take(items@.len() as int) =~= iv);
            }
            out
        },
        Json::Object(ms) => {
            let c = copy_members(ms);
            let out = vec![c];
            proof {
                assert(records_view(out@) =~= seq![members_view(ms@)]);
            }
            out
        },
        _ => {
            let out: Vec<Vec<(String, Json)>> = Vec::new();
            proof {
                assert(records_view(out@) =~= Seq::<Seq<(Seq<char>, JsonV)>>::empty());
            }
            out
        },
    }
}

/// Whether progress is reported after record `idx` (from 0) of `total`:
/// for more than one record, after every tenth and after the last.
pub open spec fn reports_progress_at(idx: int, total: int) -> bool {
    total > 1 && ((idx + 1) % 10 == 0 || idx + 1 == total)
}

/// Whether mutation generation reports progress after record `idx` of
/// `total`.
pub fn reports_progress(idx: usize, total: usize) -> (b: bool)
    requires
        idx < total,
    ensures
        b == reports_progress_at(idx as int, total as int),
{
    total > 1 && ((idx + 1) % 10 == 0 || idx + 1 == total)
}

// ---------------------------------------------------------------------------
// Parents and children
// ---------------------------------------------------------------------------

/// How deep decomposition goes: children below this depth are not
/// ingested.
pub const MAX_DECOMPOSITION_DEPTH: usize = 10;

/// Whether the children of an item at `depth` are ingested: only above
/// the depth limit.
pub fn descends(depth: usize) -> (b: bool)
    ensures
        b == (depth < MAX_DECOMPOSITION_DEPTH),
{
    depth < MAX_DECOMPOSITION_DEPTH
}

/// Whether a decomposed item's parent gets mutations: only an object with
/// members does.
pub fn writes_parent(parent: &Json) -> (b: bool)
    ensures
        b == (parent@ matches JsonV::Object(ms) && ms.len() > 0),
{
    match parent {
        Json::Object(ms) => {
            proof {
                lemma_members_view(ms@);
            }
            ms.len() > 0
        },
        _ => false,
    }
}

/// Whether generated mutations are executed at once: when the request asks
/// for it and there are any.
pub fn executes_mutations(auto_execute: bool, generated: usize) -> (b: bool)
    ensures
        b == (auto_execute && generated > 0),
{
    auto_execute && generated > 0
}

/// Whether a structure reuses an existing schema: when the batch reuse
/// check matched its descriptive name (`matched` is whether the match is a
/// superset) with a superset; otherwise a schema is made or chosen anew.
pub fn reuses_schema(matched: Option<bool>) -> (b: bool)
    ensures
        b == (matched == Some(true)),
{
    match matched {
        Some(superset) => superset,
        None => false,
    }
}

/// The parent's string and number fields, each under `parent_` and its
/// name, in order: what each child is given so it can be keyed by its
/// parent.
pub open spec fn parent_key_fields(ms: Seq<(Seq<char>, JsonV)>) -> Seq<(Seq<char>, JsonV)>
    decreases ms.len(),
{
    if ms.len() == 0 {
        seq![]
    } else {
        let p = parent_key_fields(ms.drop_last());
        match ms.last().1 {
            JsonV::Str(_) => p.push(("parent_"@ + ms.last().0, ms.last().1)),
            JsonV::Number(_) => p.push(("parent_"@ + ms.last().0, ms.last().1)),
            _ => p,
        }
    }
}

/// The key fields a decomposed parent hands down: none unless it is an
/// object.
pub open spec fn handed_down(parent: JsonV) -> Seq<(Seq<char>, JsonV)> {
    match parent {
        JsonV::Object(ms) => parent_key_fields(ms),
        _ => seq![],
    }
}

/// The key fields a decomposed parent hands down to its children.
pub fn parent_keys_of(parent: &Json) -> (r: Vec<(String, Json)>)
    ensures
        members_view(r@) == handed_down(parent@),
{
    let mut out: Vec<(String, Json)> = Vec::new();
    proof {
        lemma_members_view(out@);
        assert(members_view(out@) =~= Seq::<(Seq<char>, JsonV)>::empty());
    }
    match parent {
        Json::Object(ms) => {
            let ghost mv = members_view(ms@);
            proof {
                lemma_members_view(ms@);
                assert(mv.take(0) =~= Seq::<(Seq<char>, JsonV)>::empty());
                reveal_strlit("parent_");
            }
            let mut i: usize = 0;
            while i < ms.len()
                invariant
                    i <= ms@.len(),
                    mv == members_view(ms@),
                    mv.len() == ms@.len(),
                    forall|k: int| 0 <= k < ms@.len() ==> #[trigger] mv[k] == (ms@[k].0@, json_view(ms@[k].1)),
                    members_view(out@) == parent_key_fields(mv.take(i as int)),
                decreases ms.len() - i,
            {
                proof {
                    assert(mv.take(i + 1).drop_last() =~= mv.take(i as int));
                    assert(mv.take(i + 1).last() == mv[i as int]);
                }
                let keep = match &ms[i].1 {
                    Json::Str(_) => true,
                    Json::Number(_) => true,
                    _ => false,
                };
                if keep {
                    let mut k = owned("parent_");
                    push_str(&mut k, ms[i].0.as_str());
                    let v = copy_json(&ms[i].1);
                    let ghost before = out@;
                    out.push((k, v));
                    proof {
                        lemma_members_view(before);
                        lemma_members_view(out@);
                        assert(out@.drop_last() =~= before);
                        lemma_members_view_ext(out@, members_view(before).push(("parent_"@ + mv[i as int].0, mv[i as int].1)));
                    }
                }
                i += 1;
            }
            proof {
                assert(mv.take(ms@.len() as int) =~= mv);
            }
        },
        _ => {},
    }
    out
}

/// Each of `fields` added to the members unless a member has its key.
pub open spec fn ensured_all(ms: Seq<(Seq<char>, JsonV)>, fields: Seq<(Seq<char>, JsonV)>) -> Seq<(Seq<char>, JsonV)>
    decreases fields.len(),
{
    if fields.len() == 0 {
        ms
    } else {
        ensure_member(ensured_all(ms, fields.drop_last()), fields.last().0, fields.last().1)
    }
}

/// A child with its parent's key fields: each added unless the child has
/// a field of that name; values other than objects are left as they are.
pub open spec fn with_parent_keys(child: JsonV, keys: Seq<(Seq<char>, JsonV)>) -> JsonV {
    match child {
        JsonV::Object(ms) => JsonV::Object(ensured_all(ms, keys)),
        _ => child,
    }
}

/// A copy of a child item given its parent's key fields; its own fields
/// win.
pub fn child_with_parent_keys(child: &Json, keys: &Vec<(String, Json)>) -> (r: Json)
    ensures
        r@ == with_parent_keys(child@, members_view(keys@)),
{
    match child {
        Json::Object(ms) => {
            let ghost kv = members_view(keys@);
            proof {
                lemma_members_view(keys@);
                assert(kv.take(0) =~= Seq::<(Seq<char>, JsonV)>::empty());
            }
            let mut out = copy_members(ms);
            let mut i: usize = 0;
            while i < keys.len()
                invariant
                    i <= keys@.len(),
                    kv == members_view(keys@),
                    kv.len() == keys@.len(),
                    forall|k: int| 0 <= k < keys@.len() ==> #[trigger] kv[k] == (keys@[k].0@, json_view(keys@[k].1)),
                    members_view(out@) == ensured_all(members_view(ms@), kv.take(i as int)),
                decreases keys.len() - i,
            {
                proof {
                    assert(kv.take(i + 1).drop_last() =~= kv.take(i as int));
                    assert(kv.take(i + 1).last() == kv[i as int]);
                }
                ensure_member_exec(&mut out, keys[i].0.as_str(), copy_json(&keys[i].1));
                i += 1;
            }
            proof {
                assert(kv.take(keys@.len() as int) =~= kv);
            }
            Json::Object(out)
        },
        _ => copy_json(child),
    }
}

/// The references to a parent's children, field by field.
pub open spec fn refs_view(refs: Seq<(String, Vec<Json>)>) -> Seq<(Seq<char>, Seq<JsonV>)> {
    refs.map_values(|p: (String, Vec<Json>)| (p.0@, items_view(p.1@)))
}

/// The members with each field that has references set to the array of
/// them.
pub open spec fn referenced(ms: Seq<(Seq<char>, JsonV)>, refs: Seq<(Seq<char>, Seq<JsonV>)>) -> Seq<(Seq<char>, JsonV)>
    decreases refs.len(),
{
    if refs.len() == 0 {
        ms
    } else {
        let m = referenced(ms, refs.drop_last());
        if refs.last().1.len() > 0 {
            set_member(m, refs.last().0, JsonV::Array(refs.last().1))
        } else {
            m
        }
    }
}

/// A parent given the references to its children: for each field whose
/// children gave references, the field set to their array.
pub open spec fn with_child_references(parent: JsonV, refs: Seq<(Seq<char>, Seq<JsonV>)>) -> JsonV {
    match parent {
        JsonV::Object(ms) => JsonV::Object(referenced(ms, refs)),
        _ => parent,
    }
}

fn copy_items(items: &Vec<Json>) -> (r: Vec<Json>)
    ensures
        items_view(r@) == items_view(items@),
{
    proof {
        lemma_items_view(items@);
    }
    let mut out: Vec<Json> = Vec::new();
    let mut i: usize = 0;
    while i < items.len()
        invariant
            i <= items@.len(),
            out@.len() == i,
            forall|k: int| 0 <= k < i ==> json_view(#[trigger] out@[k]) == json_view(items@[k]),
        decreases items.len() - i,
    {
        out.push(copy_json(&items[i]));
        i += 1;
    }
    proof {
        crate::json::lemma_items_view_ext(out@, items_view(items@));
    }
    out
}

/// Put the references to a parent's children into the parent.
pub fn add_child_references(parent: &mut Json, refs: &Vec<(String, Vec<Json>)>)
    ensures
        final(parent)@ == with_child_references(old(parent)@, refs_view(refs@)),
{
    let ghost rv = refs_view(refs@);
    match parent {
        Json::Object(ms) => {
            let ghost start = members_view(ms@);
            proof {
                assert(rv.take(0) =~= Seq::<(Seq<char>, Seq<JsonV>)>::empty());
            }
            let mut i: usize = 0;
            while i < refs.len()
                invariant
                    i <= refs@.len(),
                    rv == refs_view(refs@),
                    members_view(ms@) == referenced(start, rv.take(i as int)),
                decreases refs.len() - i,
            {
                proof {
                    assert(rv.take(i + 1).drop_last() =~= rv.take(i as int));
                    assert(rv.take(i + 1).last() == rv[i as int]);
                    lemma_items_view(refs@[i as int].1@);
                }
                if refs[i].1.len() > 0 {
                    let arr = copy_items(&refs[i].1);
                    set_member_exec(ms, refs[i].0.as_str(), Json::Array(arr));
                }
                i += 1;
            }
            proof {
                assert(rv.take(refs@.len() as int) =~= rv);
            }
        },
        _ => {},
    }
}

/// Some mapper maps the JSON field `k`.
pub open spec fn maps_field(mappers: Seq<(Seq<char>, Seq<char>)>, k: Seq<char>) -> bool {
    exists|i: int| 0 <= i < mappers.len() && mappers[i].0 == k
}

/// The mappers with an identity mapper added for each field that has
/// references and no mapper yet.
pub open spec fn with_reference_mappers(
    mappers: Seq<(Seq<char>, Seq<char>)>,
    refs: Seq<(Seq<char>, Seq<JsonV>)>,
) -> Seq<(Seq<char>, Seq<char>)>
    decreases refs.len(),
{
    if refs.len() == 0 {
        mappers
    } else {
        let m = with_reference_mappers(mappers, refs.drop_last());
        if refs.last().1.len() > 0 && !maps_field(m, refs.last().0) {
            m.push((refs.last().0, refs.last().0))
        } else {
            m
        }
    }
}

fn maps_field_exec(mappers: &Vec<(String, String)>, k: &str) -> (b: bool)
    ensures
        b == maps_field(pairs(mappers@), k@),
{
    let mut i: usize = 0;
    while i < mappers.len()
        invariant
            i <= mappers@.len(),
            forall|j: int| 0 <= j < i ==> mappers@[j].0@ != k@,
        decreases mappers.len() - i,
    {
        if str_eq(mappers[i].0.as_str(), k) {
            proof {
                assert(pairs(mappers@)[i as int].0 == k@);
            }
            return true;
        }
        i += 1;
    }
    proof {
        assert forall|j: int| 0 <= j < pairs(mappers@).len() implies pairs(mappers@)[j].0 != k@ by {
            assert(pairs(mappers@)[j].0 == mappers@[j].0@);
        }
    }
    false
}

/// Add an identity mapper for each reference field that has references and
/// no mapper yet, so the references are written.
pub fn add_reference_mappers(mappers: &mut Vec<(String, String)>, refs: &Vec<(String, Vec<Json>)>)
    ensures
        pairs(final(mappers)@) == with_reference_mappers(pairs(old(mappers)@), refs_view(refs@)),
{
    let ghost rv = refs_view(refs@);
    let ghost start = pairs(mappers@);
    proof {
        assert(rv.take(0) =~= Seq::<(Seq<char>, Seq<JsonV>)>::empty());
    }
    let mut i: usize = 0;
    while i < refs.len()
        invariant
            i <= refs@.len(),
            rv == refs_view(refs@),
            pairs(mappers@) == with_reference_mappers(start, rv.take(i as int)),
        decreases refs.len() - i,
    {
        proof {
            assert(rv.take(i + 1).drop_last() =~= rv.take(i as int));
            assert(rv.take(i + 1).last() == rv[i as int]);
            lemma_items_view(refs@[i as int].1@);
        }
        if refs[i].1.len() > 0 && !maps_field_exec(mappers, refs[i].0.as_str()) {
            let p = (owned(refs[i].0.as_str()), owned(refs[i].0.as_str()));
            let ghost before = mappers@;
            mappers.push(p);
            proof {
                assert(pairs(mappers@) =~= pairs(before).push((p.0@, p.1@)));
            }
        }
        i += 1;
    }
    proof {
        assert(rv.take(refs@.len() as int) =~= rv);
    }
}

// ---------------------------------------------------------------------------
// Laws
// ---------------------------------------------------------------------------

pub(crate) proof fn lemma_first_member_push(ms: Seq<(Seq<char>, JsonV)>, x: (Seq<char>, JsonV), k: Seq<char>)
    ensures
        first_member(ms.push(x), k) == match first_member(ms, k) {
            Some(v) => Some(v),
            None => if x.0 == k {
                Some(x.1)
            } else {
                None
            },
        },
    decreases ms.len(),
{
    assert(ms.push(x)[0] == if ms.len() == 0 {
        x
    } else {
        ms[0]
    });
    if ms.len() == 0 {
        assert(ms.push(x).drop_first() =~= Seq::<(Seq<char>, JsonV)>::empty());
        assert(first_member(ms.push(x).drop_first(), k) is None);
    } else if ms[0].0 != k {
        assert(ms.push(x).drop_first() =~= ms.drop_first().push(x));
        lemma_first_member_push(ms.drop_first(), x, k);
    }
}

/// A child's own fields win over the key fields its parent hands down:
/// after they are added, a field of the child keeps its value, and a field
/// it lacked has the first value handed down under that name, if any.
pub proof fn law_child_fields_win(ms: Seq<(Seq<char>, JsonV)>, keys: Seq<(Seq<char>, JsonV)>, k: Seq<char>)
    ensures
        first_member(ensured_all(ms, keys), k) == match first_member(ms, k) {
            Some(v) => Some(v),
            None => first_member(keys, k),
        },
    decreases keys.len(),
{
    if keys.len() > 0 {
        let e = ensured_all(ms, keys.drop_last());
        law_child_fields_win(ms, keys.drop_last(), k);
        lemma_first_key(e, keys.last().0);
        lemma_first_member_push(keys.drop_last(), keys.last(), k);
        assert(keys.drop_last().push(keys.last()) =~= keys);
        if first_key_index(e, keys.last().0) is None {
            lemma_first_member_push(e, (keys.last().0, keys.last().1), k);
        }
    }
}

proof fn lemma_known_mappers(mappers: Seq<(Seq<char>, Seq<char>)>, fields: Seq<Seq<char>>)
    ensures
        known_mappers(mappers, fields).len() <= mappers.len(),
        forall|i: int|
            0 <= i < known_mappers(mappers, fields).len() ==> known_target(fields, #[trigger] known_mappers(mappers, fields)[i])
                && mappers.contains(known_mappers(mappers, fields)[i]),
        forall|i: int|
            0 <= i < mappers.len() && known_target(fields, #[trigger] mappers[i]) ==> known_mappers(mappers, fields).contains(mappers[i]),
    decreases mappers.len(),
{
    if mappers.len() > 0 {
        let d = mappers.drop_last();
        lemma_known_mappers(d, fields);
        let p = known_mappers(d, fields);
        let r = known_mappers(mappers, fields);
        assert forall|i: int| 0 <= i < r.len() implies known_target(fields, #[trigger] r[i]) && mappers.contains(r[i]) by {
            if i < p.len() {
                assert(r[i] == p[i]);
                let j = choose|j: int| 0 <= j < d.len() && d[j] == p[i];
                assert(mappers[j] == d[j]);
            } else {
                assert(r[i] == mappers.last());
                assert(mappers[mappers.len() - 1] == mappers.last());
            }
        }
        assert forall|i: int| 0 <= i < mappers.len() && known_target(fields, #[trigger] mappers[i]) implies r.contains(mappers[i]) by {
            if i < mappers.len() - 1 {
                assert(d[i] == mappers[i]);
                let j = choose|j: int| 0 <= j < p.len() && p[j] == d[i];
                assert(r[j] == p[j]);
            } else {
                assert(r[r.len() - 1] == mappers[i]);
            }
        }
    }
}

/// Filtering mappers keeps exactly those whose target the schema has:
/// every kept mapper was given and targets a schema field, and every given
/// mapper that targets a schema field is kept.
pub proof fn law_known_mappers_target_schema_fields(mappers: Seq<(Seq<char>, Seq<char>)>, fields: Seq<Seq<char>>)
    ensures
        known_mappers(mappers, fields).len() <= mappers.len(),
        forall|m: (Seq<char>, Seq<char>)|
            #[trigger] known_mappers(mappers, fields).contains(m) <==> mappers.contains(m) && known_target(fields, m),
{
    lemma_known_mappers(mappers, fields);
    let r = known_mappers(mappers, fields);
    assert forall|m: (Seq<char>, Seq<char>)| #[trigger] r.contains(m) <==> mappers.contains(m) && known_target(fields, m) by {
        if r.contains(m) {
            let i = choose|i: int| 0 <= i < r.len() && r[i] == m;
            assert(known_target(fields, r[i]));
        }
        if mappers.contains(m) && known_target(fields, m) {
            let i = choose|i: int| 0 <= i < mappers.len() && mappers[i] == m;
            assert(known_target(fields, mappers[i]));
        }
    }
}

/// Adding mappers for reference fields keeps every mapper there was, in
/// place, and leaves each field with references mapped.
pub proof fn law_reference_mappers_keep_existing(
    mappers: Seq<(Seq<char>, Seq<char>)>,
    refs: Seq<(Seq<char>, Seq<JsonV>)>,
)
    ensures
        mappers.len() <= with_reference_mappers(mappers, refs).len(),
        with_reference_mappers(mappers, refs).subrange(0, mappers.len() as int) == mappers,
        forall|i: int|
            0 <= i < refs.len() && (#[trigger] refs[i]).1.len() > 0 ==> maps_field(with_reference_mappers(mappers, refs), refs[i].0),
    decreases refs.len(),
{
    if refs.len() > 0 {
        let d = refs.drop_last();
        law_reference_mappers_keep_existing(mappers, d);
        let m = with_reference_mappers(mappers, d);
        let r = with_reference_mappers(mappers, refs);
        assert(r.subrange(0, mappers.len() as int) =~= mappers) by {
            assert forall|j: int| 0 <= j < mappers.len() implies r[j] == mappers[j] by {
                assert(r[j] == m[j]);
                assert(m.subrange(0, mappers.len() as int)[j] == m[j]);
            }
        }
        assert forall|i: int| 0 <= i < refs.len() && (#[trigger] refs[i]).1.len() > 0 implies maps_field(r, refs[i].0) by {
            if i < refs.len() - 1 {
                assert(d[i] == refs[i]);
                assert(maps_field(m, d[i].0));
                let j = choose|j: int| 0 <= j < m.len() && m[j].0 == d[i].0;
                assert(r[j] == m[j]);
            } else if !maps_field(m, refs.last().0) {
                assert(r[r.len() - 1].0 == refs.last().0);
            }
        }
    }
}

proof fn lemma_first_member_set(ms: Seq<(Seq<char>, JsonV)>, k: Seq<char>, v: JsonV, k2: Seq<char>)
    ensures
        first_member(set_member(ms, k, v), k2) == if k2 == k {
            Some(v)
        } else {
            first_member(ms, k2)
        },
    decreases ms.len(),
{
    let r = set_member(ms, k, v);
    if ms.len() == 0 {
        assert(r.drop_first() =~= Seq::<(Seq<char>, JsonV)>::empty());
        assert(first_member(r.drop_first(), k2) is None);
    } else if ms[0].0 == k {
        assert(r.drop_first() =~= ms.drop_first());
    } else {
        let rest = ms.drop_first();
        lemma_first_member_set(rest, k, v, k2);
        lemma_first_key(rest, k);
        match first_key_index(rest, k) {
            Some(i) => {
                assert(r.drop_first() =~= rest.update(i, (k, v)));
            },
            None => {
                assert(r.drop_first() =~= rest.push((k, v)));
            },
        }
        assert(r.drop_first() =~= set_member(rest, k, v));
        assert(r[0] == ms[0]);
    }
}

/// Putting child references into a parent object sets each field that has
/// references to the array of exactly those references, in order (for a
/// field listed more than once, its last non-empty list); a field with no
/// references keeps what it held.
pub proof fn law_child_references_are_set(
    ms: Seq<(Seq<char>, JsonV)>,
    refs: Seq<(Seq<char>, Seq<JsonV>)>,
    k: Seq<char>,
)
    ensures
        forall|i: int|
            0 <= i < refs.len() && (#[trigger] refs[i]).0 == k && refs[i].1.len() > 0 && (forall|j: int|
                i < j < refs.len() && refs[j].0 == k ==> refs[j].1.len() == 0) ==> first_member(
                referenced(ms, refs),
                k,
            ) == Some(JsonV::Array(refs[i].1)),
        (forall|i: int| 0 <= i < refs.len() && (#[trigger] refs[i]).0 == k ==> refs[i].1.len() == 0) ==> first_member(
            referenced(ms, refs),
            k,
        ) == first_member(ms, k),
    decreases refs.len(),
{
    if refs.len() > 0 {
        let d = refs.drop_last();
        let last = refs.last();
        law_child_references_are_set(ms, d, k);
        let m = referenced(ms, d);
        if last.1.len() > 0 {
            lemma_first_member_set(m, last.0, JsonV::Array(last.1), k);
        }
        assert forall|i: int|
            0 <= i < refs.len() && (#[trigger] refs[i]).0 == k && refs[i].1.len() > 0 && (forall|j: int|
                i < j < refs.len() && refs[j].0 == k ==> refs[j].1.len() == 0) implies first_member(
            referenced(ms, refs),
            k,
        ) == Some(JsonV::Array(refs[i].1)) by {
            if i < refs.len() - 1 {
                assert(d[i] == refs[i]);
                assert(refs[refs.len() - 1] == last);
                assert(forall|j: int| i < j < d.len() && d[j].0 == k ==> refs[j] == d[j]);
            }
        }
        if forall|i: int| 0 <= i < refs.len() && (#[trigger] refs[i]).0 == k ==> refs[i].1.len() == 0 {
            assert forall|i: int| 0 <= i < d.len() && (#[trigger] d[i]).0 == k implies d[i].1.len() == 0 by {
                assert(d[i] == refs[i]);
            }
            assert(refs[refs.len() - 1] == last);
        }
    }
}

} // verus!
