//! The ingestion service's own steps on JSON: checking the input, giving
//! records their source context and content hashes, asking for missing
//! field descriptions, and adjusting the schema the model proposes for an
//! image (keyed by its file name, with a visibility, both in its mappers).

use crate::ai_schema::{first_key_index, first_member, get, member_index, opt_view, str_items, str_of, AISchemaResponse};
use crate::ai_schema::{truncate_long_strings, truncated};
use crate::decomposer::{decompose, groups, keys_of, lemma_sorted_texts, lemma_sorted_unique, sort_texts, sorted_texts};
use crate::digest::{hex_lower, sha256_digest, sha256_hex};
use crate::error::IngestionError;
use crate::file_conversion::{category_hint, derive_category_hint};
use crate::json::{
    copy_json, items_view, json_view, lemma_items_view, lemma_items_view_ext, lemma_members_view,
    lemma_members_view_ext, members_view, json_text, to_json_text, Json, JsonV,
};
use crate::schema_cache::pairs;
use crate::schema_creation::copy_members;
use crate::text::{chars_of, owned, push_str, str_eq, string_of, subvec};
use vstd::string::StringSliceAdditionalSpecFns;
use vstd::utf8::encode_utf8;
use vstd::prelude::*;

verus! {

// ---------------------------------------------------------------------------
// Member and item updates
// ---------------------------------------------------------------------------

/// `k` set to `v`: the first member with key `k` replaced, or a new member
/// appended.
pub open spec fn set_member(ms: Seq<(Seq<char>, JsonV)>, k: Seq<char>, v: JsonV) -> Seq<(Seq<char>, JsonV)> {
    match first_key_index(ms, k) {
        Some(i) => ms.update(i, (k, v)),
        None => ms.push((k, v)),
    }
}

/// `k` given the value `v` unless some member has key `k` already.
pub open spec fn ensure_member(ms: Seq<(Seq<char>, JsonV)>, k: Seq<char>, v: JsonV) -> Seq<(Seq<char>, JsonV)> {
    match first_key_index(ms, k) {
        Some(_) => ms,
        None => ms.push((k, v)),
    }
}

/// `x` appended unless it is among the items already.
pub open spec fn with_item(items: Seq<JsonV>, x: JsonV) -> Seq<JsonV> {
    if items.contains(x) {
        items
    } else {
        items.push(x)
    }
}

/// The value at the first member with key `k` replaced by `v`, when there
/// is such a member.
pub open spec fn replace_member(ms: Seq<(Seq<char>, JsonV)>, k: Seq<char>, v: JsonV) -> Seq<(Seq<char>, JsonV)> {
    match first_key_index(ms, k) {
        Some(i) => ms.update(i, (k, v)),
        None => ms,
    }
}

pub(crate) proof fn lemma_first_key(ms: Seq<(Seq<char>, JsonV)>, k: Seq<char>)
    ensures
        first_key_index(ms, k) matches Some(i) ==> 0 <= i < ms.len() && ms[i].0 == k && first_member(
            ms,
            k,
        ) == Some(ms[i].1),
        first_key_index(ms, k) is None ==> first_member(ms, k) is None,
    decreases ms.len(),
{
    if ms.len() > 0 && ms[0].0 != k {
        lemma_first_key(ms.drop_first(), k);
    }
}

pub(crate) fn set_member_exec(ms: &mut Vec<(String, Json)>, k: &str, v: Json)
    ensures
        members_view(final(ms)@) == set_member(members_view(old(ms)@), k@, v@),
{
    let ghost before = ms@;
    proof {
        lemma_members_view(before);
    }
    let ghost vv = v@;
    match member_index(ms, k) {
        Some(i) => {
            let p = (owned(k), v);
            ms.set(i, p);
            proof {
                lemma_first_key(members_view(before), k@);
                lemma_members_view_ext(ms@, members_view(before).update(i as int, (k@, vv)));
            }
        },
        None => {
            ms.push((owned(k), v));
            proof {
                lemma_members_view(ms@);
                assert(ms@.drop_last() =~= before);
                lemma_members_view_ext(ms@, members_view(before).push((k@, vv)));
            }
        },
    }
}

pub(crate) fn ensure_member_exec(ms: &mut Vec<(String, Json)>, k: &str, v: Json)
    ensures
        members_view(final(ms)@) == ensure_member(members_view(old(ms)@), k@, v@),
{
    let ghost before = ms@;
    let ghost vv = v@;
    match member_index(ms, k) {
        Some(_) => {},
        None => {
            ms.push((owned(k), v));
            proof {
                lemma_members_view(before);
                lemma_members_view(ms@);
                assert(ms@.drop_last() =~= before);
                lemma_members_view_ext(ms@, members_view(before).push((k@, vv)));
            }
        },
    }
}

fn has_string_item(items: &Vec<Json>, x: &str) -> (b: bool)
    ensures
        b == items_view(items@).contains(JsonV::Str(x@)),
{
    proof {
        lemma_items_view(items@);
    }
    let mut i: usize = 0;
    while i < items.len()
        invariant
            i <= items@.len(),
            items_view(items@).len() == items@.len(),
            forall|k: int| 0 <= k < items@.len() ==> #[trigger] items_view(items@)[k] == json_view(items@[k]),
            forall|k: int| 0 <= k < i ==> items_view(items@)[k] != JsonV::Str(x@),
        decreases items.len() - i,
    {
        match &items[i] {
            Json::Str(s) => {
                if str_eq(s.as_str(), x) {
                    assert(items_view(items@)[i as int] == JsonV::Str(x@));
                    return true;
                }
            },
            _ => {},
        }
        i += 1;
    }
    false
}

fn push_string_unique(items: &mut Vec<Json>, x: &str)
    ensures
        items_view(final(items)@) == with_item(items_view(old(items)@), JsonV::Str(x@)),
{
    if !has_string_item(items, x) {
        let ghost before = items@;
        items.push(Json::Str(owned(x)));
        proof {
            lemma_items_view(before);
            lemma_items_view(items@);
            lemma_items_view_ext(items@, items_view(before).push(JsonV::Str(x@)));
        }
    }
}

// ---------------------------------------------------------------------------
// The image override
// ---------------------------------------------------------------------------

/// What an image's file name is called in schemas and records.
pub open spec fn sfn() -> Seq<char> {
    "source_file_name"@
}

/// The description an image schema gives its visibility field.
pub open spec fn visibility_description() -> Seq<char> {
    "AI-classified photo visibility: public (suitable for social feed) or private (sensitive content)"@
}

/// The classification list of a text field.
pub open spec fn word_list() -> JsonV {
    JsonV::Array(seq![JsonV::Str("word"@)])
}

/// The names with `n` appended unless it is among them.
pub open spec fn with_name(names: Seq<Seq<char>>, n: Seq<char>) -> Seq<Seq<char>> {
    if names.contains(n) {
        names
    } else {
        names.push(n)
    }
}

/// The field names an image schema declares when it lists none: those of
/// its field classifications, and the file name.
pub open spec fn fallback_fields(ms: Seq<(Seq<char>, JsonV)>) -> JsonV {
    JsonV::Array(
        with_name(
            match first_member(ms, "field_classifications"@) {
                Some(JsonV::Object(fc)) => fc.map_values(|p: (Seq<char>, JsonV)| p.0),
                _ => seq![],
            },
            sfn(),
        ).map_values(|n: Seq<char>| JsonV::Str(n)),
    )
}

/// The file name among the fields: added to the field list, or, when there
/// is no field list, a list made of the classification names and the file
/// name.
pub open spec fn with_file_name_field(ms: Seq<(Seq<char>, JsonV)>) -> Seq<(Seq<char>, JsonV)> {
    match first_member(ms, "fields"@) {
        Some(JsonV::Array(items)) => replace_member(
            ms,
            "fields"@,
            JsonV::Array(with_item(items, JsonV::Str(sfn()))),
        ),
        _ => set_member(ms, "fields"@, fallback_fields(ms)),
    }
}

/// The file name and `visibility` classified as words, when there are
/// classifications and they lack them.
pub open spec fn with_word_classifications(ms: Seq<(Seq<char>, JsonV)>) -> Seq<(Seq<char>, JsonV)> {
    match first_member(ms, "field_classifications"@) {
        Some(JsonV::Object(fc)) => replace_member(
            ms,
            "field_classifications"@,
            JsonV::Object(
                ensure_member(ensure_member(fc, sfn(), word_list()), "visibility"@, word_list()),
            ),
        ),
        _ => ms,
    }
}

/// `visibility` among the fields, when there is a field list.
pub open spec fn with_visibility_field(ms: Seq<(Seq<char>, JsonV)>) -> Seq<(Seq<char>, JsonV)> {
    match first_member(ms, "fields"@) {
        Some(JsonV::Array(items)) => replace_member(
            ms,
            "fields"@,
            JsonV::Array(with_item(items, JsonV::Str("visibility"@))),
        ),
        _ => ms,
    }
}

/// `visibility` described, when there are descriptions and it lacks one.
pub open spec fn with_visibility_description(ms: Seq<(Seq<char>, JsonV)>) -> Seq<(Seq<char>, JsonV)> {
    match first_member(ms, "field_descriptions"@) {
        Some(JsonV::Object(fd)) => replace_member(
            ms,
            "field_descriptions"@,
            JsonV::Object(ensure_member(fd, "visibility"@, JsonV::Str(visibility_description()))),
        ),
        _ => ms,
    }
}

/// The members of an image schema after the override: `schema_type` set to
/// `Hash` and `key` to hash on the file name, then the file name among the
/// fields, the classifications and `visibility` completed, and the
/// descriptive name set when one is given.
pub open spec fn image_members(ms0: Seq<(Seq<char>, JsonV)>, desc: Option<Seq<char>>) -> Seq<(Seq<char>, JsonV)> {
    let s2 = set_member(
        set_member(ms0, "schema_type"@, JsonV::Str("Hash"@)),
        "key"@,
        JsonV::Object(seq![("hash_field"@, JsonV::Str(sfn()))]),
    );
    let s6 = with_visibility_description(
        with_visibility_field(with_word_classifications(with_file_name_field(s2))),
    );
    match desc {
        Some(d) => set_member(s6, "descriptive_name"@, JsonV::Str(d)),
        None => s6,
    }
}

/// The mappers with `k` mapped to itself unless it is mapped already.
pub open spec fn ensure_identity(mm: Seq<(Seq<char>, Seq<char>)>, k: Seq<char>) -> Seq<(Seq<char>, Seq<char>)> {
    if exists|i: int| 0 <= i < mm.len() && mm[i].0 == k {
        mm
    } else {
        mm.push((k, k))
    }
}

/// The schema can take members: an object, or null (which becomes one).
pub open spec fn overridable(ns: Option<JsonV>) -> bool {
    match ns {
        Some(JsonV::Object(_)) => true,
        Some(JsonV::Null) => true,
        None => true,
        _ => false,
    }
}

fn ensure_identity_exec(mm: &mut Vec<(String, String)>, k: &str)
    ensures
        pairs(final(mm)@) == ensure_identity(pairs(old(mm)@), k@),
{
    let ghost before = pairs(mm@);
    let mut i: usize = 0;
    while i < mm.len()
        invariant
            i <= mm@.len(),
            before == pairs(mm@),
            forall|j: int| 0 <= j < i ==> mm@[j].0@ != k@,
        decreases mm.len() - i,
    {
        if str_eq(mm[i].0.as_str(), k) {
            assert(before[i as int].0 == k@);
            return;
        }
        i += 1;
    }
    proof {
        assert forall|j: int| 0 <= j < before.len() implies before[j].0 != k@ by {
            assert(before[j].0 == mm@[j].0@);
        }
    }
    mm.push((owned(k), owned(k)));
    proof {
        assert(pairs(mm@) =~= before.push((k@, k@)));
    }
}

fn replace_items(ms: &mut Vec<(String, Json)>, i: usize, k: &str, v: Json)
    requires
        i < old(ms)@.len(),
        first_key_index(members_view(old(ms)@), k@) == Some(i as int),
    ensures
        members_view(final(ms)@) == replace_member(members_view(old(ms)@), k@, v@),
{
    let ghost before = ms@;
    let ghost vv = v@;
    proof {
        lemma_members_view(before);
    }
    ms.set(i, (owned(k), v));
    proof {
        lemma_members_view_ext(ms@, members_view(before).update(i as int, (k@, vv)));
    }
}

fn copy_items(items: &Vec<Json>) -> (r: Vec<Json>)
    ensures
        items_view(r@) == items_view(items@),
{
    let mut out: Vec<Json> = Vec::new();
    let mut k: usize = 0;
    proof {
        lemma_items_view(items@);
    }
    while k < items.len()
        invariant
            k <= items@.len(),
            out@.len() == k,
            forall|j: int| 0 <= j < k ==> json_view(#[trigger] out@[j]) == json_view(items@[j]),
        decreases items.len() - k,
    {
        out.push(copy_json(&items[k]));
        k += 1;
    }
    proof {
        lemma_items_view_ext(out@, items_view(items@));
    }
    out
}

/// The items of the array at the first member with key `k`, copied.
fn array_at(ms: &Vec<(String, Json)>, k: &str) -> (r: Option<(usize, Vec<Json>)>)
    ensures
        match first_member(members_view(ms@), k@) {
            Some(JsonV::Array(items)) => r matches Some((i, v)) && first_key_index(members_view(ms@), k@)
                == Some(i as int) && i < ms@.len() && items_view(v@) == items,
            _ => r is None,
        },
{
    proof {
        lemma_members_view(ms@);
        lemma_first_key(members_view(ms@), k@);
    }
    match member_index(ms, k) {
        Some(i) => match &ms[i].1 {
            Json::Array(items) => Some((i, copy_items(items))),
            _ => None,
        },
        None => None,
    }
}

/// The members of the object at the first member with key `k`, copied.
fn object_at(ms: &Vec<(String, Json)>, k: &str) -> (r: Option<(usize, Vec<(String, Json)>)>)
    ensures
        match first_member(members_view(ms@), k@) {
            Some(JsonV::Object(inner)) => r matches Some((i, v)) && first_key_index(members_view(ms@), k@)
                == Some(i as int) && i < ms@.len() && members_view(v@) == inner,
            _ => r is None,
        },
{
    proof {
        lemma_members_view(ms@);
        lemma_first_key(members_view(ms@), k@);
    }
    match member_index(ms, k) {
        Some(i) => match &ms[i].1 {
            Json::Object(inner) => Some((i, copy_members(inner))),
            _ => None,
        },
        None => None,
    }
}

fn word_list_exec() -> (r: Json)
    ensures
        r@ == word_list(),
{
    let mut w: Vec<Json> = Vec::new();
    w.push(Json::Str(owned("word")));
    proof {
        lemma_items_view(w@);
        assert(items_view(w@) =~= seq![JsonV::Str("word"@)]);
    }
    Json::Array(w)
}

fn add_file_name_field(ms: &mut Vec<(String, Json)>)
    ensures
        members_view(final(ms)@) == with_file_name_field(members_view(old(ms)@)),
{
    match array_at(ms, "fields") {
        Some((i, mut items)) => {
            push_string_unique(&mut items, "source_file_name");
            replace_items(ms, i, "fields", Json::Array(items));
        },
        None => {
            let ghost s2 = members_view(ms@);
            let ghost fc_names: Seq<Seq<char>> = match first_member(s2, "field_classifications"@) {
                Some(JsonV::Object(fc)) => fc.map_values(|p: (Seq<char>, JsonV)| p.0),
                _ => seq![],
            };
            let mut names: Vec<Json> = Vec::new();
            match object_at(ms, "field_classifications") {
                Some((_, fc)) => {
                    let mut k: usize = 0;
                    proof {
                        lemma_members_view(fc@);
                    }
                    while k < fc.len()
                        invariant
                            k <= fc@.len(),
                            names@.len() == k,
                            forall|j: int| 0 <= j < k ==> json_view(#[trigger] names@[j]) == JsonV::Str(fc@[j].0@),
                        decreases fc.len() - k,
                    {
                        names.push(Json::Str(owned(fc[k].0.as_str())));
                        k += 1;
                    }
                    proof {
                        lemma_members_view(fc@);
                        lemma_items_view_ext(names@, fc_names.map_values(|n: Seq<char>| JsonV::Str(n)));
                    }
                },
                None => {
                    proof {
                        lemma_items_view_ext(names@, fc_names.map_values(|n: Seq<char>| JsonV::Str(n)));
                    }
                },
            }
            proof {
                let strs = fc_names.map_values(|n: Seq<char>| JsonV::Str(n));
                assert(strs.contains(JsonV::Str(sfn())) <==> fc_names.contains(sfn())) by {
                    if fc_names.contains(sfn()) {
                        let j = choose|j: int| 0 <= j < fc_names.len() && fc_names[j] == sfn();
                        assert(strs[j] == JsonV::Str(sfn()));
                    }
                    if strs.contains(JsonV::Str(sfn())) {
                        let j = choose|j: int| 0 <= j < strs.len() && #[trigger] strs[j] == JsonV::Str(sfn());
                        assert(fc_names[j] == sfn());
                    }
                }
            }
            push_string_unique(&mut names, "source_file_name");
            proof {
                assert(with_item(fc_names.map_values(|n: Seq<char>| JsonV::Str(n)), JsonV::Str(sfn()))
                    =~= with_name(fc_names, sfn()).map_values(|n: Seq<char>| JsonV::Str(n)));
            }
            set_member_exec(ms, "fields", Json::Array(names));
        },
    }
}

fn add_word_classifications(ms: &mut Vec<(String, Json)>)
    ensures
        members_view(final(ms)@) == with_word_classifications(members_view(old(ms)@)),
{
    match object_at(ms, "field_classifications") {
        Some((c, mut fc)) => {
            ensure_member_exec(&mut fc, "source_file_name", word_list_exec());
            ensure_member_exec(&mut fc, "visibility", word_list_exec());
            replace_items(ms, c, "field_classifications", Json::Object(fc));
        },
        None => {},
    }
}

fn add_visibility_field(ms: &mut Vec<(String, Json)>)
    ensures
        members_view(final(ms)@) == with_visibility_field(members_view(old(ms)@)),
{
    match array_at(ms, "fields") {
        Some((i, mut items)) => {
            push_string_unique(&mut items, "visibility");
            replace_items(ms, i, "fields", Json::Array(items));
        },
        None => {},
    }
}

fn add_visibility_description(ms: &mut Vec<(String, Json)>)
    ensures
        members_view(final(ms)@) == with_visibility_description(members_view(old(ms)@)),
{
    match object_at(ms, "field_descriptions") {
        Some((d, mut fd)) => {
            ensure_member_exec(
                &mut fd,
                "visibility",
                Json::Str(
                    owned(
                        "AI-classified photo visibility: public (suitable for social feed) or private (sensitive content)",
                    ),
                ),
            );
            replace_items(ms, d, "field_descriptions", Json::Object(fd));
        },
        None => {},
    }
}

fn image_schema_members(schema: &Json, descriptive_name: Option<&str>) -> (r: Vec<(String, Json)>)
    requires
        schema@ is Object || schema@ is Null,
    ensures
        members_view(r@) == image_members(
            match schema@ {
                JsonV::Object(ms) => ms,
                _ => seq![],
            },
            match descriptive_name {
                Some(d) => Some(d@),
                None => None,
            },
        ),
{
    let mut ms: Vec<(String, Json)> = match schema {
        Json::Object(ms) => copy_members(ms),
        _ => {
            let empty: Vec<(String, Json)> = Vec::new();
            proof {
                lemma_members_view(empty@);
            }
            empty
        },
    };
    set_member_exec(&mut ms, "schema_type", Json::Str(owned("Hash")));
    let mut key: Vec<(String, Json)> = Vec::new();
    key.push((owned("hash_field"), Json::Str(owned("source_file_name"))));
    proof {
        lemma_members_view(key@);
        assert(members_view(key@) =~= seq![("hash_field"@, JsonV::Str(sfn()))]);
    }
    set_member_exec(&mut ms, "key", Json::Object(key));
    add_file_name_field(&mut ms);
    add_word_classifications(&mut ms);
    add_visibility_field(&mut ms);
    add_visibility_description(&mut ms);
    match descriptive_name {
        Some(dn) => set_member_exec(&mut ms, "descriptive_name", Json::Str(owned(dn))),
        None => {},
    }
    ms
}

/// Make an AI proposal fit an image: the schema is keyed by the image's
/// file name (`Hash` on `source_file_name`), declares and classifies the
/// file name and `visibility`, describes `visibility`, takes the given
/// descriptive name, and the mappers map `source_file_name` and
/// `visibility` to themselves unless they map them already. A schema must
/// be an object or null (indexing other values by key panics).
pub fn apply_image_schema_override(ai_response: &mut AISchemaResponse, descriptive_name: Option<&str>)
    requires
        overridable(opt_view(old(ai_response).new_schemas)),
    ensures
        opt_view(final(ai_response).new_schemas) == match opt_view(old(ai_response).new_schemas) {
            Some(JsonV::Object(ms)) => Some(JsonV::Object(image_members(ms, match descriptive_name {
                Some(d) => Some(d@),
                None => None,
            }))),
            Some(JsonV::Null) => Some(JsonV::Object(image_members(seq![], match descriptive_name {
                Some(d) => Some(d@),
                None => None,
            }))),
            other => other,
        },
        pairs(final(ai_response).mutation_mappers@) == ensure_identity(
            ensure_identity(pairs(old(ai_response).mutation_mappers@), sfn()),
            "visibility"@,
        ),
{
    let updated: Option<Json> = match &ai_response.new_schemas {
        Some(schema) => Some(Json::Object(image_schema_members(schema, descriptive_name))),
        None => None,
    };
    ai_response.new_schemas = updated;
    ensure_identity_exec(&mut ai_response.mutation_mappers, "source_file_name");
    ensure_identity_exec(&mut ai_response.mutation_mappers, "visibility");
}

// ---------------------------------------------------------------------------
// Nested data, source context and schema lookups
// ---------------------------------------------------------------------------

/// The record that stands for the data: the first item of an array, or
/// the data itself.
pub open spec fn representative(j: JsonV) -> Option<JsonV> {
    match j {
        JsonV::Array(items) => if items.len() > 0 {
            Some(items[0])
        } else {
            None
        },
        _ => Some(j),
    }
}

/// The data holds arrays of objects that call for recursive decomposition:
/// its representative record has at least one child group.
pub open spec fn nested_children(j: JsonV) -> bool {
    match representative(j) {
        Some(JsonV::Object(ms)) => groups(ms).len() > 0,
        _ => false,
    }
}

/// Whether flattened data holds nested arrays of objects: decomposing its
/// representative record (the first item of an array, or the data) gives
/// child groups.
pub fn check_has_nested_children(flattened_data: &Json) -> (b: bool)
    ensures
        b == nested_children(flattened_data@),
{
    let rep = match flattened_data {
        Json::Array(items) => {
            proof {
                lemma_items_view(items@);
            }
            if items.len() == 0 {
                return false;
            }
            &items[0]
        },
        _ => flattened_data,
    };
    let r = decompose(rep);
    r.children.len() > 0
}

/// A text-file wrapper or code metadata (an object with `file_type` and
/// `content` or `source_file`) with its source file set to the full path
/// and, when the path names a directory, a category (unless it has one).
pub open spec fn enriched_members(ms: Seq<(Seq<char>, JsonV)>, source: Seq<char>) -> Seq<(Seq<char>, JsonV)> {
    if first_key_index(ms, "file_type"@) is None || (first_key_index(ms, "content"@) is None
        && first_key_index(ms, "source_file"@) is None) {
        ms
    } else {
        let m1 = set_member(ms, "source_file"@, JsonV::Str(source));
        match category_hint(source) {
            Some(c) => ensure_member(m1, "category"@, JsonV::Str(c)),
            None => m1,
        }
    }
}

/// The data with its text-file wrappers and code metadata (the object, or
/// the objects of an array) given the request's source path; unchanged
/// without a non-empty path.
pub open spec fn enriched(j: JsonV, source: Option<Seq<char>>) -> JsonV {
    match source {
        Some(src) => if src.len() == 0 {
            j
        } else {
            match j {
                JsonV::Array(items) => JsonV::Array(
                    items.map_values(
                        |it: JsonV|
                            match it {
                                JsonV::Object(ms) => JsonV::Object(enriched_members(ms, src)),
                                _ => it,
                            },
                    ),
                ),
                JsonV::Object(ms) => JsonV::Object(enriched_members(ms, src)),
                _ => j,
            }
        },
        None => j,
    }
}

fn enrich_members(ms: &mut Vec<(String, Json)>, source: &str, category: &Option<String>)
    requires
        match category {
            Some(c) => category_hint(source@) == Some(c@),
            None => category_hint(source@) is None,
        },
    ensures
        members_view(final(ms)@) == enriched_members(members_view(old(ms)@), source@),
{
    proof {
        lemma_members_view(ms@);
    }
    if member_index(ms, "file_type").is_none() {
        return;
    }
    if member_index(ms, "content").is_none() && member_index(ms, "source_file").is_none() {
        return;
    }
    set_member_exec(ms, "source_file", Json::Str(owned(source)));
    match category {
        Some(c) => ensure_member_exec(ms, "category", Json::Str(owned(c.as_str()))),
        None => {},
    }
}

/// Give text-file wrappers and code metadata their request's full source
/// path (`recipes/cookies.txt` rather than `cookies.txt`) and the category
/// its directory names, so the model can name the schema by topic.
pub fn enrich_with_source_context(data: &mut Json, source_file_name: Option<&str>)
    ensures
        final(data)@ == enriched(old(data)@, match source_file_name {
            Some(s) => Some(s@),
            None => None,
        }),
{
    let source = match source_file_name {
        Some(s) => s,
        None => {
            return;
        },
    };
    if source.is_empty() {
        return;
    }
    let category = derive_category_hint(source);
    let updated = match &*data {
        Json::Array(items) => {
            let ghost w = items_view(items@).map_values(
                |it: JsonV|
                    match it {
                        JsonV::Object(ms) => JsonV::Object(enriched_members(ms, source@)),
                        _ => it,
                    },
            );
            proof {
                lemma_items_view(items@);
            }
            let mut out: Vec<Json> = Vec::new();
            let mut i: usize = 0;
            while i < items.len()
                invariant
                    i <= items@.len(),
                    out@.len() == i,
                    w.len() == items@.len(),
                    match category {
                        Some(c) => category_hint(source@) == Some(c@),
                        None => category_hint(source@) is None,
                    },
                    forall|k: int| 0 <= k < items@.len() ==> #[trigger] w[k] == match json_view(items@[k]) {
                        JsonV::Object(ms) => JsonV::Object(enriched_members(ms, source@)),
                        other => other,
                    },
                    forall|k: int| 0 <= k < i ==> json_view(#[trigger] out@[k]) == w[k],
                decreases items.len() - i,
            {
                let item = match &items[i] {
                    Json::Object(ms) => {
                        let mut m = copy_members(ms);
                        enrich_members(&mut m, source, &category);
                        Json::Object(m)
                    },
                    other => copy_json(other),
                };
                out.push(item);
                i += 1;
            }
            proof {
                lemma_items_view_ext(out@, w);
            }
            Json::Array(out)
        },
        Json::Object(ms) => {
            let mut m = copy_members(ms);
            enrich_members(&mut m, source, &category);
            Json::Object(m)
        },
        _ => {
            return;
        },
    };
    *data = updated;
}

/// What a proposed schema is looked up by when reusing schemas across a
/// batch: its descriptive name and field names.
#[derive(Clone, Debug, PartialEq, Eq)]
pub struct SchemaLookupEntry {
    pub descriptive_name: String,
    pub fields: Vec<String>,
}

/// The lookup entry of a proposal: its schema's descriptive name, and the
/// names in its field list (or, without one, of its field
/// classifications); none without a schema, a descriptive name, or either
/// list.
pub open spec fn lookup_entry(ns: Option<JsonV>) -> Option<(Seq<char>, Seq<Seq<char>>)> {
    match ns {
        Some(schema) => match get(schema, "descriptive_name"@) {
            Some(JsonV::Str(name)) => match get(schema, "fields"@) {
                Some(JsonV::Array(items)) => Some((name, str_items(items))),
                _ => match get(schema, "field_classifications"@) {
                    Some(JsonV::Object(fc)) => Some((name, fc.map_values(|p: (Seq<char>, JsonV)| p.0))),
                    _ => None,
                },
            },
            _ => None,
        },
        None => None,
    }
}

/// The lookup entry of a proposal, for checking whether a batch can reuse
/// an existing schema.
pub fn extract_lookup_entry(ai_response: &AISchemaResponse) -> (r: Option<SchemaLookupEntry>)
    ensures
        match lookup_entry(opt_view(ai_response.new_schemas)) {
            Some((name, fields)) => r matches Some(e) && e.descriptive_name@ == name
                && e.fields@.map_values(|f: String| f@) == fields,
            None => r is None,
        },
{
    let schema = match &ai_response.new_schemas {
        Some(s) => s,
        None => {
            return None;
        },
    };
    let ms = match schema {
        Json::Object(ms) => ms,
        _ => {
            return None;
        },
    };
    proof {
        lemma_members_view(ms@);
    }
    let name = match member_index(ms, "descriptive_name") {
        Some(i) => match &ms[i].1 {
            Json::Str(n) => owned(n.as_str()),
            _ => {
                return None;
            },
        },
        None => {
            return None;
        },
    };
    let fields = match array_at(ms, "fields") {
        Some((_, items)) => string_list(&items),
        None => match object_at(ms, "field_classifications") {
            Some((_, fc)) => {
                let mut out: Vec<String> = Vec::new();
                let mut k: usize = 0;
                proof {
                    lemma_members_view(fc@);
                }
                while k < fc.len()
                    invariant
                        k <= fc@.len(),
                        out@.len() == k,
                        forall|j: int| 0 <= j < k ==> (#[trigger] out@[j])@ == fc@[j].0@,
                    decreases fc.len() - k,
                {
                    out.push(owned(fc[k].0.as_str()));
                    k += 1;
                }
                proof {
                    lemma_members_view(fc@);
                    assert(out@.map_values(|f: String| f@) =~= members_view(fc@).map_values(
                        |p: (Seq<char>, JsonV)| p.0,
                    ));
                }
                out
            },
            None => {
                return None;
            },
        },
    };
    Some(SchemaLookupEntry { descriptive_name: name, fields })
}

fn string_list(items: &Vec<Json>) -> (r: Vec<String>)
    ensures
        r@.map_values(|f: String| f@) == str_items(items_view(items@)),
{
    let ghost iv = items_view(items@);
    proof {
        lemma_items_view(items@);
        assert(iv.take(0) =~= Seq::<JsonV>::empty());
    }
    let mut out: Vec<String> = Vec::new();
    let mut i: usize = 0;
    while i < items.len()
        invariant
            i <= items@.len(),
            iv == items_view(items@),
            iv.len() == items@.len(),
            forall|k: int| 0 <= k < items@.len() ==> #[trigger] iv[k] == json_view(items@[k]),
            out@.map_values(|f: String| f@) == str_items(iv.take(i as int)),
        decreases items.len() - i,
    {
        proof {
            assert(iv.take(i + 1).drop_last() =~= iv.take(i as int));
            assert(iv.take(i + 1).last() == iv[i as int]);
        }
        match &items[i] {
            Json::Str(s) => {
                let c = owned(s.as_str());
                proof {
                    assert(out@.push(c).map_values(|f: String| f@) =~= out@.map_values(|f: String| f@).push(c@));
                }
                out.push(c);
            },
            _ => {},
        }
        i += 1;
    }
    proof {
        assert(iv.take(items@.len() as int) =~= iv);
    }
    out
}

// ---------------------------------------------------------------------------
// Field descriptions the model left out
// ---------------------------------------------------------------------------

/// The declared fields (the strings of `fields`) that `field_descriptions`
/// does not describe, in order; every declared field when there are no
/// descriptions.
pub open spec fn undescribed(schema: JsonV) -> Seq<Seq<char>> {
    let fields = match get(schema, "fields"@) {
        Some(JsonV::Array(items)) => str_items(items),
        _ => seq![],
    };
    let described = match get(schema, "field_descriptions"@) {
        Some(JsonV::Object(fd)) => fd,
        _ => seq![],
    };
    fields.filter(|f: Seq<char>| first_key_index(described, f) is None)
}

/// The fields of a proposed schema that have no description, for which
/// the model is asked once more.
pub fn missing_field_descriptions(schema: &Json) -> (r: Vec<String>)
    ensures
        r@.map_values(|f: String| f@) == undescribed(schema@),
{
    let mut out: Vec<String> = Vec::new();
    let ms = match schema {
        Json::Object(ms) => ms,
        _ => {
            proof {
                assert(out@.map_values(|f: String| f@) =~= undescribed(schema@));
            }
            return out;
        },
    };
    proof {
        lemma_members_view(ms@);
    }
    let fields = match array_at(ms, "fields") {
        Some((_, items)) => string_list(&items),
        None => Vec::new(),
    };
    let described: Vec<(String, Json)> = match object_at(ms, "field_descriptions") {
        Some((_, fd)) => fd,
        None => {
            let e: Vec<(String, Json)> = Vec::new();
            proof {
                lemma_members_view(e@);
                assert(members_view(e@) =~= Seq::<(Seq<char>, JsonV)>::empty());
            }
            e
        },
    };
    let ghost fv = fields@.map_values(|f: String| f@);
    let ghost dv = members_view(described@);
    proof {
        reveal(Seq::filter);
        assert(fv.take(0).filter(|f: Seq<char>| first_key_index(dv, f) is None) =~= Seq::<Seq<char>>::empty());
        assert(fv == match get(schema@, "fields"@) {
            Some(JsonV::Array(items)) => str_items(items),
            _ => seq![],
        });
    }
    let mut i: usize = 0;
    while i < fields.len()
        invariant
            i <= fields@.len(),
            fv == fields@.map_values(|f: String| f@),
            dv == members_view(described@),
            out@.map_values(|f: String| f@) == fv.take(i as int).filter(
                |f: Seq<char>| first_key_index(dv, f) is None,
            ),
        decreases fields.len() - i,
    {
        proof {
            assert(fv.take(i + 1).drop_last() =~= fv.take(i as int));
            fv.take(i as int).lemma_filter_push(fv[i as int], |f: Seq<char>| first_key_index(dv, f) is None);
            assert(fv.take(i as int).push(fv[i as int]) =~= fv.take(i + 1));
        }
        if member_index(&described, fields[i].as_str()).is_none() {
            let c = owned(fields[i].as_str());
            proof {
                assert(out@.push(c).map_values(|f: String| f@) =~= out@.map_values(|f: String| f@).push(c@));
            }
            out.push(c);
        }
        i += 1;
    }
    proof {
        assert(fv.take(fields@.len() as int) =~= fv);
    }
    out
}

/// The sample shown to the model when asking for descriptions: the first
/// two items of an array (or the data), with long strings shortened.
pub open spec fn description_sample(data: JsonV) -> JsonV {
    truncated(
        match data {
            JsonV::Array(items) => JsonV::Array(items.take(if items.len() < 2 { items.len() as int } else { 2 })),
            _ => data,
        },
    )
}

/// The sample of the data shown to the model when asking for field
/// descriptions.
pub fn field_description_sample(json_data: &Json) -> (r: Json)
    ensures
        r@ == description_sample(json_data@),
{
    let raw = match json_data {
        Json::Array(items) => {
            proof {
                lemma_items_view(items@);
            }
            let n: usize = if items.len() < 2 {
                items.len()
            } else {
                2
            };
            let mut out: Vec<Json> = Vec::new();
            let mut k: usize = 0;
            while k < n
                invariant
                    k <= n <= items@.len(),
                    out@.len() == k,
                    forall|j: int| 0 <= j < k ==> json_view(#[trigger] out@[j]) == json_view(items@[j]),
                decreases n - k,
            {
                out.push(copy_json(&items[k]));
                k += 1;
            }
            proof {
                lemma_items_view_ext(out@, items_view(items@).take(n as int));
            }
            Json::Array(out)
        },
        _ => copy_json(json_data),
    };
    truncate_long_strings(&raw)
}

/// The descriptions that are strings added, in order, for fields that
/// have none.
pub open spec fn added_descriptions(fd: Seq<(Seq<char>, JsonV)>, descs: Seq<(Seq<char>, JsonV)>) -> Seq<(Seq<char>, JsonV)>
    decreases descs.len(),
{
    if descs.len() == 0 {
        fd
    } else {
        let m = added_descriptions(fd, descs.drop_last());
        match descs.last().1 {
            JsonV::Str(_) => ensure_member(m, descs.last().0, descs.last().1),
            _ => m,
        }
    }
}

/// A schema's members with the model's descriptions merged in: a
/// `field_descriptions` object made when there is none, and each string
/// description added for a field without one.
pub open spec fn with_descriptions(ms: Seq<(Seq<char>, JsonV)>, descs: Seq<(Seq<char>, JsonV)>) -> Seq<(Seq<char>, JsonV)> {
    let m1 = ensure_member(ms, "field_descriptions"@, JsonV::Object(seq![]));
    match first_member(m1, "field_descriptions"@) {
        Some(JsonV::Object(fd)) => replace_member(
            m1,
            "field_descriptions"@,
            JsonV::Object(added_descriptions(fd, descs)),
        ),
        _ => m1,
    }
}

/// Merge the descriptions the model gave (the members of the object it
/// answered with) into a proposed schema: only string descriptions, and
/// only for fields without one. The schema must be an object.
pub fn merge_field_descriptions(schema: &mut Json, descriptions: &Vec<(String, Json)>) -> (r: Result<(), IngestionError>)
    ensures
        match old(schema)@ {
            JsonV::Object(ms) => r is Ok && final(schema)@ == JsonV::Object(with_descriptions(ms, members_view(descriptions@))),
            _ => (r matches Err(IngestionError::AIResponseValidationError(m)) && m@
                == "new_schemas must be a JSON object to backfill field_descriptions"@) && final(schema)@ == old(schema)@,
        },
{
    let mut ms = match &*schema {
        Json::Object(ms) => copy_members(ms),
        _ => {
            return Err(
                IngestionError::AIResponseValidationError(
                    owned("new_schemas must be a JSON object to backfill field_descriptions"),
                ),
            );
        },
    };
    let empty: Vec<(String, Json)> = Vec::new();
    proof {
        lemma_members_view(empty@);
        assert(members_view(empty@) =~= Seq::<(Seq<char>, JsonV)>::empty());
    }
    ensure_member_exec(&mut ms, "field_descriptions", Json::Object(empty));
    match object_at(&ms, "field_descriptions") {
        Some((d, mut fd)) => {
            let ghost dv = members_view(descriptions@);
            let ghost start = members_view(fd@);
            proof {
                lemma_members_view(descriptions@);
                assert(dv.take(0) =~= Seq::<(Seq<char>, JsonV)>::empty());
            }
            let mut i: usize = 0;
            while i < descriptions.len()
                invariant
                    i <= descriptions@.len(),
                    dv == members_view(descriptions@),
                    dv.len() == descriptions@.len(),
                    forall|k: int| 0 <= k < descriptions@.len() ==> #[trigger] dv[k] == (descriptions@[k].0@, json_view(descriptions@[k].1)),
                    members_view(fd@) == added_descriptions(start, dv.take(i as int)),
                decreases descriptions.len() - i,
            {
                proof {
                    assert(dv.take(i + 1).drop_last() =~= dv.take(i as int));
                    assert(dv.take(i + 1).last() == dv[i as int]);
                }
                match &descriptions[i].1 {
                    Json::Str(t) => {
                        ensure_member_exec(&mut fd, descriptions[i].0.as_str(), Json::Str(owned(t.as_str())));
                    },
                    _ => {},
                }
                i += 1;
            }
            proof {
                assert(dv.take(descriptions@.len() as int) =~= dv);
            }
            replace_items(&mut ms, d, "field_descriptions", Json::Object(fd));
        },
        None => {},
    }
    *schema = Json::Object(ms);
    Ok(())
}

// ---------------------------------------------------------------------------
// Content hashes
// ---------------------------------------------------------------------------

/// One line `key:value` per key, in the order given, each value the compact
/// JSON text of the first member with that key.
pub open spec fn field_lines(keys: Seq<Seq<char>>, ms: Seq<(Seq<char>, JsonV)>) -> Seq<char>
    decreases keys.len(),
{
    if keys.len() == 0 {
        seq![]
    } else {
        field_lines(keys.drop_last(), ms) + keys.last() + ":"@ + match first_member(ms, keys.last()) {
            Some(v) => json_text(v),
            None => seq![],
        } + "\n"@
    }
}

/// The text a record's content hash is taken of: its `content` text (or,
/// when it has no `content` member, its `body` text); failing that, one
/// line per member, keys sorted, so that records that differ in any value
/// differ in it.
pub open spec fn hash_input(ms: Seq<(Seq<char>, JsonV)>) -> Seq<char> {
    let text = match first_member(ms, "content"@) {
        Some(v) => str_of(Some(v)),
        None => str_of(first_member(ms, "body"@)),
    };
    match text {
        Some(t) => t,
        None => field_lines(sorted_texts(keys_of(JsonV::Object(ms))), ms),
    }
}

/// The first 16 hexadecimal digits of the SHA-256 of the hash input.
pub open spec fn content_hash_of(ms: Seq<(Seq<char>, JsonV)>) -> Seq<char> {
    hex_lower(sha256_digest(encode_utf8(hash_input(ms)))).take(16)
}

/// The record with its `content_hash` member set.
pub open spec fn with_content_hash(ms: Seq<(Seq<char>, JsonV)>) -> Seq<(Seq<char>, JsonV)> {
    set_member(ms, "content_hash"@, JsonV::Str(content_hash_of(ms)))
}

/// The text of a string member, if the object has one with key `k`.
fn text_member(obj: &Vec<(String, Json)>, k: &str) -> (r: Option<String>)
    ensures
        opt_string(r) == str_of(first_member(members_view(obj@), k@)),
{
    match member_index(obj, k) {
        Some(i) => match &obj[i].1 {
            Json::Str(t) => Some(owned(t.as_str())),
            _ => None,
        },
        None => None,
    }
}

/// The view of an optional string.
pub open spec fn opt_string(o: Option<String>) -> Option<Seq<char>> {
    match o {
        Some(s) => Some(s@),
        None => None,
    }
}

/// The hash input of a record: see [`hash_input`].
fn content_hash_input(obj: &Vec<(String, Json)>) -> (r: String)
    ensures
        r@ == hash_input(members_view(obj@)),
{
    let ghost mv = members_view(obj@);
    proof {
        lemma_members_view(obj@);
    }
    let text = match member_index(obj, "content") {
        Some(_) => text_member(obj, "content"),
        None => text_member(obj, "body"),
    };
    match text {
        Some(t) => {
            return t;
        },
        None => {},
    }
    let mut names: Vec<String> = Vec::new();
    let mut i: usize = 0;
    while i < obj.len()
        invariant
            i <= obj@.len(),
            mv == members_view(obj@),
            mv.len() == obj@.len(),
            forall|k: int| 0 <= k < obj@.len() ==> #[trigger] mv[k] == (obj@[k].0@, json_view(obj@[k].1)),
            names@.len() == i,
            forall|k: int| 0 <= k < i ==> (#[trigger] names@[k])@ == obj@[k].0@,
        decreases obj.len() - i,
    {
        names.push(owned(obj[i].0.as_str()));
        i += 1;
    }
    proof {
        assert(names@.map_values(|x: String| x@) =~= keys_of(JsonV::Object(mv)));
    }
    let sorted = sort_texts(&names);
    let ghost keys = sorted@.map_values(|x: String| x@);
    let mut parts = String::new();
    let mut j: usize = 0;
    proof {
        reveal_strlit(":");
        reveal_strlit("\n");
        assert(keys.take(0) =~= Seq::<Seq<char>>::empty());
    }
    while j < sorted.len()
        invariant
            j <= sorted@.len(),
            mv == members_view(obj@),
            keys == sorted@.map_values(|x: String| x@),
            parts@ == field_lines(keys.take(j as int), mv),
        decreases sorted.len() - j,
    {
        proof {
            assert(keys.take(j + 1).drop_last() =~= keys.take(j as int));
            assert(keys.take(j + 1).last() == sorted@[j as int]@);
        }
        push_str(&mut parts, sorted[j].as_str());
        push_str(&mut parts, ":");
        match member_index(obj, sorted[j].as_str()) {
            Some(m) => {
                let t = to_json_text(&obj[m].1);
                push_str(&mut parts, t.as_str());
            },
            None => {},
        }
        push_str(&mut parts, "\n");
        proof {
            assert(parts@ =~= field_lines(keys.take(j + 1), mv));
        }
        j += 1;
    }
    proof {
        assert(keys.take(sorted@.len() as int) =~= keys);
    }
    parts
}

/// Give a record a `content_hash`: the first 16 hexadecimal digits of the
/// SHA-256 of its `content` or `body` text, or, for structured records
/// without either, of all its members with keys sorted.
pub fn inject_content_hash(obj: &mut Vec<(String, Json)>)
    ensures
        members_view(final(obj)@) == with_content_hash(members_view(old(obj)@)),
{
    let input = content_hash_input(obj);
    let s = input.as_str();
    proof {
        assert(s.spec_bytes() == encode_utf8(s@));
    }
    let h = sha256_hex(s);
    let hc = chars_of(h.as_str());
    let short = string_of(&subvec(&hc, 0, 16));
    proof {
        assert(short@ =~= content_hash_of(members_view(obj@)));
    }
    set_member_exec(obj, "content_hash", Json::Str(short));
}

/// What [`inject_content_hashes`] makes of a value.
pub open spec fn with_content_hashes(j: JsonV) -> JsonV {
    match j {
        JsonV::Array(items) => JsonV::Array(
            items.map_values(
                |x: JsonV|
                    match x {
                        JsonV::Object(ms) => JsonV::Object(with_content_hash(ms)),
                        _ => x,
                    },
            ),
        ),
        JsonV::Object(ms) => JsonV::Object(with_content_hash(ms)),
        _ => j,
    }
}

/// Give every object of an array, or a single object, its `content_hash`.
pub fn inject_content_hashes(data: &mut Json)
    ensures
        final(data)@ == with_content_hashes(old(data)@),
{
    let ghost before = data@;
    match data {
        Json::Array(items) => {
            let ghost start = items@;
            proof {
                lemma_items_view(start);
            }
            let mut out: Vec<Json> = Vec::new();
            let mut i: usize = 0;
            while i < items.len()
                invariant
                    i <= items@.len(),
                    items@ == start,
                    out@.len() == i,
                    forall|k: int|
                        0 <= k < i ==> json_view(#[trigger] out@[k]) == match json_view(start[k]) {
                            JsonV::Object(ms) => JsonV::Object(with_content_hash(ms)),
                            x => x,
                        },
                decreases items.len() - i,
            {
                let mut item = copy_json(&items[i]);
                match &mut item {
                    Json::Object(ms) => {
                        inject_content_hash(ms);
                    },
                    _ => {},
                }
                out.push(item);
                i += 1;
            }
            proof {
                lemma_items_view_ext(
                    out@,
                    items_view(start).map_values(
                        |x: JsonV|
                            match x {
                                JsonV::Object(ms) => JsonV::Object(with_content_hash(ms)),
                                _ => x,
                            },
                    ),
                );
            }
            *items = out;
        },
        Json::Object(ms) => {
            inject_content_hash(ms);
        },
        _ => {},
    }
}

proof fn lemma_field_lines_same(keys: Seq<Seq<char>>, a: Seq<(Seq<char>, JsonV)>, b: Seq<(Seq<char>, JsonV)>)
    requires
        forall|k: Seq<char>| #[trigger] first_member(a, k) == first_member(b, k),
    ensures
        field_lines(keys, a) == field_lines(keys, b),
    decreases keys.len(),
{
    if keys.len() > 0 {
        lemma_field_lines_same(keys.drop_last(), a, b);
        assert(first_member(a, keys.last()) == first_member(b, keys.last()));
    }
}

/// A record's content hash does not depend on the order of its members:
/// two records with the same field names, in any order, and the same
/// value under each name get the same hash.
pub proof fn law_content_hash_ignores_member_order(a: Seq<(Seq<char>, JsonV)>, b: Seq<(Seq<char>, JsonV)>)
    requires
        keys_of(JsonV::Object(a)).to_multiset() == keys_of(JsonV::Object(b)).to_multiset(),
        forall|k: Seq<char>| #[trigger] first_member(a, k) == first_member(b, k),
    ensures
        content_hash_of(a) == content_hash_of(b),
{
    let ka = keys_of(JsonV::Object(a));
    let kb = keys_of(JsonV::Object(b));
    lemma_sorted_texts(ka);
    lemma_sorted_texts(kb);
    lemma_sorted_unique(sorted_texts(ka), sorted_texts(kb));
    lemma_field_lines_same(sorted_texts(ka), a, b);
    assert(first_member(a, "content"@) == first_member(b, "content"@));
    assert(first_member(a, "body"@) == first_member(b, "body"@));
}

// ---------------------------------------------------------------------------
// Input
// ---------------------------------------------------------------------------

/// The message for ingestion input that is not a JSON object or array,
/// if it is not.
pub open spec fn input_error(data: JsonV) -> Option<Seq<char>> {
    match data {
        JsonV::Null => Some("Input data cannot be null"@),
        JsonV::Object(_) => None,
        JsonV::Array(_) => None,
        _ => Some("Input data must be a JSON object or array"@),
    }
}

/// Check that ingestion input is a JSON object or array.
pub fn validate_input(data: &Json) -> (r: Result<(), IngestionError>)
    ensures
        match input_error(data@) {
            None => r is Ok,
            Some(m) => r matches Err(IngestionError::InvalidInput(x)) && x@ == m,
        },
{
    match data {
        Json::Null => Err(IngestionError::InvalidInput(owned("Input data cannot be null"))),
        Json::Object(_) => Ok(()),
        Json::Array(_) => Ok(()),
        _ => Err(IngestionError::InvalidInput(owned("Input data must be a JSON object or array"))),
    }
}

} // verus!
