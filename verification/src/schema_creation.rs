//! Completing a schema before it is registered: every declared field gets
//! a description, a classification and a data classification, the schema
//! gets a key, and a placeholder name gives way to the identity hash.

use crate::ai_schema::{first_key_index, first_member, get, member_index, str_items};
use crate::json::{
    copy_json, items_view, json_view, lemma_items_view, lemma_members_view, lemma_members_view_ext,
    members_view, Json, JsonV,
};
use crate::error::IngestionError;
use crate::apple::records::{join_strings, join_with};
use crate::mutation_prep::{lemma_first_member_push, maps_field};
use crate::schema_cache::pairs;
use crate::text::{chars_of, owned, push_char, push_str, str_eq, trim_seq, trim_string};
use vstd::prelude::*;

verus! {

/// The classification of a field that has none: sensitivity level 1 in
/// the general domain.
pub open spec fn default_classification() -> JsonV {
    JsonV::Object(
        seq![("data_domain"@, JsonV::Str("general"@)), ("sensitivity_level"@, JsonV::Number("1"@))],
    )
}

fn default_classification_exec() -> (r: Json)
    ensures
        r@ == default_classification(),
{
    let mut ms: Vec<(String, Json)> = Vec::new();
    ms.push((owned("data_domain"), Json::Str(owned("general"))));
    ms.push((owned("sensitivity_level"), Json::Number(owned("1"))));
    proof {
        lemma_members_view(ms@);
        assert(members_view(ms@) =~= seq![
            ("data_domain"@, JsonV::Str("general"@)),
            ("sensitivity_level"@, JsonV::Number("1"@)),
        ]);
    }
    Json::Object(ms)
}

/// Some member has the key `k`.
pub open spec fn has_member(ms: Seq<(Seq<char>, JsonV)>, k: Seq<char>) -> bool {
    exists|i: int| 0 <= i < ms.len() && ms[i].0 == k
}

/// The classifications with the default appended for each name that has
/// none yet.
pub open spec fn classified(cms: Seq<(Seq<char>, JsonV)>, names: Seq<Seq<char>>) -> Seq<
    (Seq<char>, JsonV),
>
    decreases names.len(),
{
    if names.len() == 0 {
        cms
    } else {
        let m = classified(cms, names.drop_last());
        if has_member(m, names.last()) {
            m
        } else {
            m.push((names.last(), default_classification()))
        }
    }
}

/// The names among a schema's `fields`.
pub open spec fn field_names(j: JsonV) -> Seq<Seq<char>> {
    match get(j, "fields"@) {
        Some(JsonV::Array(items)) => str_items(items),
        _ => seq![],
    }
}

/// A schema whose declared fields all have a data classification: missing
/// entries get the default; an absent or null map is made first. Other
/// values, schemas without field names, and schemas whose map is neither
/// an object nor null stay as they are.
pub open spec fn with_classifications(j: JsonV) -> JsonV {
    match j {
        JsonV::Object(ms) => if field_names(j).len() == 0 {
            j
        } else {
            match first_key_index(ms, "field_data_classifications"@) {
                None => JsonV::Object(
                    ms.push(
                        (
                            "field_data_classifications"@,
                            JsonV::Object(classified(seq![], field_names(j))),
                        ),
                    ),
                ),
                Some(i) => match ms[i].1 {
                    JsonV::Null => JsonV::Object(
                        ms.update(i, (ms[i].0, JsonV::Object(classified(seq![], field_names(j))))),
                    ),
                    JsonV::Object(cms) => JsonV::Object(
                        ms.update(i, (ms[i].0, JsonV::Object(classified(cms, field_names(j))))),
                    ),
                    _ => j,
                },
            }
        },
        _ => j,
    }
}

fn string_items(items: &Vec<Json>) -> (r: Vec<String>)
    ensures
        r@.map_values(|x: String| x@) == str_items(items_view(items@)),
{
    let ghost iv = items_view(items@);
    proof {
        lemma_items_view(items@);
        assert(iv.take(0) =~= Seq::<JsonV>::empty());
    }
    let mut out: Vec<String> = Vec::new();
    let mut i: usize = 0;
    while i < items.len()
        invariant
            i <= items@.len(),
            iv == items_view(items@),
            iv.len() == items@.len(),
            forall|k: int| 0 <= k < items@.len() ==> #[trigger] iv[k] == json_view(items@[k]),
            out@.map_values(|x: String| x@) == str_items(iv.take(i as int)),
        decreases items.len() - i,
    {
        proof {
            assert(iv.take(i + 1).drop_last() =~= iv.take(i as int));
            assert(iv.take(i + 1).last() == iv[i as int]);
        }
        match &items[i] {
            Json::Str(s) => {
                let c = owned(s.as_str());
                proof {
                    assert(out@.push(c).map_values(|x: String| x@) =~= out@.map_values(
                        |x: String| x@,
                    ).push(c@));
                }
                out.push(c);
            },
            _ => {},
        }
        i += 1;
    }
    proof {
        assert(iv.take(items@.len() as int) =~= iv);
    }
    out
}

pub(crate) fn copy_members(ms: &Vec<(String, Json)>) -> (r: Vec<(String, Json)>)
    ensures
        members_view(r@) == members_view(ms@),
{
    proof {
        lemma_members_view(ms@);
    }
    let mut out: Vec<(String, Json)> = Vec::new();
    let mut i: usize = 0;
    while i < ms.len()
        invariant
            i <= ms@.len(),
            out@.len() == i,
            members_view(ms@).len() == ms@.len(),
            forall|j: int| 0 <= j < ms@.len() ==> #[trigger] members_view(ms@)[j] == (ms@[j].0@, json_view(ms@[j].1)),
            forall|j: int|
                0 <= j < i ==> (#[trigger] out@[j]).0@ == ms@[j].0@ && json_view(out@[j].1) == json_view(
                    ms@[j].1,
                ),
        decreases ms.len() - i,
    {
        out.push((owned(ms[i].0.as_str()), copy_json(&ms[i].1)));
        i += 1;
    }
    proof {
        lemma_members_view_ext(out@, members_view(ms@));
    }
    out
}

fn has_member_exec(ms: &Vec<(String, Json)>, k: &str) -> (b: bool)
    ensures
        b == has_member(members_view(ms@), k@),
{
    proof {
        lemma_members_view(ms@);
    }
    let mut i: usize = 0;
    while i < ms.len()
        invariant
            i <= ms@.len(),
            members_view(ms@).len() == ms@.len(),
            forall|j: int| 0 <= j < ms@.len() ==> #[trigger] members_view(ms@)[j] == (ms@[j].0@, json_view(ms@[j].1)),
            forall|j: int| 0 <= j < i ==> ms@[j].0@ != k@,
        decreases ms.len() - i,
    {
        if str_eq(ms[i].0.as_str(), k) {
            assert(members_view(ms@)[i as int].0 == k@);
            return true;
        }
        i += 1;
    }
    proof {
        if has_member(members_view(ms@), k@) {
            let j = choose|j: int| 0 <= j < members_view(ms@).len() && members_view(ms@)[j].0 == k@;
            assert(members_view(ms@)[j].0 == ms@[j].0@);
        }
    }
    false
}

fn classify(cms: Vec<(String, Json)>, names: &Vec<String>) -> (r: Vec<(String, Json)>)
    ensures
        members_view(r@) == classified(members_view(cms@), names@.map_values(|x: String| x@)),
{
    let ghost start = members_view(cms@);
    let ghost nv = names@.map_values(|x: String| x@);
    let mut out = cms;
    let mut i: usize = 0;
    proof {
        assert(nv.take(0) =~= Seq::<Seq<char>>::empty());
    }
    while i < names.len()
        invariant
            i <= names@.len(),
            nv == names@.map_values(|x: String| x@),
            members_view(out@) == classified(start, nv.take(i as int)),
        decreases names.len() - i,
    {
        proof {
            assert(nv.take(i + 1).drop_last() =~= nv.take(i as int));
            assert(nv.take(i + 1).last() == names@[i as int]@);
        }
        if !has_member_exec(&out, names[i].as_str()) {
            let d = default_classification_exec();
            let ghost before = out@;
            out.push((owned(names[i].as_str()), d));
            proof {
                lemma_members_view(before);
                lemma_members_view(out@);
                assert(out@.drop_last() =~= before);
                assert(members_view(out@) =~= members_view(before).push(
                    (names@[i as int]@, default_classification()),
                ));
            }
        }
        i += 1;
    }
    proof {
        assert(nv.take(names@.len() as int) =~= nv);
    }
    out
}

proof fn lemma_members_update(s: Seq<(String, Json)>, i: int, p: (String, Json))
    requires
        0 <= i < s.len(),
    ensures
        members_view(s.update(i, p)) == members_view(s).update(i, (p.0@, json_view(p.1))),
{
    lemma_members_view(s);
    lemma_members_view_ext(s.update(i, p), members_view(s).update(i, (p.0@, json_view(p.1))));
}

/// Give every field declared in a schema's `fields` a data classification
/// (sensitivity level 1, domain "general") where `field_data_classifications`
/// has none, making that map first when it is absent or null. Schemas whose
/// classifications are already complete, that declare no fields, or that
/// are not objects, stay as they are.
pub fn backfill_field_data_classifications(schema_value: &mut Json)
    ensures
        final(schema_value)@ == with_classifications(old(schema_value)@),
{
    let updated = match &*schema_value {
        Json::Object(ms) => {
            proof {
                lemma_members_view(ms@);
            }
            let names = match member_index(ms, "fields") {
                Some(f) => match &ms[f].1 {
                    Json::Array(items) => string_items(items),
                    _ => Vec::new(),
                },
                None => Vec::new(),
            };
            proof {
                assert(names@.map_values(|x: String| x@) =~= field_names(json_view(*schema_value)));
            }
            if names.len() == 0 {
                return;
            }
            let mut out = copy_members(ms);
            proof {
                lemma_members_view(out@);
                assert(out@.len() == ms@.len());
            }
            match member_index(ms, "field_data_classifications") {
                None => {
                    let c = classify(Vec::new(), &names);
                    proof {
                        lemma_members_view(Seq::<(String, Json)>::empty());
                        assert(members_view(Seq::<(String, Json)>::empty()) =~= Seq::<
                            (Seq<char>, JsonV),
                        >::empty());
                    }
                    let ghost before = out@;
                    out.push((owned("field_data_classifications"), Json::Object(c)));
                    proof {
                        lemma_members_view(before);
                        lemma_members_view(out@);
                        assert(out@.drop_last() =~= before);
                        assert(members_view(out@) =~= members_view(before).push(
                            ("field_data_classifications"@, json_view(out@.last().1)),
                        ));
                    }
                    Json::Object(out)
                },
                Some(i) => {
                    let replacement = match &ms[i].1 {
                        Json::Null => {
                            proof {
                                lemma_members_view(Seq::<(String, Json)>::empty());
                                assert(members_view(Seq::<(String, Json)>::empty()) =~= Seq::<
                                    (Seq<char>, JsonV),
                                >::empty());
                            }
                            classify(Vec::new(), &names)
                        },
                        Json::Object(cms) => classify(copy_members(cms), &names),
                        _ => {
                            return;
                        },
                    };
                    let ghost before = out@;
                    let p = (owned(ms[i].0.as_str()), Json::Object(replacement));
                    proof {
                        lemma_members_update(before, i as int, p);
                    }
                    out.set(i, p);
                    Json::Object(out)
                },
            }
        },
        _ => {
            return;
        },
    };
    *schema_value = updated;
}

// ---------------------------------------------------------------------------
// Defaults for a proposed schema
// ---------------------------------------------------------------------------

/// The key configuration of a schema: its hash field and range field.
#[derive(Debug, PartialEq, Eq)]
pub struct SchemaKey {
    pub hash_field: Option<String>,
    pub range_field: Option<String>,
}

/// What completing a proposed schema reads and changes of it; the maps are
/// lists of entries, in the order the schema's maps are walked.
#[derive(Debug)]
pub struct SchemaDraft {
    pub name: String,
    pub fields: Option<Vec<String>>,
    pub field_descriptions: Vec<(String, String)>,
    pub field_classifications: Vec<(String, Vec<String>)>,
    pub key: Option<SchemaKey>,
}

/// The plain form of the names of a list.
pub open spec fn names_view(v: Seq<String>) -> Seq<Seq<char>> {
    v.map_values(|s: String| s@)
}

/// The plain form of a classification map.
pub open spec fn classes_view(cs: Seq<(String, Vec<String>)>) -> Seq<(Seq<char>, Seq<Seq<char>>)> {
    cs.map_values(|p: (String, Vec<String>)| (p.0@, names_view(p.1@)))
}

/// The plain form of the declared fields.
pub open spec fn fields_view(f: Option<Vec<String>>) -> Option<Seq<Seq<char>>> {
    match f {
        Some(v) => Some(names_view(v@)),
        None => None,
    }
}

/// `s` with each `_` made a space.
pub open spec fn spaced(s: Seq<char>) -> Seq<char> {
    s.map_values(|c: char| if c == '_' { ' ' } else { c })
}

/// The description a field gets when the model gave none: its name, with
/// spaces for underscores, and ` field`.
pub open spec fn default_description(f: Seq<char>) -> Seq<char> {
    spaced(f) + " field"@
}

/// The descriptions with a default added for each field that has none.
pub open spec fn described(ds: Seq<(Seq<char>, Seq<char>)>, fields: Seq<Seq<char>>) -> Seq<(Seq<char>, Seq<char>)>
    decreases fields.len(),
{
    if fields.len() == 0 {
        ds
    } else {
        let d = described(ds, fields.drop_last());
        if maps_field(d, fields.last()) {
            d
        } else {
            d.push((fields.last(), default_description(fields.last())))
        }
    }
}

/// The record defaults are read from: the first item of a non-empty
/// array, else the sample itself.
pub open spec fn sample_for_defaults(sample: JsonV) -> JsonV {
    match sample {
        JsonV::Array(items) => if items.len() > 0 {
            items[0]
        } else {
            sample
        },
        _ => sample,
    }
}

/// The classification a field gets when it has none: `number` when the
/// sample holds a number under its name, else `word`.
pub open spec fn default_classes(sample: JsonV, f: Seq<char>) -> Seq<Seq<char>> {
    match get(sample, f) {
        Some(JsonV::Number(_)) => seq!["number"@],
        _ => seq!["word"@],
    }
}

/// The index of the first entry for `f`.
pub open spec fn class_index(cs: Seq<(Seq<char>, Seq<Seq<char>>)>, f: Seq<char>) -> Option<int>
    decreases cs.len(),
{
    if cs.len() == 0 {
        None
    } else {
        match class_index(cs.drop_last(), f) {
            Some(i) => Some(i),
            None => if cs.last().0 == f {
                Some(cs.len() - 1)
            } else {
                None
            },
        }
    }
}

/// The classifications with the default set for each field that has none
/// or an empty one.
pub open spec fn defaulted(
    cs: Seq<(Seq<char>, Seq<Seq<char>>)>,
    fields: Seq<Seq<char>>,
    sample: JsonV,
) -> Seq<(Seq<char>, Seq<Seq<char>>)>
    decreases fields.len(),
{
    if fields.len() == 0 {
        cs
    } else {
        let c = defaulted(cs, fields.drop_last(), sample);
        let f = fields.last();
        match class_index(c, f) {
            Some(i) => if c[i].1.len() == 0 {
                c.update(i, (f, default_classes(sample, f)))
            } else {
                c
            },
            None => c.push((f, default_classes(sample, f))),
        }
    }
}

/// The field a schema without a key is keyed by: its first declared field
/// when it declares fields, else the first field it classifies.
pub open spec fn default_key_field(
    fields: Option<Seq<Seq<char>>>,
    cs: Seq<(Seq<char>, Seq<Seq<char>>)>,
) -> Option<Seq<char>> {
    match fields {
        Some(fs) => if fs.len() > 0 {
            Some(fs[0])
        } else {
            None
        },
        None => if cs.len() > 0 {
            Some(cs[0].0)
        } else {
            None
        },
    }
}

fn default_description_exec(f: &str) -> (r: String)
    ensures
        r@ == default_description(f@),
{
    let cs = chars_of(f);
    let mut out = String::new();
    let mut i: usize = 0;
    while i < cs.len()
        invariant
            i <= cs@.len(),
            cs@ == f@,
            out@ == spaced(cs@.take(i as int)),
        decreases cs.len() - i,
    {
        let c = if cs[i] == '_' {
            ' '
        } else {
            cs[i]
        };
        push_char(&mut out, c);
        proof {
            assert(out@ =~= spaced(cs@.take(i + 1)));
        }
        i += 1;
    }
    proof {
        assert(cs@.take(cs@.len() as int) =~= cs@);
    }
    push_str(&mut out, " field");
    out
}

fn has_description(ds: &Vec<(String, String)>, f: &str) -> (b: bool)
    ensures
        b == maps_field(pairs(ds@), f@),
{
    let mut i: usize = 0;
    while i < ds.len()
        invariant
            i <= ds@.len(),
            forall|j: int| 0 <= j < i ==> ds@[j].0@ != f@,
        decreases ds.len() - i,
    {
        if str_eq(ds[i].0.as_str(), f) {
            proof {
                assert(pairs(ds@)[i as int].0 == f@);
            }
            return true;
        }
        i += 1;
    }
    proof {
        assert forall|j: int| 0 <= j < pairs(ds@).len() implies pairs(ds@)[j].0 != f@ by {
            assert(pairs(ds@)[j].0 == ds@[j].0@);
        }
    }
    false
}

proof fn lemma_class_index(cs: Seq<(Seq<char>, Seq<Seq<char>>)>, f: Seq<char>, i: int)
    requires
        0 <= i <= cs.len(),
        forall|j: int| 0 <= j < i ==> (#[trigger] cs[j]).0 != f,
        i < cs.len() ==> cs[i].0 == f,
    ensures
        class_index(cs, f) == (if i < cs.len() {
            Some(i)
        } else {
            None::<int>
        }),
    decreases cs.len(),
{
    if cs.len() > 0 {
        let d = cs.drop_last();
        if i < cs.len() - 1 {
            lemma_class_index(d, f, i);
        } else {
            assert forall|j: int| 0 <= j < d.len() implies (#[trigger] d[j]).0 != f by {
                assert(d[j] == cs[j]);
            }
            lemma_class_index(d, f, d.len() as int);
        }
    }
}

fn class_index_exec(cs: &Vec<(String, Vec<String>)>, f: &str) -> (r: Option<usize>)
    ensures
        match r {
            Some(i) => i < cs@.len() && class_index(classes_view(cs@), f@) == Some(i as int),
            None => class_index(classes_view(cs@), f@) is None,
        },
{
    let ghost cv = classes_view(cs@);
    let mut i: usize = 0;
    while i < cs.len()
        invariant
            i <= cs@.len(),
            cv == classes_view(cs@),
            forall|j: int| 0 <= j < i ==> (#[trigger] cv[j]).0 != f@,
        decreases cs.len() - i,
    {
        if str_eq(cs[i].0.as_str(), f) {
            proof {
                lemma_class_index(cv, f@, i as int);
            }
            return Some(i);
        }
        i += 1;
    }
    proof {
        lemma_class_index(cv, f@, cv.len() as int);
    }
    None
}

fn default_classes_exec(sample: &Json, f: &str) -> (r: Vec<String>)
    ensures
        names_view(r@) == default_classes(sample@, f@),
{
    let is_number = match sample {
        Json::Object(ms) => {
            proof {
                lemma_members_view(ms@);
            }
            match member_index(ms, f) {
                Some(i) => match &ms[i].1 {
                    Json::Number(_) => true,
                    _ => false,
                },
                None => false,
            }
        },
        _ => false,
    };
    let c = if is_number {
        owned("number")
    } else {
        owned("word")
    };
    let r = vec![c];
    proof {
        reveal_strlit("number");
        reveal_strlit("word");
        assert(names_view(r@) =~= default_classes(sample@, f@));
    }
    r
}

fn fill_descriptions(ds: &mut Vec<(String, String)>, fields: &Vec<String>)
    ensures
        pairs(final(ds)@) == described(pairs(old(ds)@), names_view(fields@)),
{
    let ghost fv = names_view(fields@);
    let ghost start = pairs(ds@);
    proof {
        assert(fv.take(0) =~= Seq::<Seq<char>>::empty());
    }
    let mut i: usize = 0;
    while i < fields.len()
        invariant
            i <= fields@.len(),
            fv == names_view(fields@),
            pairs(ds@) == described(start, fv.take(i as int)),
        decreases fields.len() - i,
    {
        proof {
            assert(fv.take(i + 1).drop_last() =~= fv.take(i as int));
            assert(fv.take(i + 1).last() == fields@[i as int]@);
        }
        if !has_description(ds, fields[i].as_str()) {
            let d = default_description_exec(fields[i].as_str());
            let p = (owned(fields[i].as_str()), d);
            let ghost before = ds@;
            ds.push(p);
            proof {
                assert(pairs(ds@) =~= pairs(before).push((p.0@, p.1@)));
            }
        }
        i += 1;
    }
    proof {
        assert(fv.take(fields@.len() as int) =~= fv);
    }
}

fn fill_classifications(cs: &mut Vec<(String, Vec<String>)>, fields: &Vec<String>, sample: &Json)
    ensures
        classes_view(final(cs)@) == defaulted(classes_view(old(cs)@), names_view(fields@), sample@),
{
    let ghost fv = names_view(fields@);
    let ghost start = classes_view(cs@);
    proof {
        assert(fv.take(0) =~= Seq::<Seq<char>>::empty());
    }
    let mut i: usize = 0;
    while i < fields.len()
        invariant
            i <= fields@.len(),
            fv == names_view(fields@),
            classes_view(cs@) == defaulted(start, fv.take(i as int), sample@),
        decreases fields.len() - i,
    {
        proof {
            assert(fv.take(i + 1).drop_last() =~= fv.take(i as int));
            assert(fv.take(i + 1).last() == fields@[i as int]@);
        }
        let ghost before = cs@;
        match class_index_exec(cs, fields[i].as_str()) {
            Some(k) => {
                if cs[k].1.len() == 0 {
                    let p = (owned(fields[i].as_str()), default_classes_exec(sample, fields[i].as_str()));
                    cs.set(k, p);
                    proof {
                        assert(classes_view(cs@) =~= classes_view(before).update(k as int, (p.0@, names_view(p.1@))));
                    }
                }
            },
            None => {
                let p = (owned(fields[i].as_str()), default_classes_exec(sample, fields[i].as_str()));
                cs.push(p);
                proof {
                    assert(classes_view(cs@) =~= classes_view(before).push((p.0@, names_view(p.1@))));
                }
            },
        }
        i += 1;
    }
    proof {
        assert(fv.take(fields@.len() as int) =~= fv);
    }
}

fn sample_record(sample: &Json) -> (r: &Json)
    ensures
        r@ == sample_for_defaults(sample@),
{
    match sample {
        Json::Array(items) => {
            proof {
                lemma_items_view(items@);
            }
            if items.len() > 0 {
                &items[0]
            } else {
                sample
            }
        },
        _ => sample,
    }
}

/// Fill in what a proposed schema lacks before it is registered: a
/// description (`name field`, underscores as spaces) for each declared
/// field without one, a classification (`number` when the sample has a
/// number under the field's name, else `word`) for each declared field
/// with none or an empty one, and, when it has no key, a key on its first
/// declared field (or, declaring none, its first classified field). A
/// schema that needs a key and has no field for it is refused.
pub fn fill_schema_defaults(draft: &mut SchemaDraft, sample: &Json) -> (r: Result<(), IngestionError>)
    ensures
        final(draft).name == old(draft).name,
        fields_view(final(draft).fields) == fields_view(old(draft).fields),
        pairs(final(draft).field_descriptions@) == match fields_view(old(draft).fields) {
            Some(fs) => described(pairs(old(draft).field_descriptions@), fs),
            None => pairs(old(draft).field_descriptions@),
        },
        classes_view(final(draft).field_classifications@) == match fields_view(old(draft).fields) {
            Some(fs) => defaulted(
                classes_view(old(draft).field_classifications@),
                fs,
                sample_for_defaults(sample@),
            ),
            None => classes_view(old(draft).field_classifications@),
        },
        old(draft).key is Some ==> r is Ok && final(draft).key == old(draft).key,
        old(draft).key is None ==> match default_key_field(
            fields_view(old(draft).fields),
            classes_view(old(draft).field_classifications@),
        ) {
            Some(f) => r is Ok && (final(draft).key matches Some(k) && k.range_field is None && (
            k.hash_field matches Some(h) && h@ == f)),
            None => final(draft).key is None && (r matches Err(IngestionError::SchemaCreationError(m))
                && m@ == "Cannot create schema without at least one field for key configuration"@),
        },
{
    let record = sample_record(sample);
    match &draft.fields {
        Some(fields) => {
            fill_descriptions(&mut draft.field_descriptions, fields);
            fill_classifications(&mut draft.field_classifications, fields, record);
        },
        None => {},
    }
    if draft.key.is_some() {
        return Ok(());
    }
    let hash_field: Option<String> = match &draft.fields {
        Some(fields) => if fields.len() > 0 {
            Some(owned(fields[0].as_str()))
        } else {
            None
        },
        None => if draft.field_classifications.len() > 0 {
            Some(owned(draft.field_classifications[0].0.as_str()))
        } else {
            None
        },
    };
    match hash_field {
        Some(f) => {
            draft.key = Some(SchemaKey { hash_field: Some(f), range_field: None });
            Ok(())
        },
        None => Err(
            IngestionError::SchemaCreationError(
                owned("Cannot create schema without at least one field for key configuration"),
            ),
        ),
    }
}

/// Whether `c` is `t` ignoring ASCII case, for a `t` that is not an ASCII
/// capital.
pub open spec fn same_ignoring_case(c: char, t: char) -> bool {
    c == t || ('A' <= c && c <= 'Z' && c as u32 + 32 == t as u32)
}

/// Whether a name is empty or, ignoring ASCII case, the placeholder
/// `schema`.
pub open spec fn is_placeholder_name(t: Seq<char>) -> bool {
    t.len() == 0 || (t.len() == 6 && forall|i: int| 0 <= i < 6 ==> #[trigger] same_ignoring_case(t[i], "schema"@[i]))
}

/// The name a new schema is registered under: the model's name, unless,
/// trimmed, it is empty or the placeholder `schema`; then the schema's
/// identity hash.
pub open spec fn registered_name(name: Seq<char>, identity_hash: Seq<char>) -> Seq<char> {
    if is_placeholder_name(trim_seq(name)) {
        identity_hash
    } else {
        name
    }
}

fn same_ignoring_case_exec(c: char, t: char) -> (b: bool)
    ensures
        b == same_ignoring_case(c, t),
{
    c == t || ('A' <= c && c <= 'Z' && (c as u32) + 32 == (t as u32))
}

/// The name a new schema is registered under, given its identity hash:
/// the model's name unless it is blank or the placeholder `Schema` (in any
/// ASCII case).
pub fn resolve_schema_name(name: &str, identity_hash: &str) -> (r: String)
    ensures
        r@ == registered_name(name@, identity_hash@),
{
    let t = trim_string(name);
    let cs = chars_of(t.as_str());
    let target = chars_of("schema");
    proof {
        reveal_strlit("schema");
    }
    let mut placeholder = cs.len() == 0;
    if cs.len() == 6 {
        let mut i: usize = 0;
        let mut same = true;
        while i < 6
            invariant
                i <= 6,
                cs@.len() == 6,
                target@ == "schema"@,
                target@.len() == 6,
                same == forall|j: int| 0 <= j < i ==> #[trigger] same_ignoring_case(cs@[j], "schema"@[j]),
            decreases 6 - i,
        {
            if !same_ignoring_case_exec(cs[i], target[i]) {
                same = false;
            }
            i += 1;
        }
        placeholder = same;
    }
    if placeholder {
        owned(identity_hash)
    } else {
        owned(name)
    }
}

/// Whether the classifications give `g` a non-empty classification.
pub open spec fn has_classes(cs: Seq<(Seq<char>, Seq<Seq<char>>)>, g: Seq<char>) -> bool {
    match class_index(cs, g) {
        Some(i) => cs[i].1.len() > 0,
        None => false,
    }
}

proof fn lemma_class_index_in_range(cs: Seq<(Seq<char>, Seq<Seq<char>>)>, g: Seq<char>)
    ensures
        class_index(cs, g) matches Some(i) ==> 0 <= i < cs.len() && cs[i].0 == g,
    decreases cs.len(),
{
    if cs.len() > 0 {
        lemma_class_index_in_range(cs.drop_last(), g);
    }
}

proof fn lemma_class_index_same_keys(a: Seq<(Seq<char>, Seq<Seq<char>>)>, b: Seq<(Seq<char>, Seq<Seq<char>>)>, g: Seq<char>)
    requires
        a.len() == b.len(),
        forall|j: int| 0 <= j < a.len() ==> (#[trigger] a[j]).0 == b[j].0,
    ensures
        class_index(a, g) == class_index(b, g),
    decreases a.len(),
{
    if a.len() > 0 {
        let (da, db) = (a.drop_last(), b.drop_last());
        assert forall|j: int| 0 <= j < da.len() implies (#[trigger] da[j]).0 == db[j].0 by {
            assert(da[j] == a[j] && db[j] == b[j]);
        }
        lemma_class_index_same_keys(da, db, g);
        assert(a.last().0 == b.last().0);
    }
}

proof fn lemma_defaulted_step(c: Seq<(Seq<char>, Seq<Seq<char>>)>, f: Seq<char>, sample: JsonV, g: Seq<char>)
    ensures
        ({
            let n = match class_index(c, f) {
                Some(i) => if c[i].1.len() == 0 {
                    c.update(i, (f, default_classes(sample, f)))
                } else {
                    c
                },
                None => c.push((f, default_classes(sample, f))),
            };
            &&& has_classes(n, f)
            &&& has_classes(c, g) ==> has_classes(n, g)
        }),
{
    lemma_class_index_in_range(c, f);
    lemma_class_index_in_range(c, g);
    match class_index(c, f) {
        Some(i) => {
            if c[i].1.len() == 0 {
                let n = c.update(i, (f, default_classes(sample, f)));
                lemma_class_index_same_keys(n, c, f);
                lemma_class_index_same_keys(n, c, g);
                reveal_strlit("number");
                reveal_strlit("word");
            }
        },
        None => {
            let n = c.push((f, default_classes(sample, f)));
            assert(n.drop_last() =~= c);
            reveal_strlit("number");
            reveal_strlit("word");
        },
    }
}

/// After completion, every declared field has a description and a
/// non-empty classification.
pub proof fn law_completed_schema_covers_fields(
    ds: Seq<(Seq<char>, Seq<char>)>,
    cs: Seq<(Seq<char>, Seq<Seq<char>>)>,
    fields: Seq<Seq<char>>,
    sample: JsonV,
)
    ensures
        forall|i: int|
            0 <= i < fields.len() ==> maps_field(described(ds, fields), #[trigger] fields[i]) && has_classes(
                defaulted(cs, fields, sample),
                fields[i],
            ),
    decreases fields.len(),
{
    if fields.len() > 0 {
        let d = fields.drop_last();
        law_completed_schema_covers_fields(ds, cs, d, sample);
        let f = fields.last();
        let pd = described(ds, d);
        let pc = defaulted(cs, d, sample);
        assert forall|i: int| 0 <= i < fields.len() implies maps_field(described(ds, fields), #[trigger] fields[i])
            && has_classes(defaulted(cs, fields, sample), fields[i]) by {
            lemma_defaulted_step(pc, f, sample, fields[i]);
            if i < fields.len() - 1 {
                assert(d[i] == fields[i]);
                if !maps_field(pd, f) {
                    let j = choose|j: int| 0 <= j < pd.len() && pd[j].0 == fields[i];
                    assert(pd.push((f, default_description(f)))[j] == pd[j]);
                }
            } else if !maps_field(pd, f) {
                assert(pd.push((f, default_description(f)))[pd.len() as int].0 == f);
            }
        }
    }
}

// ---------------------------------------------------------------------------
// Field mappers across schema types
// ---------------------------------------------------------------------------

/// How a schema keys its records; each type stores its molecules in a
/// different shape.
#[derive(Clone, Copy, Debug, PartialEq, Eq, Structural)]
pub enum SchemaType {
    Single,
    Hash,
    Range,
    HashRange,
}

/// The name of a schema type.
pub open spec fn schema_type_name(t: SchemaType) -> Seq<char> {
    match t {
        SchemaType::Single => "Single"@,
        SchemaType::Hash => "Hash"@,
        SchemaType::Range => "Range"@,
        SchemaType::HashRange => "HashRange"@,
    }
}

impl SchemaType {
    /// The name of the type.
    pub fn name(&self) -> (s: &'static str)
        ensures
            s@ == schema_type_name(*self),
    {
        match self {
            SchemaType::Single => "Single",
            SchemaType::Hash => "Hash",
            SchemaType::Range => "Range",
            SchemaType::HashRange => "HashRange",
        }
    }
}

/// A field mapper of a new schema: the field it fills, and the schema and
/// field it inherits from.
#[derive(Debug)]
pub struct InheritedField {
    pub target_field: String,
    pub source_schema: String,
    pub source_field: String,
}

/// The plain form of a field mapper.
pub open spec fn inherited_view(m: InheritedField) -> (Seq<char>, Seq<char>, Seq<char>) {
    (m.target_field@, m.source_schema@, m.source_field@)
}

/// The type of the source schema `name` as looked up (the first entry for
/// it); `None` when it is not registered.
pub open spec fn looked_up_type(types: Seq<(Seq<char>, Option<SchemaType>)>, name: Seq<char>) -> Option<SchemaType>
    decreases types.len(),
{
    if types.len() == 0 {
        None
    } else if types[0].0 == name {
        types[0].1
    } else {
        looked_up_type(types.drop_first(), name)
    }
}

/// The description of one mapper that crosses schema types.
pub open spec fn incompatibility_text(
    m: (Seq<char>, Seq<char>, Seq<char>),
    src_type: SchemaType,
    new_name: Seq<char>,
    new_type: SchemaType,
) -> Seq<char> {
    "field '"@ + m.0 + "' inherits from '"@ + m.1 + "."@ + m.2 + "' (schema_type="@ + schema_type_name(src_type)
        + ") but target schema '"@ + new_name + "' has schema_type="@ + schema_type_name(new_type)
}

/// The mappers, in order, whose registered source schema has another type
/// than the new schema, described.
pub open spec fn incompatibilities(
    ms: Seq<(Seq<char>, Seq<char>, Seq<char>)>,
    types: Seq<(Seq<char>, Option<SchemaType>)>,
    new_name: Seq<char>,
    new_type: SchemaType,
) -> Seq<Seq<char>>
    decreases ms.len(),
{
    if ms.len() == 0 {
        seq![]
    } else {
        let p = incompatibilities(ms.drop_last(), types, new_name, new_type);
        match looked_up_type(types, ms.last().1) {
            Some(t) => if t != new_type {
                p.push(incompatibility_text(ms.last(), t, new_name, new_type))
            } else {
                p
            },
            None => p,
        }
    }
}

/// The message refusing a schema whose mappers cross schema types.
pub open spec fn expansion_refusal(items: Seq<Seq<char>>) -> Seq<char> {
    "Schema expansion rejected: cross-schema_type field_mapper(s) would corrupt molecule storage on read. Incompatibilities: ["@
        + join_with(items, "; "@)
        + "]. The schema service must not propose expansion across {Single, Hash, Range, HashRange} boundaries \u{2014} each schema_type stores molecules in a different on-disk shape."@
}

fn looked_up_type_exec(types: &Vec<(String, Option<SchemaType>)>, name: &str) -> (r: Option<SchemaType>)
    ensures
        r == looked_up_type(types@.map_values(|p: (String, Option<SchemaType>)| (p.0@, p.1)), name@),
{
    let ghost tv = types@.map_values(|p: (String, Option<SchemaType>)| (p.0@, p.1));
    proof {
        assert(tv.subrange(0, tv.len() as int) =~= tv);
    }
    let mut i: usize = 0;
    while i < types.len()
        invariant
            i <= types@.len(),
            tv == types@.map_values(|p: (String, Option<SchemaType>)| (p.0@, p.1)),
            looked_up_type(tv, name@) == looked_up_type(tv.subrange(i as int, tv.len() as int), name@),
        decreases types.len() - i,
    {
        let ghost rest = tv.subrange(i as int, tv.len() as int);
        proof {
            assert(rest.drop_first() =~= tv.subrange(i + 1, tv.len() as int));
            assert(rest[0] == tv[i as int]);
        }
        if str_eq(types[i].0.as_str(), name) {
            return types[i].1;
        }
        i += 1;
    }
    proof {
        assert(tv.subrange(i as int, tv.len() as int) =~= Seq::<(Seq<char>, Option<SchemaType>)>::empty());
    }
    None
}

fn incompatibility_exec(m: &InheritedField, src_type: SchemaType, new_name: &str, new_type: SchemaType) -> (r: String)
    ensures
        r@ == incompatibility_text(inherited_view(*m), src_type, new_name@, new_type),
{
    let mut t = owned("field '");
    push_str(&mut t, m.target_field.as_str());
    push_str(&mut t, "' inherits from '");
    push_str(&mut t, m.source_schema.as_str());
    push_str(&mut t, ".");
    push_str(&mut t, m.source_field.as_str());
    push_str(&mut t, "' (schema_type=");
    push_str(&mut t, src_type.name());
    push_str(&mut t, ") but target schema '");
    push_str(&mut t, new_name);
    push_str(&mut t, "' has schema_type=");
    push_str(&mut t, new_type.name());
    t
}

/// Refuse a new schema whose field mappers inherit from a registered
/// schema of another type: each type stores its molecules in a different
/// shape, so carrying them over would make reads fail. `source_types`
/// holds, for each source schema looked up, its type, or `None` when it is
/// not registered (its mappers carry nothing over and pass).
pub fn validate_field_mapper_compatibility(
    new_schema_name: &str,
    new_type: SchemaType,
    mappers: &Vec<InheritedField>,
    source_types: &Vec<(String, Option<SchemaType>)>,
) -> (r: Result<(), IngestionError>)
    ensures
        ({
            let items = incompatibilities(
                mappers@.map_values(|m: InheritedField| inherited_view(m)),
                source_types@.map_values(|p: (String, Option<SchemaType>)| (p.0@, p.1)),
                new_schema_name@,
                new_type,
            );
            if items.len() == 0 {
                r is Ok
            } else {
                r matches Err(IngestionError::SchemaCreationError(m)) && m@ == expansion_refusal(items)
            }
        }),
{
    let ghost mv = mappers@.map_values(|m: InheritedField| inherited_view(m));
    let ghost tv = source_types@.map_values(|p: (String, Option<SchemaType>)| (p.0@, p.1));
    let mut found: Vec<String> = Vec::new();
    let mut i: usize = 0;
    proof {
        assert(mv.take(0) =~= Seq::<(Seq<char>, Seq<char>, Seq<char>)>::empty());
        assert(found@.map_values(|x: String| x@) =~= Seq::<Seq<char>>::empty());
    }
    while i < mappers.len()
        invariant
            i <= mappers@.len(),
            mv == mappers@.map_values(|m: InheritedField| inherited_view(m)),
            tv == source_types@.map_values(|p: (String, Option<SchemaType>)| (p.0@, p.1)),
            found@.map_values(|x: String| x@) == incompatibilities(mv.take(i as int), tv, new_schema_name@, new_type),
        decreases mappers.len() - i,
    {
        proof {
            assert(mv.take(i + 1).drop_last() =~= mv.take(i as int));
            assert(mv.take(i + 1).last() == inherited_view(mappers@[i as int]));
        }
        match looked_up_type_exec(source_types, mappers[i].source_schema.as_str()) {
            Some(t) => {
                if t != new_type {
                    let text = incompatibility_exec(&mappers[i], t, new_schema_name, new_type);
                    let ghost before = found@;
                    found.push(text);
                    proof {
                        assert(found@.map_values(|x: String| x@) =~= before.map_values(|x: String| x@).push(text@));
                    }
                }
            },
            None => {},
        }
        i += 1;
    }
    proof {
        assert(mv.take(mappers@.len() as int) =~= mv);
    }
    if found.len() == 0 {
        return Ok(());
    }
    let mut m = owned(
        "Schema expansion rejected: cross-schema_type field_mapper(s) would corrupt molecule storage on read. Incompatibilities: [",
    );
    let joined = join_strings(&found, "; ");
    push_str(&mut m, joined.as_str());
    push_str(
        &mut m,
        "]. The schema service must not propose expansion across {Single, Hash, Range, HashRange} boundaries \u{2014} each schema_type stores molecules in a different on-disk shape.",
    );
    Err(IngestionError::SchemaCreationError(m))
}

/// Whether the mapper inherits from a registered schema of another type.
pub open spec fn crosses_types(
    m: (Seq<char>, Seq<char>, Seq<char>),
    types: Seq<(Seq<char>, Option<SchemaType>)>,
    new_type: SchemaType,
) -> bool {
    match looked_up_type(types, m.1) {
        Some(t) => t != new_type,
        None => false,
    }
}

/// A new schema is refused exactly when one of its mappers inherits from a
/// registered schema of another type: mappers within one type, or from
/// schemas not registered, pass.
pub proof fn law_refused_iff_types_cross(
    ms: Seq<(Seq<char>, Seq<char>, Seq<char>)>,
    types: Seq<(Seq<char>, Option<SchemaType>)>,
    new_name: Seq<char>,
    new_type: SchemaType,
)
    ensures
        incompatibilities(ms, types, new_name, new_type).len() > 0 <==> exists|i: int|
            0 <= i < ms.len() && crosses_types(#[trigger] ms[i], types, new_type),
    decreases ms.len(),
{
    if ms.len() > 0 {
        let d = ms.drop_last();
        law_refused_iff_types_cross(d, types, new_name, new_type);
        if exists|i: int| 0 <= i < d.len() && crosses_types(#[trigger] d[i], types, new_type) {
            let i = choose|i: int| 0 <= i < d.len() && crosses_types(#[trigger] d[i], types, new_type);
            assert(ms[i] == d[i]);
        }
        if exists|i: int| 0 <= i < ms.len() && crosses_types(#[trigger] ms[i], types, new_type) {
            let i = choose|i: int| 0 <= i < ms.len() && crosses_types(#[trigger] ms[i], types, new_type);
            if i < ms.len() - 1 {
                assert(d[i] == ms[i]);
            }
        }
        assert(ms[ms.len() - 1] == ms.last());
    }
}

proof fn lemma_has_member(ms: Seq<(Seq<char>, JsonV)>, k: Seq<char>)
    ensures
        has_member(ms, k) <==> first_member(ms, k) is Some,
    decreases ms.len(),
{
    if ms.len() > 0 {
        lemma_has_member(ms.drop_first(), k);
        if has_member(ms.drop_first(), k) {
            let i = choose|i: int| 0 <= i < ms.drop_first().len() && ms.drop_first()[i].0 == k;
            assert(ms[i + 1].0 == k);
        }
        if has_member(ms, k) && ms[0].0 != k {
            let i = choose|i: int| 0 <= i < ms.len() && ms[i].0 == k;
            assert(ms.drop_first()[i - 1].0 == k);
        }
    }
}

/// Backfilling keeps every classification there was and gives each
/// declared field without one the default: under each name the map holds
/// what it held, else the default for a declared field, else nothing.
pub proof fn law_backfill_only_fills_missing(cms: Seq<(Seq<char>, JsonV)>, names: Seq<Seq<char>>, k: Seq<char>)
    ensures
        first_member(classified(cms, names), k) == match first_member(cms, k) {
            Some(v) => Some(v),
            None => if names.contains(k) {
                Some(default_classification())
            } else {
                None
            },
        },
    decreases names.len(),
{
    if names.len() > 0 {
        let d = names.drop_last();
        let m = classified(cms, d);
        law_backfill_only_fills_missing(cms, d, k);
        lemma_has_member(m, names.last());
        if !has_member(m, names.last()) {
            lemma_first_member_push(m, (names.last(), default_classification()), k);
        }
        assert(names.contains(k) <==> (d.contains(k) || names.last() == k)) by {
            if names.contains(k) {
                let i = choose|i: int| 0 <= i < names.len() && names[i] == k;
                if i < names.len() - 1 {
                    assert(d[i] == k);
                }
            }
            if d.contains(k) {
                let i = choose|i: int| 0 <= i < d.len() && d[i] == k;
                assert(names[i] == k);
            }
            if names.last() == k {
                assert(names[names.len() - 1] == k);
            }
        }
        if names.last() == k && first_member(cms, k) is None && d.contains(k) {
            lemma_has_member(m, k);
        }
    }
}

} // verus!
