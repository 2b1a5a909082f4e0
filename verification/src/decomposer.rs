//! Structural decomposition of nested JSON: the members of an object that
//! hold arrays of objects are taken out as child groups, each keyed by the
//! hash of its items' field names, so that each structure is analysed
//! once.

use crate::apple::records::{join_strings, join_with};
use crate::digest::{hex_lower, sha256_digest, sha256_hex};
use crate::json::{copy_json, items_view, json_view, lemma_items_view, lemma_members_view, members_view, Json, JsonV};
use crate::text::owned;
use vstd::multiset::Multiset;
use vstd::prelude::*;
use vstd::string::StringSliceAdditionalSpecFns;
use vstd::utf8::encode_utf8;

verus! {

// ---------------------------------------------------------------------------
// Sorting field names
// ---------------------------------------------------------------------------

/// `a` comes no later than `b` in lexicographic order by code point (the
/// order of `str`).
pub open spec fn text_le(a: Seq<char>, b: Seq<char>) -> bool
    decreases a.len(),
{
    if a.len() == 0 {
        true
    } else if b.len() == 0 {
        false
    } else if a[0] != b[0] {
        a[0] < b[0]
    } else {
        text_le(a.drop_first(), b.drop_first())
    }
}

/// `x` inserted before the first element it comes no later than.
pub open spec fn insert_sorted(s: Seq<Seq<char>>, x: Seq<char>) -> Seq<Seq<char>>
    decreases s.len(),
{
    if s.len() == 0 {
        seq![x]
    } else if text_le(x, s[0]) {
        seq![x] + s
    } else {
        seq![s[0]] + insert_sorted(s.drop_first(), x)
    }
}

/// The texts in lexicographic order.
pub open spec fn sorted_texts(s: Seq<Seq<char>>) -> Seq<Seq<char>>
    decreases s.len(),
{
    if s.len() == 0 {
        s
    } else {
        insert_sorted(sorted_texts(s.drop_last()), s.last())
    }
}

fn text_le_exec(a: &str, b: &str) -> (r: bool)
    ensures
        r == text_le(a@, b@),
{
    let av = crate::text::chars_of(a);
    let bv = crate::text::chars_of(b);
    let mut i: usize = 0;
    proof {
        assert(av@.skip(0) =~= av@);
        assert(bv@.skip(0) =~= bv@);
    }
    while i < av.len() && i < bv.len() && av[i] == bv[i]
        invariant
            i <= av@.len(),
            i <= bv@.len(),
            text_le(av@, bv@) == text_le(av@.skip(i as int), bv@.skip(i as int)),
        decreases av.len() - i,
    {
        proof {
            assert(av@.skip(i as int).drop_first() =~= av@.skip(i + 1));
            assert(bv@.skip(i as int).drop_first() =~= bv@.skip(i + 1));
        }
        i += 1;
    }
    if i == av.len() {
        true
    } else if i == bv.len() {
        false
    } else {
        proof {
            assert(av@.skip(i as int)[0] == av@[i as int]);
            assert(bv@.skip(i as int)[0] == bv@[i as int]);
        }
        av[i] < bv[i]
    }
}

proof fn lemma_insert_sorted_at(s: Seq<Seq<char>>, x: Seq<char>, j: int)
    requires
        0 <= j <= s.len(),
        forall|k: int| 0 <= k < j ==> !text_le(x, #[trigger] s[k]),
        j < s.len() ==> text_le(x, s[j]),
    ensures
        insert_sorted(s, x) == s.take(j) + seq![x] + s.skip(j),
    decreases j,
{
    if j == 0 {
        assert(s.skip(0) =~= s);
        assert(s.take(0) + seq![x] + s.skip(0) =~= seq![x] + s);
    } else {
        let t = s.drop_first();
        assert forall|k: int| 0 <= k < j - 1 implies !text_le(x, #[trigger] t[k]) by {
            assert(t[k] == s[k + 1]);
        }
        if j - 1 < t.len() {
            assert(t[j - 1] == s[j]);
        }
        lemma_insert_sorted_at(t, x, j - 1);
        assert(s.take(j) + seq![x] + s.skip(j) =~= seq![s[0]] + (t.take(j - 1) + seq![x] + t.skip(
            j - 1,
        )));
    }
}

/// The field names in lexicographic order.
pub(crate) fn sort_texts(names: &Vec<String>) -> (r: Vec<String>)
    ensures
        r@.map_values(|x: String| x@) == sorted_texts(names@.map_values(|x: String| x@)),
{
    let ghost all = names@.map_values(|x: String| x@);
    let mut out: Vec<String> = Vec::new();
    let mut i: usize = 0;
    proof {
        assert(all.take(0) =~= Seq::<Seq<char>>::empty());
        assert(out@.map_values(|x: String| x@) =~= Seq::<Seq<char>>::empty());
    }
    while i < names.len()
        invariant
            i <= names@.len(),
            all == names@.map_values(|x: String| x@),
            out@.map_values(|x: String| x@) == sorted_texts(all.take(i as int)),
        decreases names.len() - i,
    {
        let ghost before = out@.map_values(|x: String| x@);
        let x = names[i].as_str();
        let mut j: usize = 0;
        while j < out.len() && !text_le_exec(x, out[j].as_str())
            invariant
                j <= out@.len(),
                before == out@.map_values(|x: String| x@),
                forall|k: int| 0 <= k < j ==> !text_le(x@, #[trigger] before[k]),
            decreases out.len() - j,
        {
            j += 1;
        }
        proof {
            if j < out@.len() {
                assert(text_le(x@, before[j as int]));
            }
            lemma_insert_sorted_at(before, x@, j as int);
            assert(all.take(i + 1).drop_last() =~= all.take(i as int));
            assert(all.take(i + 1).last() == x@);
        }
        out.insert(j, owned(x));
        proof {
            assert(out@.map_values(|x: String| x@) =~= before.take(j as int) + seq![x@] + before.skip(
                j as int,
            ));
        }
        i += 1;
    }
    proof {
        assert(all.take(names@.len() as int) =~= all);
    }
    out
}

// ---------------------------------------------------------------------------
// Structure hashes
// ---------------------------------------------------------------------------

/// The field names of an object; none for other values.
pub open spec fn keys_of(j: JsonV) -> Seq<Seq<char>> {
    match j {
        JsonV::Object(ms) => ms.map_values(|p: (Seq<char>, JsonV)| p.0),
        _ => seq![],
    }
}

/// The SHA-256 of an object's field names, sorted and joined by `,`, in
/// lowercase hexadecimal.
pub open spec fn structure_hash(j: JsonV) -> Seq<char> {
    hex_lower(sha256_digest(encode_utf8(join_with(sorted_texts(keys_of(j)), ","@))))
}

/// Compute a structure hash from the sorted field names of a JSON object
/// (the hash of no names for other values), so that objects with the same
/// fields share it.
pub fn compute_structure_hash(value: &Json) -> (h: String)
    ensures
        h@ == structure_hash(value@),
{
    let mut names: Vec<String> = Vec::new();
    match value {
        Json::Object(ms) => {
            proof {
                lemma_members_view(ms@);
            }
            let mut i: usize = 0;
            while i < ms.len()
                invariant
                    i <= ms@.len(),
                    names@.len() == i,
                    forall|k: int| 0 <= k < i ==> (#[trigger] names@[k])@ == ms@[k].0@,
                decreases ms.len() - i,
            {
                names.push(owned(ms[i].0.as_str()));
                i += 1;
            }
            proof {
                assert(names@.map_values(|x: String| x@) =~= keys_of(value@));
            }
        },
        _ => {
            proof {
                assert(names@.map_values(|x: String| x@) =~= keys_of(value@));
            }
        },
    }
    let sorted = sort_texts(&names);
    let joined = join_strings(&sorted, ",");
    let js = joined.as_str();
    proof {
        assert(js.spec_bytes() == encode_utf8(js@));
    }
    sha256_hex(js)
}

// ---------------------------------------------------------------------------
// Decomposition
// ---------------------------------------------------------------------------

/// A group of child items taken out of one member of the parent.
#[derive(Debug)]
pub struct ChildGroup {
    /// The member of the parent the items came from.
    pub field_name: String,
    /// The structure hash of the first item.
    pub structure_hash: String,
    /// The items that are objects.
    pub items: Vec<Json>,
}

/// The parent with the arrays of objects taken out, and those arrays.
#[derive(Debug)]
pub struct DecompositionResult {
    pub parent: Json,
    pub children: Vec<ChildGroup>,
}

/// A member value is taken out: an array whose first item is an object.
pub open spec fn extracted(v: JsonV) -> bool {
    match v {
        JsonV::Array(items) => items.len() > 0 && items[0] is Object,
        _ => false,
    }
}

/// The members that stay in the parent.
pub open spec fn kept(ms: Seq<(Seq<char>, JsonV)>) -> Seq<(Seq<char>, JsonV)>
    decreases ms.len(),
{
    if ms.len() == 0 {
        seq![]
    } else if extracted(ms.last().1) {
        kept(ms.drop_last())
    } else {
        kept(ms.drop_last()).push(ms.last())
    }
}

/// The items that are objects.
pub open spec fn object_items(items: Seq<JsonV>) -> Seq<JsonV>
    decreases items.len(),
{
    if items.len() == 0 {
        seq![]
    } else if items.last() is Object {
        object_items(items.drop_last()).push(items.last())
    } else {
        object_items(items.drop_last())
    }
}

/// A child group as plain values.
pub struct ChildGroupV {
    pub field_name: Seq<char>,
    pub structure_hash: Seq<char>,
    pub items: Seq<JsonV>,
}

/// The plain form of a child group.
pub open spec fn group_view(g: ChildGroup) -> ChildGroupV {
    ChildGroupV {
        field_name: g.field_name@,
        structure_hash: g.structure_hash@,
        items: items_view(g.items@),
    }
}

/// The child groups of the members taken out, in member order.
pub open spec fn groups(ms: Seq<(Seq<char>, JsonV)>) -> Seq<ChildGroupV>
    decreases ms.len(),
{
    if ms.len() == 0 {
        seq![]
    } else if extracted(ms.last().1) {
        let items = ms.last().1->Array_0;
        groups(ms.drop_last()).push(
            ChildGroupV {
                field_name: ms.last().0,
                structure_hash: structure_hash(items[0]),
                items: object_items(items),
            },
        )
    } else {
        groups(ms.drop_last())
    }
}

fn object_items_exec(items: &Vec<Json>) -> (r: Vec<Json>)
    ensures
        items_view(r@) == object_items(items_view(items@)),
{
    let ghost iv = items_view(items@);
    proof {
        lemma_items_view(items@);
    }
    let mut out: Vec<Json> = Vec::new();
    let mut i: usize = 0;
    while i < items.len()
        invariant
            i <= items@.len(),
            iv == items_view(items@),
            iv.len() == items@.len(),
            forall|k: int| 0 <= k < items@.len() ==> #[trigger] iv[k] == json_view(items@[k]),
            items_view(out@) == object_items(iv.take(i as int)),
        decreases items.len() - i,
    {
        proof {
            assert(iv.take(i + 1).drop_last() =~= iv.take(i as int));
            assert(iv.take(i + 1).last() == iv[i as int]);
        }
        if matches!(&items[i], Json::Object(_)) {
            let c = copy_json(&items[i]);
            let ghost before = out@;
            out.push(c);
            proof {
                lemma_items_view(before);
                lemma_items_view(out@);
                assert(out@.drop_last() =~= before);
                assert(items_view(out@) =~= items_view(before).push(json_view(c)));
            }
        }
        i += 1;
    }
    proof {
        assert(iv.take(items@.len() as int) =~= iv);
    }
    out
}

/// Split an object: each member holding an array whose first item is an
/// object becomes a child group (its name, the structure hash of the first
/// item, and the items that are objects) and leaves the parent. Other
/// members (primitives, arrays of primitives, empty arrays, nested
/// objects) stay. Other values are returned unchanged with no children.
pub fn decompose(data: &Json) -> (r: DecompositionResult)
    ensures
        match data@ {
            JsonV::Object(ms) => r.parent@ == JsonV::Object(kept(ms)) && r.children@.map_values(
                |g: ChildGroup| group_view(g),
            ) == groups(ms),
            _ => r.parent@ == data@ && r.children@.len() == 0,
        },
{
    let ms = match data {
        Json::Object(ms) => ms,
        _ => {
            return DecompositionResult { parent: copy_json(data), children: Vec::new() };
        },
    };
    let ghost mv = members_view(ms@);
    proof {
        lemma_members_view(ms@);
    }
    let mut parent: Vec<(String, Json)> = Vec::new();
    let mut children: Vec<ChildGroup> = Vec::new();
    let mut i: usize = 0;
    proof {
        assert(mv.take(0) =~= Seq::<(Seq<char>, JsonV)>::empty());
        assert(members_view(parent@) =~= Seq::<(Seq<char>, JsonV)>::empty());
        assert(children@.map_values(|g: ChildGroup| group_view(g)) =~= Seq::<ChildGroupV>::empty());
    }
    while i < ms.len()
        invariant
            i <= ms@.len(),
            mv == members_view(ms@),
            mv.len() == ms@.len(),
            forall|k: int| 0 <= k < ms@.len() ==> #[trigger] mv[k] == (ms@[k].0@, json_view(ms@[k].1)),
            members_view(parent@) == kept(mv.take(i as int)),
            children@.map_values(|g: ChildGroup| group_view(g)) == groups(mv.take(i as int)),
        decreases ms.len() - i,
    {
        proof {
            assert(mv.take(i + 1).drop_last() =~= mv.take(i as int));
            assert(mv.take(i + 1).last() == mv[i as int]);
        }
        let name = ms[i].0.as_str();
        let value = &ms[i].1;
        let mut taken = false;
        match value {
            Json::Array(items) => {
                proof {
                    lemma_items_view(items@);
                }
                if items.len() > 0 && matches!(&items[0], Json::Object(_)) {
                    let hash = compute_structure_hash(&items[0]);
                    let objs = object_items_exec(items);
                    let g = ChildGroup { field_name: owned(name), structure_hash: hash, items: objs };
                    let ghost before = children@;
                    children.push(g);
                    proof {
                        assert(children@.drop_last() =~= before);
                        assert(children@.map_values(|g: ChildGroup| group_view(g)) =~= before.map_values(
                            |g: ChildGroup| group_view(g),
                        ).push(group_view(g)));
                    }
                    taken = true;
                }
            },
            _ => {},
        }
        if !taken {
            let c = copy_json(value);
            let ghost before = parent@;
            parent.push((owned(name), c));
            proof {
                lemma_members_view(before);
                lemma_members_view(parent@);
                assert(parent@.drop_last() =~= before);
                assert(members_view(parent@) =~= members_view(before).push((name@, json_view(c))));
            }
        }
        i += 1;
    }
    proof {
        assert(mv.take(ms@.len() as int) =~= mv);
    }
    DecompositionResult { parent: Json::Object(parent), children }
}

// ---------------------------------------------------------------------------
// The order of texts
// ---------------------------------------------------------------------------

/// Every text comes no later than itself.
pub proof fn lemma_text_le_refl(a: Seq<char>)
    ensures
        text_le(a, a),
    decreases a.len(),
{
    if a.len() > 0 {
        lemma_text_le_refl(a.drop_first());
    }
}

/// Any two texts are ordered one way or the other.
pub proof fn lemma_text_le_total(a: Seq<char>, b: Seq<char>)
    ensures
        text_le(a, b) || text_le(b, a),
    decreases a.len(),
{
    if a.len() > 0 && b.len() > 0 {
        if a[0] != b[0] {
            assert(a[0] < b[0] || b[0] < a[0]);
        } else {
            lemma_text_le_total(a.drop_first(), b.drop_first());
        }
    }
}

/// Texts ordered both ways are the same.
pub proof fn lemma_text_le_antisym(a: Seq<char>, b: Seq<char>)
    requires
        text_le(a, b),
        text_le(b, a),
    ensures
        a == b,
    decreases a.len(),
{
    if a.len() == 0 {
        assert(b.len() == 0);
        assert(a =~= b);
    } else {
        assert(b.len() > 0);
        assert(a[0] == b[0]);
        lemma_text_le_antisym(a.drop_first(), b.drop_first());
        assert(a =~= seq![a[0]] + a.drop_first());
        assert(b =~= seq![b[0]] + b.drop_first());
    }
}

/// The order of texts is transitive.
pub proof fn lemma_text_le_trans(a: Seq<char>, b: Seq<char>, c: Seq<char>)
    requires
        text_le(a, b),
        text_le(b, c),
    ensures
        text_le(a, c),
    decreases a.len(),
{
    if a.len() > 0 {
        assert(b.len() > 0);
        assert(c.len() > 0);
        if a[0] == b[0] && b[0] == c[0] {
            lemma_text_le_trans(a.drop_first(), b.drop_first(), c.drop_first());
        }
    }
}

/// The texts are in lexicographic order.
pub open spec fn sorted_by_text(s: Seq<Seq<char>>) -> bool {
    forall|i: int, j: int| 0 <= i < j < s.len() ==> text_le(#[trigger] s[i], #[trigger] s[j])
}

proof fn lemma_insert_sorted(s: Seq<Seq<char>>, x: Seq<char>)
    requires
        sorted_by_text(s),
    ensures
        sorted_by_text(insert_sorted(s, x)),
        insert_sorted(s, x).to_multiset() == s.to_multiset().insert(x),
    decreases s.len(),
{
    broadcast use vstd::seq_lib::group_to_multiset_ensures;
    broadcast use vstd::multiset::group_multiset_axioms;

    if s.len() == 0 {
        assert(seq![x] =~= s.push(x));
    } else if text_le(x, s[0]) {
        let r = seq![x] + s;
        assert forall|i: int, j: int| 0 <= i < j < r.len() implies text_le(#[trigger] r[i], #[trigger] r[j]) by {
            if i == 0 {
                assert(r[j] == s[j - 1]);
                if j - 1 > 0 {
                    lemma_text_le_trans(x, s[0], s[j - 1]);
                }
            } else {
                assert(r[i] == s[i - 1] && r[j] == s[j - 1]);
            }
        }
        vstd::seq_lib::lemma_multiset_commutative(seq![x], s);
        assert(seq![x] =~= Seq::<Seq<char>>::empty().push(x));
        assert(seq![x].to_multiset() =~= Multiset::<Seq<char>>::empty().insert(x));
        assert(r.to_multiset() =~= s.to_multiset().insert(x));
    } else {
        let t = s.drop_first();
        assert(sorted_by_text(t)) by {
            assert forall|i: int, j: int| 0 <= i < j < t.len() implies text_le(#[trigger] t[i], #[trigger] t[j]) by {
                assert(t[i] == s[i + 1] && t[j] == s[j + 1]);
            }
        }
        lemma_insert_sorted(t, x);
        let q = insert_sorted(t, x);
        let r = seq![s[0]] + q;
        lemma_text_le_total(x, s[0]);
        assert forall|i: int, j: int| 0 <= i < j < r.len() implies text_le(#[trigger] r[i], #[trigger] r[j]) by {
            if i == 0 {
                let y = q[j - 1];
                assert(r[j] == y);
                assert(q.contains(y));
                assert(q.to_multiset().count(y) > 0);
                if y == x {
                } else {
                    assert(t.to_multiset().count(y) > 0);
                    assert(t.contains(y));
                    let k = choose|k: int| 0 <= k < t.len() && t[k] == y;
                    assert(s[k + 1] == y);
                }
            } else {
                assert(r[i] == q[i - 1] && r[j] == q[j - 1]);
            }
        }
        vstd::seq_lib::lemma_multiset_commutative(seq![s[0]], q);
        vstd::seq_lib::lemma_multiset_commutative(seq![s[0]], t);
        assert(seq![s[0]] + t =~= s);
        assert(r.to_multiset() =~= s.to_multiset().insert(x));
    }
}

/// Sorting gives the texts in lexicographic order, each as often as
/// before.
pub proof fn lemma_sorted_texts(s: Seq<Seq<char>>)
    ensures
        sorted_by_text(sorted_texts(s)),
        sorted_texts(s).to_multiset() == s.to_multiset(),
    decreases s.len(),
{
    broadcast use vstd::seq_lib::group_to_multiset_ensures;

    if s.len() > 0 {
        lemma_sorted_texts(s.drop_last());
        lemma_insert_sorted(sorted_texts(s.drop_last()), s.last());
        assert(s.drop_last().push(s.last()) =~= s);
    }
}

/// Two sorted sequences of the same texts are the same.
pub proof fn lemma_sorted_unique(a: Seq<Seq<char>>, b: Seq<Seq<char>>)
    requires
        sorted_by_text(a),
        sorted_by_text(b),
        a.to_multiset() == b.to_multiset(),
    ensures
        a == b,
    decreases a.len(),
{
    broadcast use vstd::seq_lib::group_to_multiset_ensures;

    vstd::seq_lib::to_multiset_len(a);
    vstd::seq_lib::to_multiset_len(b);
    assert(a.len() == b.len());
    if a.len() > 0 {
        let x = a[0];
        let y = b[0];
        assert(a.contains(x));
        assert(b.to_multiset().count(x) > 0);
        assert(b.contains(x));
        let kb = choose|k: int| 0 <= k < b.len() && b[k] == x;
        if kb > 0 {
            assert(text_le(b[0], b[kb]));
        } else {
            lemma_text_le_refl(y);
        }
        assert(b.contains(y));
        assert(a.to_multiset().count(y) > 0);
        assert(a.contains(y));
        let ka = choose|k: int| 0 <= k < a.len() && a[k] == y;
        if ka > 0 {
            assert(text_le(a[0], a[ka]));
        } else {
            lemma_text_le_refl(x);
        }
        lemma_text_le_antisym(x, y);
        assert(a.remove(0) =~= a.drop_first());
        assert(b.remove(0) =~= b.drop_first());
        let a1 = a.drop_first();
        let b1 = b.drop_first();
        assert(sorted_by_text(a1)) by {
            assert forall|i: int, j: int| 0 <= i < j < a1.len() implies text_le(#[trigger] a1[i], #[trigger] a1[j]) by {
                assert(a1[i] == a[i + 1] && a1[j] == a[j + 1]);
            }
        }
        assert(sorted_by_text(b1)) by {
            assert forall|i: int, j: int| 0 <= i < j < b1.len() implies text_le(#[trigger] b1[i], #[trigger] b1[j]) by {
                assert(b1[i] == b[i + 1] && b1[j] == b[j + 1]);
            }
        }
        assert(a1.to_multiset() == a.to_multiset().remove(x));
        assert(b1.to_multiset() == b.to_multiset().remove(y));
        lemma_sorted_unique(a1, b1);
        assert(a =~= seq![x] + a1);
        assert(b =~= seq![y] + b1);
    }
}

/// The structure hash does not depend on the order of the fields: objects
/// with the same field names, in any order, share it.
pub proof fn law_structure_hash_ignores_field_order(a: JsonV, b: JsonV)
    requires
        keys_of(a).to_multiset() == keys_of(b).to_multiset(),
    ensures
        structure_hash(a) == structure_hash(b),
{
    lemma_sorted_texts(keys_of(a));
    lemma_sorted_texts(keys_of(b));
    lemma_sorted_unique(sorted_texts(keys_of(a)), sorted_texts(keys_of(b)));
}

/// The field names are hashed in lexicographic order, each once per
/// field.
pub proof fn law_field_names_sorted(j: JsonV)
    ensures
        sorted_by_text(sorted_texts(keys_of(j))),
        sorted_texts(keys_of(j)).to_multiset() == keys_of(j).to_multiset(),
{
    lemma_sorted_texts(keys_of(j));
}

/// Decomposition loses no member: each stays in the parent or becomes a
/// child group, and no member left in the parent holds an array of
/// objects.
pub proof fn law_members_partitioned(ms: Seq<(Seq<char>, JsonV)>)
    ensures
        kept(ms).len() + groups(ms).len() == ms.len(),
        forall|i: int| 0 <= i < kept(ms).len() ==> !extracted(#[trigger] kept(ms)[i].1),
    decreases ms.len(),
{
    if ms.len() > 0 {
        law_members_partitioned(ms.drop_last());
        let p = kept(ms.drop_last());
        if !extracted(ms.last().1) {
            assert forall|i: int| 0 <= i < kept(ms).len() implies !extracted(#[trigger] kept(ms)[i].1) by {
                if i < p.len() {
                    assert(kept(ms)[i] == p[i]);
                }
            }
        }
    }
}

/// Decomposition in terms of the members it reads: the parent keeps, in
/// order, exactly the members that do not hold an array whose first item
/// is an object; the child groups are, in order, exactly the others, each
/// named by its member, holding that array's object items and hashed by
/// its first item.
pub proof fn law_decomposition_follows_members(ms: Seq<(Seq<char>, JsonV)>)
    ensures
        kept(ms) == ms.filter(|p: (Seq<char>, JsonV)| !extracted(p.1)),
        groups(ms) == ms.filter(|p: (Seq<char>, JsonV)| extracted(p.1)).map_values(
            |p: (Seq<char>, JsonV)|
                ChildGroupV {
                    field_name: p.0,
                    structure_hash: structure_hash(p.1->Array_0[0]),
                    items: object_items(p.1->Array_0),
                },
        ),
    decreases ms.len(),
{
    let keep = |p: (Seq<char>, JsonV)| !extracted(p.1);
    let take = |p: (Seq<char>, JsonV)| extracted(p.1);
    let as_group = |p: (Seq<char>, JsonV)|
        ChildGroupV {
            field_name: p.0,
            structure_hash: structure_hash(p.1->Array_0[0]),
            items: object_items(p.1->Array_0),
        };
    if ms.len() == 0 {
        reveal(Seq::filter);
        assert(ms.filter(keep) =~= Seq::<(Seq<char>, JsonV)>::empty());
        assert(ms.filter(take) =~= Seq::<(Seq<char>, JsonV)>::empty());
        assert(ms.filter(take).map_values(as_group) =~= Seq::<ChildGroupV>::empty());
    } else {
        let d = ms.drop_last();
        law_decomposition_follows_members(d);
        assert(d.push(ms.last()) =~= ms);
        d.lemma_filter_push(ms.last(), keep);
        d.lemma_filter_push(ms.last(), take);
        if extracted(ms.last().1) {
            assert(d.filter(take).push(ms.last()).map_values(as_group) =~= d.filter(take).map_values(
                as_group,
            ).push(as_group(ms.last())));
        }
    }
}

} // verus!
