//! The structure-hash schema cache of decomposed ingestion, with a local
//! scope per ingestion call and a shared store across files.
//!
//! 1. `get` checks the local scope first, then the shared store;
//! 2. `insert` writes to the local scope only (safe during partial
//!    resolution);
//! 3. `commit` flushes the local scope into the shared store.
//!
//! Maps keyed by strings are association lists whose keys occur once.

use crate::decomposer::{group_view, ChildGroup, ChildGroupV};
use crate::error::IngestionError;
use crate::text::{owned, push_str, str_eq};
use vstd::prelude::*;

verus! {

/// The entries of an association list as plain text keys and views.
pub open spec fn pairs<V: View>(s: Seq<(String, V)>) -> Seq<(Seq<char>, V::V)> {
    s.map_values(|p: (String, V)| (p.0@, p.1@))
}

/// The map an association list stands for: a later entry wins.
pub open spec fn assoc<W>(p: Seq<(Seq<char>, W)>) -> Map<Seq<char>, W>
    decreases p.len(),
{
    if p.len() == 0 {
        Map::empty()
    } else {
        assoc(p.drop_last()).insert(p.last().0, p.last().1)
    }
}

/// No key occurs twice.
pub open spec fn unique_keys<W>(p: Seq<(Seq<char>, W)>) -> bool {
    forall|i: int, j: int| 0 <= i < j < p.len() ==> p[i].0 != p[j].0
}

/// The keys of an association list are those of its entries.
pub proof fn lemma_assoc_dom<W>(p: Seq<(Seq<char>, W)>, k: Seq<char>)
    ensures
        assoc(p).contains_key(k) <==> exists|i: int| 0 <= i < p.len() && p[i].0 == k,
    decreases p.len(),
{
    if p.len() > 0 {
        lemma_assoc_dom(p.drop_last(), k);
        if assoc(p.drop_last()).contains_key(k) {
            let i = choose|i: int| 0 <= i < p.drop_last().len() && p.drop_last()[i].0 == k;
            assert(p[i].0 == k);
        }
        if exists|i: int| 0 <= i < p.len() && p[i].0 == k {
            let i = choose|i: int| 0 <= i < p.len() && p[i].0 == k;
            if i < p.len() - 1 {
                assert(p.drop_last()[i].0 == k);
            }
        }
    }
}

/// With unique keys, each entry's value is the map's value at its key.
pub proof fn lemma_assoc_at<W>(p: Seq<(Seq<char>, W)>, i: int)
    requires
        unique_keys(p),
        0 <= i < p.len(),
    ensures
        assoc(p).contains_key(p[i].0),
        assoc(p)[p[i].0] == p[i].1,
    decreases p.len(),
{
    if i < p.len() - 1 {
        assert(unique_keys(p.drop_last()));
        lemma_assoc_at(p.drop_last(), i);
        assert(p.drop_last()[i] == p[i]);
        assert(p.last().0 != p[i].0);
    }
}

/// Replacing the value of the entry at `i` updates the map at its key.
pub proof fn lemma_assoc_update<W>(p: Seq<(Seq<char>, W)>, i: int, w: W)
    requires
        unique_keys(p),
        0 <= i < p.len(),
    ensures
        unique_keys(p.update(i, (p[i].0, w))),
        assoc(p.update(i, (p[i].0, w))) == assoc(p).insert(p[i].0, w),
    decreases p.len(),
{
    let q = p.update(i, (p[i].0, w));
    assert(unique_keys(q)) by {
        assert forall|a: int, b: int| 0 <= a < b < q.len() implies q[a].0 != q[b].0 by {
            assert(q[a].0 == p[a].0);
            assert(q[b].0 == p[b].0);
        }
    }
    if i == p.len() - 1 {
        assert(q.drop_last() =~= p.drop_last());
        assert(assoc(q) =~= assoc(p).insert(p[i].0, w));
    } else {
        assert(unique_keys(p.drop_last()));
        lemma_assoc_update(p.drop_last(), i, w);
        assert(q.drop_last() =~= p.drop_last().update(i, (p[i].0, w)));
        assert(p.last().0 != p[i].0);
        assert(assoc(q) =~= assoc(p).insert(p[i].0, w));
    }
}

/// The index of the entry with key `k`, if any.
fn find_key<V>(list: &Vec<(String, V)>, k: &str) -> (r: Option<usize>)
    ensures
        r matches Some(i) ==> i < list@.len() && list@[i as int].0@ == k@,
        r is None ==> forall|i: int| 0 <= i < list@.len() ==> list@[i].0@ != k@,
{
    let mut i: usize = 0;
    while i < list.len()
        invariant
            i <= list@.len(),
            forall|j: int| 0 <= j < i ==> list@[j].0@ != k@,
        decreases list.len() - i,
    {
        if str_eq(list[i].0.as_str(), k) {
            return Some(i);
        }
        i += 1;
    }
    None
}

/// Set `k` to `v` in the association list: the entry with key `k` is
/// replaced, or a new one appended.
fn assoc_insert<V: View>(list: &mut Vec<(String, V)>, k: String, v: V)
    requires
        unique_keys(pairs(old(list)@)),
    ensures
        unique_keys(pairs(final(list)@)),
        assoc(pairs(final(list)@)) == assoc(pairs(old(list)@)).insert(k@, v@),
{
    let ghost before = pairs(list@);
    match find_key(list, k.as_str()) {
        Some(i) => {
            let ghost kv = k@;
            let ghost vv = v@;
            list.set(i, (k, v));
            proof {
                assert(before[i as int].0 == kv);
                assert(pairs(list@) =~= before.update(i as int, (before[i as int].0, vv)));
                lemma_assoc_update(before, i as int, vv);
            }
        },
        None => {
            let ghost kv = k@;
            let ghost vv = v@;
            list.push((k, v));
            proof {
                assert(pairs(list@) =~= before.push((kv, vv)));
                assert(pairs(list@).drop_last() =~= before);
                assert forall|a: int, b: int|
                    0 <= a < b < pairs(list@).len() implies pairs(list@)[a].0 != pairs(list@)[b].0 by {
                    if b == before.len() {
                        assert(pairs(list@)[a].0 == list@[a].0@);
                    } else {
                        assert(pairs(list@)[a] == before[a]);
                        assert(pairs(list@)[b] == before[b]);
                    }
                }
            }
        },
    }
}

/// A copy of a string-to-string association list.
fn copy_pairs(list: &Vec<(String, String)>) -> (r: Vec<(String, String)>)
    ensures
        pairs(r@) == pairs(list@),
{
    let mut r: Vec<(String, String)> = Vec::new();
    let mut i: usize = 0;
    while i < list.len()
        invariant
            i <= list@.len(),
            pairs(r@) == pairs(list@).take(i as int),
        decreases list.len() - i,
    {
        let a = owned(list[i].0.as_str());
        let b = owned(list[i].1.as_str());
        proof {
            assert(pairs(r@.push((a, b))) =~= pairs(r@).push((a@, b@)));
            assert(pairs(list@).take(i + 1) =~= pairs(list@).take(i as int).push(pairs(list@)[i as int]));
        }
        r.push((a, b));
        i += 1;
    }
    proof {
        assert(pairs(list@).take(list@.len() as int) =~= pairs(list@));
    }
    r
}

/// Merge service or batch field renames into the AI's mutation mappers:
/// the renames win, a later rename over an earlier one.
pub fn merge_mappers(ai_mappers: &Vec<(String, String)>, extra: Vec<(String, String)>) -> (merged: Vec<
    (String, String),
>)
    requires
        unique_keys(pairs(ai_mappers@)),
    ensures
        unique_keys(pairs(merged@)),
        assoc(pairs(merged@)) == assoc(pairs(ai_mappers@)).union_prefer_right(assoc(pairs(extra@))),
{
    let mut merged = copy_pairs(ai_mappers);
    let ghost base = assoc(pairs(ai_mappers@));
    let ghost ex = pairs(extra@);
    proof {
        assert(assoc(ex.take(0)) =~= Map::<Seq<char>, Seq<char>>::empty());
        assert(base.union_prefer_right(Map::empty()) =~= base);
    }
    let mut i: usize = 0;
    while i < extra.len()
        invariant
            i <= extra@.len(),
            ex == pairs(extra@),
            unique_keys(pairs(merged@)),
            assoc(pairs(merged@)) == base.union_prefer_right(assoc(ex.take(i as int))),
        decreases extra.len() - i,
    {
        let k = owned(extra[i].0.as_str());
        let v = owned(extra[i].1.as_str());
        proof {
            assert(ex.take(i + 1).drop_last() =~= ex.take(i as int));
            assert(ex.take(i + 1).last() == (k@, v@));
            assert(base.union_prefer_right(assoc(ex.take(i + 1))) =~= base.union_prefer_right(
                assoc(ex.take(i as int)),
            ).insert(k@, v@));
        }
        assoc_insert(&mut merged, k, v);
        i += 1;
    }
    proof {
        assert(ex.take(extra@.len() as int) =~= ex);
    }
    merged
}

/// A cached schema: the schema's name and its field renames.
pub struct CachedSchema {
    pub schema_name: String,
    pub mutation_mappers: Vec<(String, String)>,
}

/// A cached schema as plain values.
pub struct CachedView {
    pub schema_name: Seq<char>,
    pub mappers: Map<Seq<char>, Seq<char>>,
}

impl View for CachedSchema {
    type V = CachedView;

    open spec fn view(&self) -> CachedView {
        CachedView { schema_name: self.schema_name@, mappers: assoc(pairs(self.mutation_mappers@)) }
    }
}

impl CachedSchema {
    /// A copy of this entry.
    pub fn copy(&self) -> (r: CachedSchema)
        ensures
            r@ == self@,
            pairs(r.mutation_mappers@) == pairs(self.mutation_mappers@),
    {
        CachedSchema {
            schema_name: owned(self.schema_name.as_str()),
            mutation_mappers: copy_pairs(&self.mutation_mappers),
        }
    }
}

/// The view of an optional cached schema.
pub open spec fn opt_cached(o: Option<CachedSchema>) -> Option<CachedView> {
    match o {
        Some(c) => Some(c@),
        None => None,
    }
}

/// The schemas cached across files.
pub struct SchemaStore {
    pub entries: Vec<(String, CachedSchema)>,
}

impl View for SchemaStore {
    type V = Map<Seq<char>, CachedView>;

    open spec fn view(&self) -> Map<Seq<char>, CachedView> {
        assoc(pairs(self.entries@))
    }
}

impl SchemaStore {
    /// Each structure hash occurs once.
    pub open spec fn wf(&self) -> bool {
        unique_keys(pairs(self.entries@))
    }

    /// An empty store.
    pub fn new() -> (s: SchemaStore)
        ensures
            s.wf(),
            s@ == Map::<Seq<char>, CachedView>::empty(),
    {
        let s = SchemaStore { entries: Vec::new() };
        proof {
            assert(pairs(s.entries@) =~= Seq::<(Seq<char>, CachedView)>::empty());
        }
        s
    }
}

/// What a cache with local scope `local` over the shared store `shared`
/// holds for `hash`: the local entry, else the shared one.
pub open spec fn lookup(
    local: Map<Seq<char>, CachedView>,
    shared: Map<Seq<char>, CachedView>,
    hash: Seq<char>,
) -> Option<CachedView> {
    if local.contains_key(hash) {
        Some(local[hash])
    } else if shared.contains_key(hash) {
        Some(shared[hash])
    } else {
        None
    }
}

fn get_entry(list: &Vec<(String, CachedSchema)>, hash: &str) -> (r: Option<CachedSchema>)
    requires
        unique_keys(pairs(list@)),
    ensures
        opt_cached(r) == (if assoc(pairs(list@)).contains_key(hash@) {
            Some(assoc(pairs(list@))[hash@])
        } else {
            None::<CachedView>
        }),
{
    match find_key(list, hash) {
        Some(i) => {
            proof {
                lemma_assoc_at(pairs(list@), i as int);
                assert(pairs(list@)[i as int] == (list@[i as int].0@, list@[i as int].1@));
            }
            Some(list[i].1.copy())
        },
        None => {
            proof {
                lemma_assoc_dom(pairs(list@), hash@);
                assert forall|i: int| 0 <= i < pairs(list@).len() implies pairs(list@)[i].0 != hash@ by {
                    assert(pairs(list@)[i].0 == list@[i].0@);
                }
            }
            None
        },
    }
}

impl SchemaStore {
    /// The shared entry for `hash`, if any.
    pub fn get(&self, hash: &str) -> (r: Option<CachedSchema>)
        requires
            self.wf(),
        ensures
            opt_cached(r) == (if self@.contains_key(hash@) {
                Some(self@[hash@])
            } else {
                None::<CachedView>
            }),
    {
        get_entry(&self.entries, hash)
    }
}

/// The schema cache of one ingestion call.
pub struct SchemaCache {
    pub local: Vec<(String, CachedSchema)>,
}

impl View for SchemaCache {
    type V = Map<Seq<char>, CachedView>;

    open spec fn view(&self) -> Map<Seq<char>, CachedView> {
        assoc(pairs(self.local@))
    }
}

impl SchemaCache {
    /// Each structure hash occurs once in the local scope.
    pub open spec fn wf(&self) -> bool {
        unique_keys(pairs(self.local@))
    }

    /// A cache with an empty local scope.
    pub fn new() -> (c: SchemaCache)
        ensures
            c.wf(),
            c@ == Map::<Seq<char>, CachedView>::empty(),
    {
        let c = SchemaCache { local: Vec::new() };
        proof {
            assert(pairs(c.local@) =~= Seq::<(Seq<char>, CachedView)>::empty());
        }
        c
    }

    /// Look up a structure hash: the local scope first, then `shared`.
    pub fn get(&self, shared: &SchemaStore, hash: &str) -> (r: Option<CachedSchema>)
        requires
            self.wf(),
            shared.wf(),
        ensures
            opt_cached(r) == lookup(self@, shared@, hash@),
    {
        match get_entry(&self.local, hash) {
            Some(c) => Some(c),
            None => shared.get(hash),
        }
    }

    /// Whether the structure hash is in the local scope or in `shared`.
    pub fn contains_key(&self, shared: &SchemaStore, hash: &str) -> (b: bool)
        requires
            self.wf(),
            shared.wf(),
        ensures
            b == (self@.contains_key(hash@) || shared@.contains_key(hash@)),
    {
        get_entry(&self.local, hash).is_some() || get_entry(&shared.entries, hash).is_some()
    }

    /// Insert into the local scope only.
    pub fn insert(&mut self, hash: String, cached: CachedSchema)
        requires
            old(self).wf(),
        ensures
            final(self).wf(),
            final(self)@ == old(self)@.insert(hash@, cached@),
    {
        assoc_insert(&mut self.local, hash, cached);
    }

    /// The schema names of the local entries, one per entry.
    pub fn local_schema_names(&self) -> (names: Vec<String>)
        ensures
            names@.len() == self.local@.len(),
            forall|i: int| 0 <= i < names@.len() ==> (#[trigger] names@[i])@ == self.local@[i].1.schema_name@,
    {
        let mut names: Vec<String> = Vec::new();
        let mut i: usize = 0;
        while i < self.local.len()
            invariant
                i <= self.local@.len(),
                names@.len() == i,
                forall|j: int| 0 <= j < i ==> (#[trigger] names@[j])@ == self.local@[j].1.schema_name@,
            decreases self.local.len() - i,
        {
            names.push(owned(self.local[i].1.schema_name.as_str()));
            i += 1;
        }
        names
    }

    /// Rename the cached schemas after `name_map` (ingestion into an org):
    /// a name found in the map is replaced by its org-scoped name.
    pub fn remap_to_org(&mut self, name_map: &Vec<(String, String)>)
        requires
            old(self).wf(),
            unique_keys(pairs(name_map@)),
        ensures
            final(self).wf(),
            final(self)@.dom() == old(self)@.dom(),
            forall|k: Seq<char>|
                #![trigger final(self)@[k]]
                old(self)@.contains_key(k) ==> final(self)@[k] == (CachedView {
                    schema_name: renamed(assoc(pairs(name_map@)), old(self)@[k].schema_name),
                    mappers: old(self)@[k].mappers,
                }),
    {
        let ghost names = assoc(pairs(name_map@));
        let ghost start = pairs(self.local@);
        let mut i: usize = 0;
        while i < self.local.len()
            invariant
                i <= self.local@.len(),
                names == assoc(pairs(name_map@)),
                unique_keys(pairs(name_map@)),
                unique_keys(start),
                self.local@.len() == start.len(),
                unique_keys(pairs(self.local@)),
                forall|j: int| 0 <= j < self.local@.len() ==> (#[trigger] pairs(self.local@)[j]).0 == start[j].0,
                forall|j: int| 0 <= j < i ==> (#[trigger] pairs(self.local@)[j]).1 == (CachedView {
                    schema_name: renamed(names, start[j].1.schema_name),
                    mappers: start[j].1.mappers,
                }),
                forall|j: int| i <= j < self.local@.len() ==> (#[trigger] pairs(self.local@)[j]).1 == start[j].1,
            decreases self.local.len() - i,
        {
            let ghost before = pairs(self.local@);
            let new_name = match find_key(name_map, self.local[i].1.schema_name.as_str()) {
                Some(j) => {
                    proof {
                        lemma_assoc_at(pairs(name_map@), j as int);
                        assert(pairs(name_map@)[j as int] == (name_map@[j as int].0@, name_map@[j as int].1@));
                    }
                    owned(name_map[j].1.as_str())
                },
                None => {
                    proof {
                        lemma_assoc_dom(pairs(name_map@), self.local@[i as int].1.schema_name@);
                        assert forall|j: int| 0 <= j < pairs(name_map@).len() implies pairs(name_map@)[j].0
                            != self.local@[i as int].1.schema_name@ by {
                            assert(pairs(name_map@)[j].0 == name_map@[j].0@);
                        }
                    }
                    owned(self.local[i].1.schema_name.as_str())
                },
            };
            let key = owned(self.local[i].0.as_str());
            let mappers = copy_pairs(&self.local[i].1.mutation_mappers);
            let entry = CachedSchema { schema_name: new_name, mutation_mappers: mappers };
            let ghost ev = entry@;
            self.local.set(i, (key, entry));
            proof {
                assert(before[i as int].1 == start[i as int].1);
                assert(pairs(self.local@) =~= before.update(i as int, (before[i as int].0, ev)));
                lemma_assoc_update(before, i as int, ev);
            }
            i += 1;
        }
        proof {
            let fin = pairs(self.local@);
            assert forall|k: Seq<char>| old(self)@.contains_key(k) implies #[trigger] self@.contains_key(k) && self@[k]
                == (CachedView {
                schema_name: renamed(names, old(self)@[k].schema_name),
                mappers: old(self)@[k].mappers,
            }) by {
                lemma_assoc_dom(start, k);
                let j = choose|j: int| 0 <= j < start.len() && start[j].0 == k;
                lemma_assoc_at(start, j);
                assert(fin[j].0 == k);
                lemma_assoc_at(fin, j);
            }
            assert forall|k: Seq<char>| self@.contains_key(k) implies old(self)@.contains_key(k) by {
                lemma_assoc_dom(fin, k);
                let j = choose|j: int| 0 <= j < fin.len() && fin[j].0 == k;
                assert(start[j].0 == k);
                lemma_assoc_dom(start, k);
            }
            assert(self@.dom() =~= old(self)@.dom());
        }
    }

    /// Flush the local scope into the shared store.
    pub fn commit(&self, shared: &mut SchemaStore)
        requires
            self.wf(),
            old(shared).wf(),
        ensures
            final(shared).wf(),
            final(shared)@ == old(shared)@.union_prefer_right(self@),
    {
        let ghost start = shared@;
        let ghost loc = pairs(self.local@);
        proof {
            assert(assoc(loc.take(0)) =~= Map::<Seq<char>, CachedView>::empty());
            assert(start.union_prefer_right(Map::empty()) =~= start);
        }
        let mut i: usize = 0;
        while i < self.local.len()
            invariant
                i <= self.local@.len(),
                loc == pairs(self.local@),
                shared.wf(),
                shared@ == start.union_prefer_right(assoc(loc.take(i as int))),
            decreases self.local.len() - i,
        {
            let k = owned(self.local[i].0.as_str());
            let v = self.local[i].1.copy();
            proof {
                assert(loc.take(i + 1).drop_last() =~= loc.take(i as int));
                assert(loc.take(i + 1).last() == (k@, v@));
                assert(start.union_prefer_right(assoc(loc.take(i + 1))) =~= start.union_prefer_right(
                    assoc(loc.take(i as int)),
                ).insert(k@, v@));
            }
            assoc_insert(&mut shared.entries, k, v);
            i += 1;
        }
        proof {
            assert(loc.take(self.local@.len() as int) =~= loc);
        }
    }
}

/// The field list with `f` appended unless it is there; a list of just
/// `f` when there is none.
pub open spec fn with_field(fields: Option<Seq<Seq<char>>>, f: Seq<char>) -> Option<Seq<Seq<char>>> {
    match fields {
        Some(fs) => Some(
            if fs.contains(f) {
                fs
            } else {
                fs.push(f)
            },
        ),
        None => Some(seq![f]),
    }
}

/// A parent's references and field list after linking its child groups in
/// order: each child's field refers to the schema cached for its structure
/// hash and joins the field list; the first child without a cached schema
/// stops the linking with an error.
pub open spec fn linked(
    refs: Map<Seq<char>, Seq<char>>,
    fields: Option<Seq<Seq<char>>>,
    children: Seq<ChildGroupV>,
    local: Map<Seq<char>, CachedView>,
    shared: Map<Seq<char>, CachedView>,
) -> Result<(Map<Seq<char>, Seq<char>>, Option<Seq<Seq<char>>>), Seq<char>>
    decreases children.len(),
{
    if children.len() == 0 {
        Ok((refs, fields))
    } else {
        match linked(refs, fields, children.drop_last(), local, shared) {
            Err(m) => Err(m),
            Ok((r, f)) => {
                let c = children.last();
                match lookup(local, shared, c.structure_hash) {
                    None => Err(
                        "No cached schema for child structure hash '"@ + c.structure_hash
                            + "' (field '"@ + c.field_name + "')"@,
                    ),
                    Some(cv) => Ok((r.insert(c.field_name, cv.schema_name), with_field(f, c.field_name))),
                }
            },
        }
    }
}

/// The view of an optional field list.
pub open spec fn fields_view(f: Option<Vec<String>>) -> Option<Seq<Seq<char>>> {
    match f {
        Some(v) => Some(v@.map_values(|x: String| x@)),
        None => None,
    }
}

fn has_text(v: &Vec<String>, f: &str) -> (b: bool)
    ensures
        b == v@.map_values(|x: String| x@).contains(f@),
{
    let ghost all = v@.map_values(|x: String| x@);
    let mut i: usize = 0;
    while i < v.len()
        invariant
            i <= v@.len(),
            all == v@.map_values(|x: String| x@),
            forall|k: int| 0 <= k < i ==> v@[k]@ != f@,
        decreases v.len() - i,
    {
        if str_eq(v[i].as_str(), f) {
            assert(all[i as int] == f@);
            return true;
        }
        i += 1;
    }
    proof {
        if all.contains(f@) {
            let k = choose|k: int| 0 <= k < all.len() && all[k] == f@;
            assert(v@[k]@ == f@);
        }
    }
    false
}

fn add_field(fields: &mut Option<Vec<String>>, f: &str)
    ensures
        fields_view(*final(fields)) == with_field(fields_view(*old(fields)), f@),
{
    let present = match &*fields {
        Some(v) => has_text(v, f),
        None => false,
    };
    if present {
        return;
    }
    match fields {
        Some(v) => {
            let ghost before = v@.map_values(|x: String| x@);
            v.push(owned(f));
            proof {
                assert(v@.map_values(|x: String| x@) =~= before.push(f@));
            }
        },
        None => {
            let mut v: Vec<String> = Vec::new();
            v.push(owned(f));
            proof {
                assert(v@.map_values(|x: String| x@) =~= seq![f@]);
            }
            *fields = Some(v);
        },
    }
}

/// Link a parent schema to the schemas of its child groups: each child's
/// field refers to the schema cached (locally, else in `shared`) for the
/// child's structure hash, and is added to the parent's field list (a list
/// of it alone when the parent has none). A child whose structure has no
/// cached schema is an error; the caller then keeps the parent as it was.
pub fn link_child_schemas(
    ref_fields: &mut Vec<(String, String)>,
    fields: &mut Option<Vec<String>>,
    children: &Vec<ChildGroup>,
    cache: &SchemaCache,
    shared: &SchemaStore,
) -> (r: Result<(), IngestionError>)
    requires
        unique_keys(pairs(old(ref_fields)@)),
        cache.wf(),
        shared.wf(),
    ensures
        match linked(
            assoc(pairs(old(ref_fields)@)),
            fields_view(*old(fields)),
            children@.map_values(|g: ChildGroup| group_view(g)),
            cache@,
            shared@,
        ) {
            Ok((refs, fs)) => r is Ok && unique_keys(pairs(final(ref_fields)@)) && assoc(
                pairs(final(ref_fields)@),
            ) == refs && fields_view(*final(fields)) == fs,
            Err(m) => r matches Err(IngestionError::SchemaCreationError(x)) && x@ == m,
        },
{
    let ghost cv = children@.map_values(|g: ChildGroup| group_view(g));
    let mut i: usize = 0;
    proof {
        assert(cv.take(0) =~= Seq::<ChildGroupV>::empty());
    }
    while i < children.len()
        invariant
            i <= children@.len(),
            cv == children@.map_values(|g: ChildGroup| group_view(g)),
            cache.wf(),
            shared.wf(),
            unique_keys(pairs(ref_fields@)),
            linked(
                assoc(pairs(old(ref_fields)@)),
                fields_view(*old(fields)),
                cv.take(i as int),
                cache@,
                shared@,
            ) == Ok::<(Map<Seq<char>, Seq<char>>, Option<Seq<Seq<char>>>), Seq<char>>((assoc(pairs(ref_fields@)), fields_view(*fields))),
        decreases children.len() - i,
    {
        proof {
            assert(cv.take(i + 1).drop_last() =~= cv.take(i as int));
            assert(cv.take(i + 1).last() == group_view(children@[i as int]));
        }
        let c = &children[i];
        match cache.get(shared, c.structure_hash.as_str()) {
            None => {
                let mut m = owned("No cached schema for child structure hash '");
                push_str(&mut m, c.structure_hash.as_str());
                push_str(&mut m, "' (field '");
                push_str(&mut m, c.field_name.as_str());
                push_str(&mut m, "')");
                proof {
                    lemma_linked_err_stays(
                        assoc(pairs(old(ref_fields)@)),
                        fields_view(*old(fields)),
                        cv,
                        cache@,
                        shared@,
                        i + 1,
                    );
                }
                return Err(IngestionError::SchemaCreationError(m));
            },
            Some(cached) => {
                assoc_insert(ref_fields, owned(c.field_name.as_str()), owned(cached.schema_name.as_str()));
                add_field(fields, c.field_name.as_str());
            },
        }
        i += 1;
    }
    proof {
        assert(cv.take(children@.len() as int) =~= cv);
    }
    Ok(())
}

proof fn lemma_linked_err_stays(
    refs: Map<Seq<char>, Seq<char>>,
    fields: Option<Seq<Seq<char>>>,
    cs: Seq<ChildGroupV>,
    local: Map<Seq<char>, CachedView>,
    shared: Map<Seq<char>, CachedView>,
    k: int,
)
    requires
        0 <= k <= cs.len(),
        linked(refs, fields, cs.take(k), local, shared) is Err,
    ensures
        linked(refs, fields, cs, local, shared) == linked(refs, fields, cs.take(k), local, shared),
    decreases cs.len() - k,
{
    if k < cs.len() {
        assert(cs.take(k + 1).drop_last() =~= cs.take(k));
        lemma_linked_err_stays(refs, fields, cs, local, shared, k + 1);
    } else {
        assert(cs.take(k) =~= cs);
    }
}

/// The org-scoped name of `name`, or `name` when the map has none.
pub open spec fn renamed(names: Map<Seq<char>, Seq<char>>, name: Seq<char>) -> Seq<char> {
    if names.contains_key(name) {
        names[name]
    } else {
        name
    }
}

/// What was inserted is read back, whatever the shared store holds.
pub proof fn law_get_after_insert(
    local: Map<Seq<char>, CachedView>,
    shared: Map<Seq<char>, CachedView>,
    hash: Seq<char>,
    cached: CachedView,
)
    ensures
        lookup(local.insert(hash, cached), shared, hash) == Some(cached),
{
}

/// An insert changes what is read for its own hash only.
pub proof fn law_insert_keeps_other_hashes(
    local: Map<Seq<char>, CachedView>,
    shared: Map<Seq<char>, CachedView>,
    hash: Seq<char>,
    cached: CachedView,
    other: Seq<char>,
)
    requires
        other != hash,
    ensures
        lookup(local.insert(hash, cached), shared, other) == lookup(local, shared, other),
{
}

/// Committing changes nothing this cache reads, and publishes every local
/// entry to other callers (who read the shared store with a scope of their
/// own).
pub proof fn law_commit_publishes_without_changing_reads(
    local: Map<Seq<char>, CachedView>,
    shared: Map<Seq<char>, CachedView>,
    hash: Seq<char>,
)
    ensures
        lookup(local, shared.union_prefer_right(local), hash) == lookup(local, shared, hash),
        local.contains_key(hash) ==> lookup(Map::empty(), shared.union_prefer_right(local), hash) == Some(
            local[hash],
        ),
{
}

/// In merged mappers the renames win; other AI mappers are kept.
pub proof fn law_merge_prefers_renames(
    ai: Map<Seq<char>, Seq<char>>,
    extra: Map<Seq<char>, Seq<char>>,
    field: Seq<char>,
)
    ensures
        extra.contains_key(field) ==> ai.union_prefer_right(extra)[field] == extra[field],
        !extra.contains_key(field) && ai.contains_key(field) ==> ai.union_prefer_right(extra)[field]
            == ai[field],
        ai.union_prefer_right(extra).contains_key(field) <==> (ai.contains_key(field) || extra.contains_key(
            field,
        )),
{
}

} // verus!
