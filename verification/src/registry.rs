//! The component registry: the shared, insertion-ordered map of type name
//! to Schema Object that one generation session fills.
//!
//! The same association-list model also underlies the `properties` map of
//! a schema under construction, so the spec functions here are stated
//! over plain entry sequences.
use vstd::prelude::*;

verus! {

use crate::schema::SchemaModel;
use crate::schema::SchemaObject;
use crate::schema::empty_model;
use crate::schema::props_model;
use crate::text::str_eq;
use vstd::string::StringExecFns;

/// The first position at or after `i` whose key is `name`, or the length
/// when no such position exists.
pub open spec fn assoc_index_from(
    es: Seq<(Seq<char>, SchemaModel)>,
    name: Seq<char>,
    i: int,
) -> int
    decreases es.len() - i,
{
    if i < 0 || i >= es.len() {
        es.len() as int
    } else if es[i].0 == name {
        i
    } else {
        assoc_index_from(es, name, i + 1)
    }
}

/// The first position whose key is `name`, or the length when absent.
pub open spec fn assoc_index_of(es: Seq<(Seq<char>, SchemaModel)>, name: Seq<char>) -> int {
    assoc_index_from(es, name, 0)
}

/// Whether an entry under `name` exists.
pub open spec fn assoc_has(es: Seq<(Seq<char>, SchemaModel)>, name: Seq<char>) -> bool {
    assoc_index_of(es, name) < es.len()
}

/// The value under `name`; the empty schema when absent.
pub open spec fn assoc_get(es: Seq<(Seq<char>, SchemaModel)>, name: Seq<char>) -> SchemaModel {
    if assoc_has(es, name) {
        es[assoc_index_of(es, name)].1
    } else {
        empty_model()
    }
}

/// Replace the value under `name` in place, or append a new entry:
/// last writer wins, the first writer fixes the position.
pub open spec fn assoc_upsert(
    es: Seq<(Seq<char>, SchemaModel)>,
    name: Seq<char>,
    v: SchemaModel,
) -> Seq<(Seq<char>, SchemaModel)> {
    if assoc_has(es, name) {
        es.update(assoc_index_of(es, name), (name, v))
    } else {
        es.push((name, v))
    }
}

/// Remove the entry under `name`, if any, keeping the order of the rest.
pub open spec fn assoc_remove(
    es: Seq<(Seq<char>, SchemaModel)>,
    name: Seq<char>,
) -> Seq<(Seq<char>, SchemaModel)> {
    if assoc_has(es, name) {
        es.remove(assoc_index_of(es, name))
    } else {
        es
    }
}

/// Append to `reg` the entries of `scratch` whose keys it does not hold
/// yet, in their order.
pub open spec fn merge_absent(
    reg: Seq<(Seq<char>, SchemaModel)>,
    scratch: Seq<(Seq<char>, SchemaModel)>,
) -> Seq<(Seq<char>, SchemaModel)>
    decreases scratch.len(),
{
    if scratch.len() == 0 {
        reg
    } else {
        let e = scratch[0];
        let reg2 = if assoc_has(reg, e.0) {
            reg
        } else {
            reg.push(e)
        };
        merge_absent(reg2, scratch.drop_first())
    }
}

/// Keys are pairwise distinct.
pub open spec fn assoc_wf(es: Seq<(Seq<char>, SchemaModel)>) -> bool {
    forall|i: int, j: int| 0 <= i < j < es.len() ==> es[i].0 != es[j].0
}

/// What `assoc_index_from` finds: the first match at or after `i`.
pub proof fn lemma_assoc_index_from(es: Seq<(Seq<char>, SchemaModel)>, name: Seq<char>, i: int)
    requires
        0 <= i <= es.len(),
    ensures
        i <= assoc_index_from(es, name, i) <= es.len(),
        assoc_index_from(es, name, i) < es.len() ==> es[assoc_index_from(es, name, i)].0 == name,
        forall|j: int| i <= j < assoc_index_from(es, name, i) ==> es[j].0 != name,
    decreases es.len() - i,
{
    if i < es.len() && es[i].0 != name {
        lemma_assoc_index_from(es, name, i + 1);
    }
}

/// An entry under `name` exists exactly when some position holds it.
pub proof fn lemma_assoc_has_exists(es: Seq<(Seq<char>, SchemaModel)>, name: Seq<char>)
    ensures
        assoc_has(es, name) <==> exists|j: int| 0 <= j < es.len() && es[j].0 == name,
{
    lemma_assoc_index_from(es, name, 0);
    if assoc_has(es, name) {
        assert(es[assoc_index_of(es, name)].0 == name);
    }
}

/// Appending an entry keeps every present key present, and makes the
/// appended key present.
pub proof fn lemma_assoc_has_push(
    es: Seq<(Seq<char>, SchemaModel)>,
    e: (Seq<char>, SchemaModel),
    name: Seq<char>,
)
    ensures
        assoc_has(es, name) ==> assoc_has(es.push(e), name),
        assoc_has(es.push(e), e.0),
{
    lemma_assoc_has_exists(es, name);
    lemma_assoc_has_exists(es.push(e), name);
    lemma_assoc_has_exists(es.push(e), e.0);
    if assoc_has(es, name) {
        let j = choose|j: int| 0 <= j < es.len() && es[j].0 == name;
        assert(es.push(e)[j].0 == name);
    }
    assert(es.push(e)[es.len() as int].0 == e.0);
}

/// The keys after an append are the old keys and the appended one.
pub proof fn lemma_assoc_has_push_iff(
    es: Seq<(Seq<char>, SchemaModel)>,
    e: (Seq<char>, SchemaModel),
    name: Seq<char>,
)
    ensures
        assoc_has(es.push(e), name) <==> (assoc_has(es, name) || name == e.0),
{
    lemma_assoc_has_push(es, e, name);
    lemma_assoc_has_exists(es, name);
    lemma_assoc_has_exists(es.push(e), name);
    if assoc_has(es.push(e), name) {
        let j = choose|j: int| 0 <= j < es.push(e).len() && es.push(e)[j].0 == name;
        if j < es.len() {
            assert(es[j].0 == name);
        }
    }
}

/// An upsert changes no key but possibly adds its own.
pub proof fn lemma_assoc_has_upsert(
    es: Seq<(Seq<char>, SchemaModel)>,
    k: Seq<char>,
    v: SchemaModel,
    name: Seq<char>,
)
    ensures
        assoc_has(assoc_upsert(es, k, v), name) <==> (assoc_has(es, name) || name == k),
{
    lemma_assoc_index_from(es, k, 0);
    lemma_assoc_has_exists(es, name);
    lemma_assoc_has_exists(assoc_upsert(es, k, v), name);
    if assoc_has(es, k) {
        let i = assoc_index_of(es, k);
        if assoc_has(es, name) {
            let j = choose|j: int| 0 <= j < es.len() && es[j].0 == name;
            if j == i {
                assert(assoc_upsert(es, k, v)[i].0 == name);
            } else {
                assert(assoc_upsert(es, k, v)[j].0 == name);
            }
        }
        if name == k {
            assert(assoc_upsert(es, k, v)[i].0 == name);
        }
        if assoc_has(assoc_upsert(es, k, v), name) {
            let j = choose|j: int|
                0 <= j < es.len() && assoc_upsert(es, k, v)[j].0 == name;
            if j == i {
                assert(name == k);
            } else {
                assert(es[j].0 == name);
            }
        }
    } else {
        lemma_assoc_has_push(es, (k, v), name);
        if assoc_has(assoc_upsert(es, k, v), name) {
            let j = choose|j: int|
                0 <= j < es.push((k, v)).len() && es.push((k, v))[j].0 == name;
            if j == es.len() {
                assert(name == k);
            } else {
                assert(es[j].0 == name);
            }
        }
    }
}

/// Appending an entry leaves the value under every present key as it
/// was, and puts a fresh key's value in reach.
pub proof fn lemma_assoc_get_push(
    es: Seq<(Seq<char>, SchemaModel)>,
    e: (Seq<char>, SchemaModel),
    name: Seq<char>,
)
    ensures
        assoc_has(es, name) ==> assoc_get(es.push(e), name) == assoc_get(es, name),
        !assoc_has(es, name) && e.0 == name ==> assoc_get(es.push(e), name) == e.1,
    decreases es.len(),
{
    lemma_assoc_index_from(es, name, 0);
    lemma_assoc_index_from(es.push(e), name, 0);
    lemma_assoc_has_push(es, e, name);
    if assoc_has(es, name) {
        let i = assoc_index_of(es, name);
        let i2 = assoc_index_of(es.push(e), name);
        assert(es.push(e)[i].0 == name);
        assert(i2 <= i);
        assert(es.push(e)[i2].0 == name);
        assert(es[i2].0 == name);
        assert(i <= i2);
    } else {
        if e.0 == name {
            let i2 = assoc_index_of(es.push(e), name);
            assert(forall|j: int| 0 <= j < es.len() ==> es[j].0 != name);
            assert(i2 == es.len());
        }
    }
}

/// An upsert's own key reads back the written value.
pub proof fn lemma_assoc_get_upsert_same(
    es: Seq<(Seq<char>, SchemaModel)>,
    k: Seq<char>,
    v: SchemaModel,
)
    ensures
        assoc_get(assoc_upsert(es, k, v), k) == v,
{
    lemma_assoc_index_from(es, k, 0);
    lemma_assoc_has_upsert(es, k, v, k);
    if assoc_has(es, k) {
        let i = assoc_index_of(es, k);
        let es2 = es.update(i, (k, v));
        lemma_assoc_index_from(es2, k, 0);
        let i2 = assoc_index_of(es2, k);
        assert(es2[i].0 == k);
        assert(i2 <= i);
        assert(es2[i2].0 == k);
        if i2 < i {
            assert(es[i2].0 == k);
            assert(false);
        }
    } else {
        lemma_assoc_get_push(es, (k, v), k);
    }
}

/// Folding a scratch registry in leaves the value under every present
/// key as it was.
pub proof fn lemma_assoc_get_merge_absent(
    reg: Seq<(Seq<char>, SchemaModel)>,
    scratch: Seq<(Seq<char>, SchemaModel)>,
    name: Seq<char>,
)
    requires
        assoc_has(reg, name),
    ensures
        assoc_get(merge_absent(reg, scratch), name) == assoc_get(reg, name),
    decreases scratch.len(),
{
    if scratch.len() > 0 {
        let e = scratch[0];
        if assoc_has(reg, e.0) {
            lemma_assoc_get_merge_absent(reg, scratch.drop_first(), name);
        } else {
            lemma_assoc_get_push(reg, e, name);
            lemma_assoc_has_push(reg, e, name);
            lemma_assoc_get_merge_absent(reg.push(e), scratch.drop_first(), name);
        }
    }
}

/// Folding a scratch registry in keeps every present key present.
pub proof fn lemma_assoc_has_merge_absent(
    reg: Seq<(Seq<char>, SchemaModel)>,
    scratch: Seq<(Seq<char>, SchemaModel)>,
    name: Seq<char>,
)
    requires
        assoc_has(reg, name),
    ensures
        assoc_has(merge_absent(reg, scratch), name),
    decreases scratch.len(),
{
    if scratch.len() > 0 {
        let e = scratch[0];
        if assoc_has(reg, e.0) {
            lemma_assoc_has_merge_absent(reg, scratch.drop_first(), name);
        } else {
            lemma_assoc_has_push(reg, e, name);
            lemma_assoc_has_merge_absent(reg.push(e), scratch.drop_first(), name);
        }
    }
}

/// The shared map of type name to Schema Object, insertion-ordered.
///
/// One registry serves one generation session: it only grows, and an
/// entry, once its build completes, is never changed again.
#[derive(Debug)]
pub struct Registry {
    entries: Vec<(String, SchemaObject)>,
}

impl View for Registry {
    type V = Seq<(Seq<char>, SchemaModel)>;

    closed spec fn view(&self) -> Seq<(Seq<char>, SchemaModel)> {
        props_model(self.entries@)
    }
}

impl Registry {
    /// Keys are pairwise distinct.
    pub open spec fn wf(&self) -> bool {
        assoc_wf(self@)
    }

    /// An empty registry.
    pub fn new() -> (r: Registry)
        ensures
            r@ == Seq::<(Seq<char>, SchemaModel)>::empty(),
            r.wf(),
    {
        Registry { entries: Vec::new() }
    }

    /// How many schemas have been registered.
    pub fn len(&self) -> (n: usize)
        ensures
            n == self@.len(),
    {
        proof {
            crate::schema::lemma_props_model_len(self.entries@);
        }
        self.entries.len()
    }

    /// Whether a schema is already registered under `name`.
    pub fn has(&self, name: &str) -> (r: bool)
        ensures
            r == assoc_has(self@, name@),
    {
        proof {
            crate::schema::lemma_props_model_len(self.entries@);
        }
        let n = self.entries.len();
        let mut i: usize = 0;
        while i < n
            invariant
                n == self.entries@.len(),
                n == self@.len(),
                0 <= i <= n,
                forall|j: int| 0 <= j < i ==> self@[j].0 != name@,
            decreases n - i,
        {
            proof {
                crate::schema::lemma_props_model_index(self.entries@, i as int);
            }
            if str_eq(self.entries[i].0.as_str(), name) {
                proof {
                    lemma_assoc_index_from(self@, name@, 0);
                }
                return true;
            }
            i += 1;
        }
        proof {
            lemma_assoc_index_from(self@, name@, 0);
        }
        false
    }

    /// The schema registered under `name`, if any.
    pub fn get(&self, name: &str) -> (r: Option<&SchemaObject>)
        ensures
            match r {
                Some(s) => assoc_has(self@, name@) && s@ == assoc_get(self@, name@),
                None => !assoc_has(self@, name@),
            },
    {
        proof {
            crate::schema::lemma_props_model_len(self.entries@);
        }
        let n = self.entries.len();
        let mut i: usize = 0;
        while i < n
            invariant
                n == self.entries@.len(),
                n == self@.len(),
                0 <= i <= n,
                forall|j: int| 0 <= j < i ==> self@[j].0 != name@,
            decreases n - i,
        {
            proof {
                crate::schema::lemma_props_model_index(self.entries@, i as int);
            }
            if str_eq(self.entries[i].0.as_str(), name) {
                proof {
                    lemma_assoc_index_from(self@, name@, 0);
                }
                return Some(&self.entries[i].1);
            }
            i += 1;
        }
        proof {
            lemma_assoc_index_from(self@, name@, 0);
        }
        None
    }

    /// The entry at a position, in registry order, for walking the
    /// completed registry into an output document.
    pub fn entry_at(&self, i: usize) -> (r: &(String, SchemaObject))
        requires
            i < self@.len(),
        ensures
            (r.0@, r.1@) == self@[i as int],
    {
        proof {
            crate::schema::lemma_props_model_len(self.entries@);
            crate::schema::lemma_props_model_index(self.entries@, i as int);
        }
        &self.entries[i]
    }

    /// Register a schema under a name not yet present.  The generation
    /// algorithm checks `has` before doing any work for a name, so a
    /// caller never inserts over an existing entry.
    pub fn insert(&mut self, name: String, schema: SchemaObject)
        requires
            !assoc_has(old(self)@, name@),
        ensures
            final(self)@ == old(self)@.push((name@, schema@)),
            old(self).wf() ==> final(self).wf(),
    {
        proof {
            crate::schema::lemma_props_model_push(self.entries@, (name, schema));
            lemma_assoc_has_exists(self@, name@);
        }
        self.entries.push((name, schema));
        proof {
            if assoc_wf(old(self)@) {
                assert forall|i: int, j: int| 0 <= i < j < self@.len() implies self@[i].0
                    != self@[j].0 by {
                    lemma_assoc_has_exists(old(self)@, old(self)@[i].0);
                }
            }
        }
    }

    /// The position of the entry under `name`, if any.
    fn position(&self, name: &str) -> (r: Option<usize>)
        ensures
            match r {
                Some(i) => assoc_has(self@, name@) && i == assoc_index_of(self@, name@),
                None => !assoc_has(self@, name@),
            },
    {
        proof {
            crate::schema::lemma_props_model_len(self.entries@);
        }
        let n = self.entries.len();
        let mut i: usize = 0;
        while i < n
            invariant
                n == self.entries@.len(),
                n == self@.len(),
                0 <= i <= n,
                forall|j: int| 0 <= j < i ==> self@[j].0 != name@,
            decreases n - i,
        {
            proof {
                crate::schema::lemma_props_model_index(self.entries@, i as int);
            }
            if str_eq(self.entries[i].0.as_str(), name) {
                proof {
                    lemma_assoc_index_from(self@, name@, 0);
                }
                return Some(i);
            }
            i += 1;
        }
        proof {
            lemma_assoc_index_from(self@, name@, 0);
        }
        None
    }

    /// Replace the schema under an existing name, keeping its position.
    /// Only the builder that placed the entry uses this, to fill in the
    /// completed schema at the end of its own build.
    pub(crate) fn update(&mut self, name: &str, schema: SchemaObject)
        requires
            old(self).wf(),
            assoc_has(old(self)@, name@),
        ensures
            final(self)@ == assoc_upsert(old(self)@, name@, schema@),
            final(self).wf(),
    {
        let pos = self.position(name);
        proof {
            lemma_assoc_index_from(old(self)@, name@, 0);
            crate::schema::lemma_props_model_len(old(self).entries@);
        }
        match pos {
            Some(i) => {
                proof {
                    crate::schema::lemma_props_model_index(old(self).entries@, i as int);
                }
                let entry = vstd::std_specs::vec::vec_index_mut(&mut self.entries, i);
                entry.1 = schema;
                proof {
                    crate::schema::lemma_props_model_update(
                        old(self).entries@,
                        i as int,
                        self.entries@[i as int],
                    );
                    assert(self@ =~= assoc_upsert(old(self)@, name@, schema@));
                    assert forall|a: int, b: int|
                        0 <= a < b < self@.len() implies self@[a].0 != self@[b].0 by {
                        assert(self@[a].0 == old(self)@[a].0);
                        assert(self@[b].0 == old(self)@[b].0);
                    }
                }
            },
            None => {
                proof {
                    assert(false);
                }
            },
        }
    }

    /// Take the entry under `name` out, keeping the order of the rest.
    /// Flatten resolution consumes the flattened type's scratch entry
    /// this way.
    pub(crate) fn remove(&mut self, name: &str) -> (r: Option<SchemaObject>)
        requires
            old(self).wf(),
        ensures
            final(self)@ == assoc_remove(old(self)@, name@),
            final(self).wf(),
            match r {
                Some(s) => assoc_has(old(self)@, name@) && s@ == assoc_get(old(self)@, name@),
                None => !assoc_has(old(self)@, name@),
            },
    {
        let pos = self.position(name);
        proof {
            lemma_assoc_index_from(old(self)@, name@, 0);
            crate::schema::lemma_props_model_len(old(self).entries@);
        }
        match pos {
            Some(i) => {
                proof {
                    crate::schema::lemma_props_model_index(old(self).entries@, i as int);
                }
                let entry = self.entries.remove(i);
                proof {
                    crate::schema::lemma_props_model_remove(old(self).entries@, i as int);
                    assert(self@ =~= assoc_remove(old(self)@, name@));
                    old(self)@.remove_ensures(i as int);
                    assert forall|a: int, b: int|
                        0 <= a < b < self@.len() implies self@[a].0 != self@[b].0 by {
                        if b < i as int {
                            assert(self@[a] == old(self)@[a]);
                            assert(self@[b] == old(self)@[b]);
                        } else if a < i as int {
                            assert(self@[a] == old(self)@[a]);
                            assert(self@[b] == old(self)@[b + 1]);
                        } else {
                            assert(self@[a] == old(self)@[a + 1]);
                            assert(self@[b] == old(self)@[b + 1]);
                        }
                    }
                }
                Some(entry.1)
            },
            None => None,
        }
    }

    /// Replace the value under `name` or append a new entry: last writer
    /// wins, the first writer fixes the position.  The builder keeps a
    /// record's `properties` map in a registry too, and fills it this way.
    pub(crate) fn upsert(&mut self, name: String, schema: SchemaObject)
        requires
            old(self).wf(),
        ensures
            final(self)@ == assoc_upsert(old(self)@, name@, schema@),
            final(self).wf(),
    {
        if self.has(name.as_str()) {
            self.update(name.as_str(), schema);
        } else {
            self.insert(name, schema);
        }
    }

    /// Give the entries up, in their registry order.
    pub(crate) fn into_entries(self) -> (r: Vec<(String, SchemaObject)>)
        ensures
            props_model(r@) == self@,
    {
        self.entries
    }

    /// Bring over from `other` every entry whose key is not present here,
    /// in order.  A completed record build folds what is left of its
    /// scratch registry into the shared one this way.
    pub(crate) fn merge_absent_from(&mut self, other: Registry)
        requires
            old(self).wf(),
        ensures
            final(self)@ == merge_absent(old(self)@, other@),
            final(self).wf(),
    {
        let ghost goal = merge_absent(old(self)@, other@);
        let mut rest = other.entries;
        while rest.len() > 0
            invariant
                self.wf(),
                merge_absent(self@, props_model(rest@)) == goal,
            decreases rest.len(),
        {
            let ghost rest0 = rest@;
            proof {
                crate::schema::lemma_props_model_len(rest0);
                crate::schema::lemma_props_model_index(rest0, 0);
                crate::schema::lemma_props_model_remove(rest0, 0);
            }
            let e = rest.remove(0);
            proof {
                assert(props_model(rest@) =~= props_model(rest0).drop_first());
            }
            if !self.has(e.0.as_str()) {
                self.insert(e.0, e.1);
            }
        }
        proof {
            crate::schema::lemma_props_model_len(rest@);
            assert(merge_absent(self@, props_model(rest@)) == self@);
        }
    }

    /// The reference path for a name: `#/components/schemas/{name}`.  The
    /// entry need not exist yet, which lets a record under construction
    /// be referenced from its own fields.
    pub fn reference_path(name: &str) -> (r: String)
        ensures
            r@ == crate::schema::ref_path_model(name@),
    {
        let mut path = String::new();
        path.append("#/components/schemas/");
        path.append(name);
        proof {
            assert(path@ =~= crate::schema::ref_path_model(name@));
        }
        path
    }
}

} // verus!
