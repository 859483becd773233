//! The OpenAPI 3.0 Schema Object, and the mathematical model that the
//! contracts of this crate speak about.
//!
//! A schema is a tree: `properties`, `items` and `additional_properties`
//! hold schemas again.  The model mirrors the executable type field by
//! field, with `Seq<char>` for strings and `int` for numbers, so that
//! contracts can state exact values.
use vstd::prelude::*;

verus! {

/// An OpenAPI 3.0 Schema Object.  Absent keys are `None`; the document
/// emitter is expected to omit them, never to write empty containers.
#[derive(Debug, PartialEq)]
pub struct SchemaObject {
    pub title: Option<String>,
    pub description: Option<String>,
    pub schema_type: Option<String>,
    pub format: Option<String>,
    pub minimum: Option<i64>,
    pub properties: Option<Vec<(String, SchemaObject)>>,
    pub required: Option<Vec<String>>,
    pub items: Option<Box<SchemaObject>>,
    pub additional_properties: Option<Box<SchemaObject>>,
    pub enum_values: Option<Vec<String>>,
    pub ref_path: Option<String>,
}

/// Either an inline Schema Object or a reference to a named entry under
/// `#/components/schemas/`.
#[derive(Debug, PartialEq)]
pub enum SchemaRef {
    Object(SchemaObject),
    Ref(String),
}

/// The model of a Schema Object: the same shape over `Seq<char>` and `int`.
#[verifier::ext_equal]
pub ghost struct SchemaModel {
    pub title: Option<Seq<char>>,
    pub description: Option<Seq<char>>,
    pub schema_type: Option<Seq<char>>,
    pub format: Option<Seq<char>>,
    pub minimum: Option<int>,
    pub properties: Option<Seq<(Seq<char>, SchemaModel)>>,
    pub required: Option<Seq<Seq<char>>>,
    pub items: Option<Box<SchemaModel>>,
    pub additional_properties: Option<Box<SchemaModel>>,
    pub enum_values: Option<Seq<Seq<char>>>,
    pub ref_path: Option<Seq<char>>,
}

/// The model of a `SchemaRef`.
#[verifier::ext_equal]
pub ghost enum SchemaRefModel {
    Object(SchemaModel),
    Ref(Seq<char>),
}

pub open spec fn opt_str_model(s: Option<String>) -> Option<Seq<char>> {
    match s {
        Some(t) => Some(t@),
        None => None,
    }
}

pub open spec fn opt_min_model(m: Option<i64>) -> Option<int> {
    match m {
        Some(v) => Some(v as int),
        None => None,
    }
}

pub open spec fn str_seq_model(v: Seq<String>) -> Seq<Seq<char>>
    decreases v,
{
    if v.len() == 0 {
        Seq::empty()
    } else {
        str_seq_model(v.drop_last()).push(v.last()@)
    }
}

pub open spec fn props_model(ps: Seq<(String, SchemaObject)>) -> Seq<(Seq<char>, SchemaModel)>
    decreases ps,
{
    if ps.len() == 0 {
        Seq::empty()
    } else {
        props_model(ps.drop_last()).push((ps.last().0@, ps.last().1@))
    }
}

impl View for SchemaObject {
    type V = SchemaModel;

    open spec fn view(&self) -> SchemaModel
        decreases self,
    {
        SchemaModel {
            title: opt_str_model(self.title),
            description: opt_str_model(self.description),
            schema_type: opt_str_model(self.schema_type),
            format: opt_str_model(self.format),
            minimum: opt_min_model(self.minimum),
            properties: match self.properties {
                Some(ps) => Some(props_model(ps@)),
                None => None,
            },
            required: match self.required {
                Some(r) => Some(str_seq_model(r@)),
                None => None,
            },
            items: match self.items {
                Some(b) => Some(Box::new((*b)@)),
                None => None,
            },
            additional_properties: match self.additional_properties {
                Some(b) => Some(Box::new((*b)@)),
                None => None,
            },
            enum_values: match self.enum_values {
                Some(e) => Some(str_seq_model(e@)),
                None => None,
            },
            ref_path: opt_str_model(self.ref_path),
        }
    }
}

impl View for SchemaRef {
    type V = SchemaRefModel;

    open spec fn view(&self) -> SchemaRefModel {
        match *self {
            SchemaRef::Object(ref s) => SchemaRefModel::Object(s@),
            SchemaRef::Ref(ref p) => SchemaRefModel::Ref(p@),
        }
    }
}

/// The reference path for a name: `#/components/schemas/{name}`.
pub open spec fn ref_path_model(name: Seq<char>) -> Seq<char> {
    "#/components/schemas/"@ + name
}

pub broadcast proof fn lemma_props_model_len(ps: Seq<(String, SchemaObject)>)
    ensures
        (#[trigger] props_model(ps)).len() == ps.len(),
    decreases ps,
{
    if ps.len() > 0 {
        lemma_props_model_len(ps.drop_last());
        assert(props_model(ps) == props_model(ps.drop_last()).push((ps.last().0@, ps.last().1@)));
    }
}

pub broadcast proof fn lemma_props_model_index(ps: Seq<(String, SchemaObject)>, i: int)
    requires
        0 <= i < ps.len(),
    ensures
        #[trigger] props_model(ps)[i] == (ps[i].0@, ps[i].1@),
    decreases ps,
{
    lemma_props_model_len(ps);
    lemma_props_model_len(ps.drop_last());
    assert(props_model(ps) == props_model(ps.drop_last()).push((ps.last().0@, ps.last().1@)));
    if i < ps.len() - 1 {
        lemma_props_model_index(ps.drop_last(), i);
        assert(ps.drop_last()[i] == ps[i]);
    } else {
        assert(ps.last() == ps[i]);
    }
}

pub broadcast proof fn lemma_str_seq_model_len(v: Seq<String>)
    ensures
        (#[trigger] str_seq_model(v)).len() == v.len(),
    decreases v,
{
    if v.len() > 0 {
        lemma_str_seq_model_len(v.drop_last());
        assert(str_seq_model(v) == str_seq_model(v.drop_last()).push(v.last()@));
    }
}

pub broadcast proof fn lemma_str_seq_model_index(v: Seq<String>, i: int)
    requires
        0 <= i < v.len(),
    ensures
        #[trigger] str_seq_model(v)[i] == v[i]@,
    decreases v,
{
    lemma_str_seq_model_len(v);
    lemma_str_seq_model_len(v.drop_last());
    assert(str_seq_model(v) == str_seq_model(v.drop_last()).push(v.last()@));
    if i < v.len() - 1 {
        lemma_str_seq_model_index(v.drop_last(), i);
        assert(v.drop_last()[i] == v[i]);
    } else {
        assert(v.last() == v[i]);
    }
}

pub proof fn lemma_str_seq_model_push(v: Seq<String>, x: String)
    ensures
        str_seq_model(v.push(x)) == str_seq_model(v).push(x@),
{
    assert(v.push(x).drop_last() == v);
    assert(v.push(x).last() == x);
}

pub proof fn lemma_props_model_push(ps: Seq<(String, SchemaObject)>, e: (String, SchemaObject))
    ensures
        props_model(ps.push(e)) == props_model(ps).push((e.0@, e.1@)),
{
    assert(ps.push(e).drop_last() == ps);
    assert(ps.push(e).last() == e);
    assert(props_model(ps.push(e)) == props_model(ps).push((e.0@, e.1@)));
}

pub proof fn lemma_props_model_update(ps: Seq<(String, SchemaObject)>, i: int, e: (String, SchemaObject))
    requires
        0 <= i < ps.len(),
    ensures
        props_model(ps.update(i, e)) =~= props_model(ps).update(i, (e.0@, e.1@)),
{
    lemma_props_model_len(ps);
    lemma_props_model_len(ps.update(i, e));
    assert forall|j: int| 0 <= j < ps.len() implies props_model(ps.update(i, e))[j] == props_model(
        ps,
    ).update(i, (e.0@, e.1@))[j] by {
        lemma_props_model_index(ps.update(i, e), j);
        if i != j {
            lemma_props_model_index(ps, j);
        }
    }
}

pub proof fn lemma_props_model_remove(ps: Seq<(String, SchemaObject)>, i: int)
    requires
        0 <= i < ps.len(),
    ensures
        props_model(ps.remove(i)) =~= props_model(ps).remove(i),
{
    lemma_props_model_len(ps);
    lemma_props_model_len(ps.remove(i));
    props_model(ps).remove_ensures(i);
    assert forall|j: int| 0 <= j < ps.len() - 1 implies props_model(ps.remove(i))[j]
        == props_model(ps).remove(i)[j] by {
        lemma_props_model_index(ps.remove(i), j);
        if j < i {
            lemma_props_model_index(ps, j);
            assert(ps.remove(i)[j] == ps[j]);
        } else {
            lemma_props_model_index(ps, j + 1);
            assert(ps.remove(i)[j] == ps[j + 1]);
        }
    }
}

/// The model of a schema with every key absent.
pub open spec fn empty_model() -> SchemaModel {
    SchemaModel {
        title: None,
        description: None,
        schema_type: None,
        format: None,
        minimum: None,
        properties: None,
        required: None,
        items: None,
        additional_properties: None,
        enum_values: None,
        ref_path: None,
    }
}

/// The model of a schema carrying only `$ref`, the shape a reference takes
/// when it must stand where a schema is expected.
pub open spec fn ref_only_model(path: Seq<char>) -> SchemaModel {
    SchemaModel { ref_path: Some(path), ..empty_model() }
}

impl SchemaObject {
    /// A schema with every key absent.
    pub fn empty() -> (r: SchemaObject)
        ensures
            r@ == empty_model(),
    {
        SchemaObject {
            title: None,
            description: None,
            schema_type: None,
            format: None,
            minimum: None,
            properties: None,
            required: None,
            items: None,
            additional_properties: None,
            enum_values: None,
            ref_path: None,
        }
    }

    /// A schema carrying only `$ref`.
    pub fn ref_only(path: String) -> (r: SchemaObject)
        ensures
            r@ == ref_only_model(path@),
    {
        let mut s = SchemaObject::empty();
        s.ref_path = Some(path);
        s
    }
}

} // verus!
