//! The schema generator: the recursive walk from a type descriptor to a
//! Schema Object, threading the shared registry.
//!
//! The spec functions `gen_type`, `gen_record` and `gen_fields` are the
//! semantics of generation; the executable functions implement them
//! exactly.  A named record or enumeration is registered under its name
//! and the caller receives a reference; primitives and containers stay
//! inline.
use vstd::prelude::*;

verus! {

use crate::descriptor::DateKind;
use crate::descriptor::EnumDescriptor;
use crate::descriptor::EnumModel;
use crate::descriptor::FieldModel;
use crate::descriptor::PrimitiveKind;
use crate::descriptor::RecordDescriptor;
use crate::descriptor::RecordModel;
use crate::descriptor::TypeDescriptor;
use crate::descriptor::TypeModel;
use crate::descriptor::VariantModel;
use crate::descriptor::spec_is_optional;
use crate::registry::Registry;
use crate::registry::assoc_get;
use crate::registry::assoc_has;
use crate::registry::assoc_remove;
use crate::registry::assoc_upsert;
use crate::registry::merge_absent;
use crate::schema::SchemaModel;
use crate::schema::SchemaObject;
use crate::schema::SchemaRef;
use crate::schema::SchemaRefModel;
use crate::schema::empty_model;
use crate::schema::ref_only_model;
use crate::schema::ref_path_model;
use crate::text::split_doc;
use crate::text::split_doc_model;
use vstd::string::StrSliceExecFns;
use vstd::string::StringExecFns;

/// A build-time configuration error: generation aborts, there is no
/// partial output.
#[derive(Debug)]
pub enum BuildError {
    /// The named field carries the flatten flag but its type is not a
    /// named record (or enumeration), so there is nothing to merge.
    FlattenUnsupported(String),
}

#[verifier::ext_equal]
pub ghost enum BuildErrorModel {
    FlattenUnsupported(Seq<char>),
}

impl View for BuildError {
    type V = BuildErrorModel;

    open spec fn view(&self) -> BuildErrorModel {
        match *self {
            BuildError::FlattenUnsupported(ref n) => BuildErrorModel::FlattenUnsupported(n@),
        }
    }
}

/// The fixed schema of a scalar kind.
pub open spec fn primitive_model(k: PrimitiveKind) -> SchemaModel {
    match k {
        PrimitiveKind::Text => SchemaModel { schema_type: Some("string"@), ..empty_model() },
        PrimitiveKind::Int64 => SchemaModel {
            schema_type: Some("integer"@),
            format: Some("int64"@),
            ..empty_model()
        },
        PrimitiveKind::UInt64 => SchemaModel {
            schema_type: Some("integer"@),
            format: Some("int64"@),
            minimum: Some(0),
            ..empty_model()
        },
        PrimitiveKind::Int32 => SchemaModel {
            schema_type: Some("integer"@),
            format: Some("int32"@),
            ..empty_model()
        },
        PrimitiveKind::UInt32 => SchemaModel {
            schema_type: Some("integer"@),
            format: Some("int32"@),
            minimum: Some(0),
            ..empty_model()
        },
        PrimitiveKind::UInt16 => SchemaModel {
            schema_type: Some("integer"@),
            format: Some("int32"@),
            minimum: Some(0),
            ..empty_model()
        },
        PrimitiveKind::IndexSigned => SchemaModel {
            schema_type: Some("integer"@),
            ..empty_model()
        },
        PrimitiveKind::IndexUnsigned => SchemaModel {
            schema_type: Some("integer"@),
            minimum: Some(0),
            ..empty_model()
        },
        PrimitiveKind::Float => SchemaModel {
            schema_type: Some("number"@),
            format: Some("float"@),
            ..empty_model()
        },
        PrimitiveKind::Boolean => SchemaModel { schema_type: Some("boolean"@), ..empty_model() },
    }
}

/// The fixed schema of a calendar kind.
pub open spec fn date_model(k: DateKind) -> SchemaModel {
    match k {
        DateKind::Date => SchemaModel {
            schema_type: Some("string"@),
            format: Some("date"@),
            ..empty_model()
        },
        DateKind::DateTime => SchemaModel {
            schema_type: Some("string"@),
            format: Some("date-time"@),
            ..empty_model()
        },
    }
}

/// A reference result flattened into a schema: a reference becomes a
/// schema carrying only `$ref`, so it can stand where a schema must.
pub open spec fn inline_model(r: SchemaRefModel) -> SchemaModel {
    match r {
        SchemaRefModel::Object(s) => s,
        SchemaRefModel::Ref(p) => ref_only_model(p),
    }
}

/// The schema of a homogeneous list.
pub open spec fn array_model(inner: SchemaModel) -> SchemaModel {
    SchemaModel { schema_type: Some("array"@), items: Some(Box::new(inner)), ..empty_model() }
}

/// The schema of an associative map with textual keys.
pub open spec fn map_model(inner: SchemaModel) -> SchemaModel {
    SchemaModel {
        schema_type: Some("object"@),
        additional_properties: Some(Box::new(inner)),
        ..empty_model()
    }
}

/// The schema registered for a record before its fields are walked:
/// title, description and type are set, the maps come later.  With the
/// name present from here on, a field whose type is the record itself
/// resolves to a reference instead of recursing.
pub open spec fn record_shell_model(doc: Seq<char>) -> SchemaModel {
    let (title, desc) = split_doc_model(doc);
    SchemaModel { title, description: desc, schema_type: Some("object"@), ..empty_model() }
}

/// The completed schema of a record.  Empty maps collapse to absent keys.
pub open spec fn record_complete_model(
    doc: Seq<char>,
    props: Seq<(Seq<char>, SchemaModel)>,
    req: Seq<Seq<char>>,
) -> SchemaModel {
    let (title, desc) = split_doc_model(doc);
    SchemaModel {
        title,
        description: desc,
        schema_type: Some("object"@),
        properties: if props.len() > 0 {
            Some(props)
        } else {
            None
        },
        required: if req.len() > 0 {
            Some(req)
        } else {
            None
        },
        ..empty_model()
    }
}

/// The variant names, in declaration order.
pub open spec fn variant_names(vs: Seq<VariantModel>) -> Seq<Seq<char>> {
    Seq::new(vs.len(), |i: int| vs[i].name)
}

/// The bullet line a documented variant contributes; an undocumented one
/// contributes nothing.
pub open spec fn bullet_model(v: VariantModel) -> Seq<char> {
    if v.doc.len() > 0 {
        "\n* "@ + v.name + ": "@ + v.doc
    } else {
        Seq::empty()
    }
}

/// The bullet lines of the first `i` variants, concatenated.
pub open spec fn bullets_upto(vs: Seq<VariantModel>, i: int) -> Seq<char>
    decreases i,
{
    if i <= 0 || i > vs.len() {
        Seq::empty()
    } else {
        bullets_upto(vs, i - 1) + bullet_model(vs[i - 1])
    }
}

/// The description of an enumeration: the type's own description,
/// followed by one bullet line per documented variant.  The first bullet
/// brings its own line break, so with no type description the result
/// starts with one; with no documented variant the type's description
/// stands unchanged.
pub open spec fn enum_desc_model(desc: Option<Seq<char>>, vs: Seq<VariantModel>) -> Option<
    Seq<char>,
> {
    let base = match desc {
        Some(d) => d,
        None => Seq::empty(),
    };
    let bs = bullets_upto(vs, vs.len() as int);
    if bs.len() == 0 {
        desc
    } else {
        Some(base + bs)
    }
}

/// The completed schema of an enumeration: a string restricted to the
/// variant names.
pub open spec fn enum_schema_model(ed: EnumModel) -> SchemaModel {
    let (title, desc) = split_doc_model(ed.doc);
    SchemaModel {
        title,
        description: enum_desc_model(desc, ed.variants),
        schema_type: Some("string"@),
        enum_values: Some(variant_names(ed.variants)),
        ..empty_model()
    }
}

/// The name a flattened field's type is looked up under in the scratch
/// registry: the name of a record or enumeration, nothing otherwise.
pub open spec fn named_of(ty: TypeModel) -> Option<Seq<char>> {
    match ty {
        TypeModel::Record(rd) => Some(rd.name),
        TypeModel::Enumeration(ed) => Some(ed.name),
        _ => None,
    }
}

/// The property a non-flatten field contributes: a reference stays bare
/// (`$ref` tolerates no sibling keys), an inline schema takes the field's
/// own non-empty doc text as its description, over whatever the type had.
pub open spec fn prop_schema_model(sr: SchemaRefModel, doc: Seq<char>) -> SchemaModel {
    match sr {
        SchemaRefModel::Ref(p) => ref_only_model(p),
        SchemaRefModel::Object(s) => if doc.len() > 0 {
            SchemaModel { description: Some(doc), ..s }
        } else {
            s
        },
    }
}

/// Copy a flattened record's properties into the parent, last writer
/// wins, and mark each copied name required exactly when the inner
/// record required it.
pub open spec fn merge_props(
    props: Seq<(Seq<char>, SchemaModel)>,
    req: Seq<Seq<char>>,
    inner_props: Seq<(Seq<char>, SchemaModel)>,
    inner_req: Seq<Seq<char>>,
) -> (Seq<(Seq<char>, SchemaModel)>, Seq<Seq<char>>)
    decreases inner_props.len(),
{
    if inner_props.len() == 0 {
        (props, req)
    } else {
        let e = inner_props[0];
        let props2 = assoc_upsert(props, e.0, e.1);
        let req2 = if inner_req.contains(e.0) {
            req.push(e.0)
        } else {
            req
        };
        merge_props(props2, req2, inner_props.drop_first(), inner_req)
    }
}

pub open spec fn opt_entries(o: Option<Seq<(Seq<char>, SchemaModel)>>) -> Seq<
    (Seq<char>, SchemaModel),
> {
    match o {
        Some(s) => s,
        None => Seq::empty(),
    }
}

pub open spec fn opt_names(o: Option<Seq<Seq<char>>>) -> Seq<Seq<char>> {
    match o {
        Some(s) => s,
        None => Seq::empty(),
    }
}

/// Generation of one type against a registry: the new registry and what
/// the caller receives, or the configuration error that aborts the run.
pub open spec fn gen_type(ty: TypeModel, reg: Seq<(Seq<char>, SchemaModel)>) -> Result<
    (Seq<(Seq<char>, SchemaModel)>, SchemaRefModel),
    BuildErrorModel,
>
    decreases ty, 0int, 0int,
{
    match ty {
        TypeModel::Primitive(k) => Ok((reg, SchemaRefModel::Object(primitive_model(k)))),
        TypeModel::ExternalDate(k) => Ok((reg, SchemaRefModel::Object(date_model(k)))),
        TypeModel::Optional(inner) => gen_type(*inner, reg),
        TypeModel::Sequence(inner) => match gen_type(*inner, reg) {
            Ok(ok) => Ok((ok.0, SchemaRefModel::Object(array_model(inline_model(ok.1))))),
            Err(e) => Err(e),
        },
        TypeModel::Mapping(inner) => match gen_type(*inner, reg) {
            Ok(ok) => Ok((ok.0, SchemaRefModel::Object(map_model(inline_model(ok.1))))),
            Err(e) => Err(e),
        },
        TypeModel::Record(rd) => gen_record(rd, reg),
        TypeModel::Enumeration(ed) => Ok(gen_enum(ed, reg)),
    }
}

/// Generation of a named record: a registered name short-circuits to a
/// reference with no field touched; otherwise the shell is registered
/// first, the fields are walked, the completed schema replaces the
/// shell, and what is left of the scratch registry joins the shared one.
/// The caller receives a reference either way.
pub open spec fn gen_record(rd: RecordModel, reg: Seq<(Seq<char>, SchemaModel)>) -> Result<
    (Seq<(Seq<char>, SchemaModel)>, SchemaRefModel),
    BuildErrorModel,
>
    decreases rd, 1int, 0int,
{
    if assoc_has(reg, rd.name) {
        Ok((reg, SchemaRefModel::Ref(ref_path_model(rd.name))))
    } else {
        let reg1 = reg.push((rd.name, record_shell_model(rd.doc)));
        match gen_fields(rd.fields, 0, reg1, Seq::empty(), Seq::empty(), Seq::empty()) {
            Ok(ok) => {
                let reg3 = assoc_upsert(ok.0, rd.name, record_complete_model(rd.doc, ok.2, ok.3));
                Ok((merge_absent(reg3, ok.1), SchemaRefModel::Ref(ref_path_model(rd.name))))
            },
            Err(e) => Err(e),
        }
    }
}

/// The walk over a record's fields from position `i` on: threads the
/// shared registry, the record's private scratch registry, and the
/// properties and required accumulators.
pub open spec fn gen_fields(
    fields: Seq<FieldModel>,
    i: int,
    reg: Seq<(Seq<char>, SchemaModel)>,
    scratch: Seq<(Seq<char>, SchemaModel)>,
    props: Seq<(Seq<char>, SchemaModel)>,
    req: Seq<Seq<char>>,
) -> Result<
    (
        Seq<(Seq<char>, SchemaModel)>,
        Seq<(Seq<char>, SchemaModel)>,
        Seq<(Seq<char>, SchemaModel)>,
        Seq<Seq<char>>,
    ),
    BuildErrorModel,
>
    decreases fields, 0int, fields.len() - i,
{
    if i < 0 || i >= fields.len() {
        Ok((reg, scratch, props, req))
    } else {
        let f = fields[i];
        if f.flatten {
            match named_of(f.ty) {
                None => Err(BuildErrorModel::FlattenUnsupported(f.name)),
                Some(nm) => match gen_type(f.ty, scratch) {
                    Err(e) => Err(e),
                    Ok(ok) => {
                        let inner = assoc_get(ok.0, nm);
                        let scratch3 = assoc_remove(ok.0, nm);
                        let merged = merge_props(
                            props,
                            req,
                            opt_entries(inner.properties),
                            opt_names(inner.required),
                        );
                        gen_fields(fields, i + 1, reg, scratch3, merged.0, merged.1)
                    },
                },
            }
        } else {
            match gen_type(f.ty, reg) {
                Err(e) => Err(e),
                Ok(ok) => {
                    let props2 = assoc_upsert(props, f.name, prop_schema_model(ok.1, f.doc));
                    let req2 = if spec_is_optional(f.ty) {
                        req
                    } else {
                        req.push(f.name)
                    };
                    gen_fields(fields, i + 1, ok.0, scratch, props2, req2)
                },
            }
        }
    }
}

/// Generation of an enumeration: a registered name short-circuits,
/// otherwise the completed schema is registered at once.  Variants are
/// leaves, so no error can arise.
pub open spec fn gen_enum(ed: EnumModel, reg: Seq<(Seq<char>, SchemaModel)>) -> (
    Seq<(Seq<char>, SchemaModel)>,
    SchemaRefModel,
) {
    if assoc_has(reg, ed.name) {
        (reg, SchemaRefModel::Ref(ref_path_model(ed.name)))
    } else {
        (reg.push((ed.name, enum_schema_model(ed))), SchemaRefModel::Ref(ref_path_model(ed.name)))
    }
}

/// How an executable generation result matches the semantics: on
/// success, the returned reference and the registry are the specified
/// ones; on error, the specified error comes back and the registry of
/// the aborted run is left unspecified.
pub open spec fn gen_result_matches(
    r: Result<SchemaRef, BuildError>,
    reg_final: Seq<(Seq<char>, SchemaModel)>,
    spec_r: Result<(Seq<(Seq<char>, SchemaModel)>, SchemaRefModel), BuildErrorModel>,
) -> bool {
    match spec_r {
        Ok(ok) => r matches Ok(sr) && sr@ == ok.1 && reg_final == ok.0,
        Err(e) => r matches Err(be) && be@ == e,
    }
}

/// Success of generation keeps every registered name registered: the
/// registry only grows within a session.
pub proof fn lemma_gen_type_monotonic(
    ty: TypeModel,
    reg: Seq<(Seq<char>, SchemaModel)>,
    nm: Seq<char>,
)
    requires
        assoc_has(reg, nm),
    ensures
        gen_type(ty, reg) matches Ok(ok) ==> assoc_has(ok.0, nm),
    decreases ty, 0int, 0int,
{
    match ty {
        TypeModel::Optional(inner) => {
            lemma_gen_type_monotonic(*inner, reg, nm);
        },
        TypeModel::Sequence(inner) => {
            lemma_gen_type_monotonic(*inner, reg, nm);
        },
        TypeModel::Mapping(inner) => {
            lemma_gen_type_monotonic(*inner, reg, nm);
        },
        TypeModel::Record(rd) => {
            lemma_gen_record_monotonic(rd, reg, nm);
        },
        TypeModel::Enumeration(ed) => {
            if !assoc_has(reg, ed.name) {
                crate::registry::lemma_assoc_has_push(reg, (ed.name, enum_schema_model(ed)), nm);
            }
        },
        _ => {},
    }
}

pub proof fn lemma_gen_record_monotonic(
    rd: RecordModel,
    reg: Seq<(Seq<char>, SchemaModel)>,
    nm: Seq<char>,
)
    requires
        assoc_has(reg, nm),
    ensures
        gen_record(rd, reg) matches Ok(ok) ==> assoc_has(ok.0, nm),
    decreases rd, 1int, 0int,
{
    if !assoc_has(reg, rd.name) {
        let shell = record_shell_model(rd.doc);
        crate::registry::lemma_assoc_has_push(reg, (rd.name, shell), nm);
        let reg1 = reg.push((rd.name, shell));
        lemma_gen_fields_monotonic(rd.fields, 0, reg1, Seq::empty(), Seq::empty(), Seq::empty(), nm);
        match gen_fields(rd.fields, 0, reg1, Seq::empty(), Seq::empty(), Seq::empty()) {
            Ok(ok) => {
                let complete = record_complete_model(rd.doc, ok.2, ok.3);
                crate::registry::lemma_assoc_has_upsert(ok.0, rd.name, complete, nm);
                crate::registry::lemma_assoc_has_merge_absent(
                    assoc_upsert(ok.0, rd.name, complete),
                    ok.1,
                    nm,
                );
            },
            Err(_) => {},
        }
    }
}

pub proof fn lemma_gen_fields_monotonic(
    fields: Seq<FieldModel>,
    i: int,
    reg: Seq<(Seq<char>, SchemaModel)>,
    scratch: Seq<(Seq<char>, SchemaModel)>,
    props: Seq<(Seq<char>, SchemaModel)>,
    req: Seq<Seq<char>>,
    nm: Seq<char>,
)
    requires
        assoc_has(reg, nm),
    ensures
        gen_fields(fields, i, reg, scratch, props, req) matches Ok(ok) ==> assoc_has(ok.0, nm),
    decreases fields, 0int, fields.len() - i,
{
    if 0 <= i < fields.len() {
        let f = fields[i];
        if f.flatten {
            match named_of(f.ty) {
                Some(n2) => match gen_type(f.ty, scratch) {
                    Ok(ok) => {
                        let inner = assoc_get(ok.0, n2);
                        let scratch3 = assoc_remove(ok.0, n2);
                        let merged = merge_props(
                            props,
                            req,
                            opt_entries(inner.properties),
                            opt_names(inner.required),
                        );
                        lemma_gen_fields_monotonic(
                            fields,
                            i + 1,
                            reg,
                            scratch3,
                            merged.0,
                            merged.1,
                            nm,
                        );
                    },
                    Err(_) => {},
                },
                None => {},
            }
        } else {
            lemma_gen_type_monotonic(f.ty, reg, nm);
            match gen_type(f.ty, reg) {
                Ok(ok) => {
                    let props2 = assoc_upsert(props, f.name, prop_schema_model(ok.1, f.doc));
                    let req2 = if spec_is_optional(f.ty) {
                        req
                    } else {
                        req.push(f.name)
                    };
                    lemma_gen_fields_monotonic(fields, i + 1, ok.0, scratch, props2, req2, nm);
                },
                Err(_) => {},
            }
        }
    }
}

/// Whether one of the names holds the given characters.
fn names_contain(v: &Vec<String>, name: &str) -> (r: bool)
    ensures
        r == crate::schema::str_seq_model(v@).contains(name@),
{
    proof {
        crate::schema::lemma_str_seq_model_len(v@);
    }
    let n = v.len();
    let mut i: usize = 0;
    while i < n
        invariant
            n == v@.len(),
            0 <= i <= n,
            forall|j: int| 0 <= j < i ==> crate::schema::str_seq_model(v@)[j] != name@,
        decreases n - i,
    {
        proof {
            crate::schema::lemma_str_seq_model_len(v@);
            crate::schema::lemma_str_seq_model_index(v@, i as int);
        }
        if crate::text::str_eq(v[i].as_str(), name) {
            proof {
                let witness: int = i as int;
                assert(crate::schema::str_seq_model(v@)[witness] == name@);
                assert(0 <= witness < crate::schema::str_seq_model(v@).len());
                assert(crate::schema::str_seq_model(v@).contains(name@));
            }
            return true;
        }
        i += 1;
    }
    proof {
        assert forall|j: int|
            0 <= j < crate::schema::str_seq_model(v@).len() implies crate::schema::str_seq_model(
            v@,
        )[j] != name@ by {}
    }
    false
}

/// A reference result flattened into a schema object.
fn inline_schema(sr: SchemaRef) -> (r: SchemaObject)
    ensures
        r@ == inline_model(sr@),
{
    match sr {
        SchemaRef::Object(s) => s,
        SchemaRef::Ref(p) => SchemaObject::ref_only(p),
    }
}

/// The shell schema a record registers before walking its fields.
fn record_shell(doc: &str) -> (r: SchemaObject)
    ensures
        r@ == record_shell_model(doc@),
{
    let (title, desc) = split_doc(doc);
    let mut s = SchemaObject::empty();
    s.title = title;
    s.description = desc;
    s.schema_type = Some("object".to_owned());
    s
}

/// The completed schema of a record: empty maps collapse to absent keys.
fn record_complete(doc: &str, props: Vec<(String, SchemaObject)>, req: Vec<String>) -> (r:
    SchemaObject)
    ensures
        r@ == record_complete_model(
            doc@,
            crate::schema::props_model(props@),
            crate::schema::str_seq_model(req@),
        ),
{
    proof {
        crate::schema::lemma_props_model_len(props@);
        crate::schema::lemma_str_seq_model_len(req@);
    }
    let (title, desc) = split_doc(doc);
    let mut s = SchemaObject::empty();
    s.title = title;
    s.description = desc;
    s.schema_type = Some("object".to_owned());
    if props.len() > 0 {
        s.properties = Some(props);
    }
    if req.len() > 0 {
        s.required = Some(req);
    }
    s
}

/// The completed schema of an enumeration.
fn enum_schema(ed: &EnumDescriptor) -> (r: SchemaObject)
    ensures
        r@ == enum_schema_model(ed@),
{
    let ghost vm = crate::descriptor::variants_model(ed.variants@);
    proof {
        crate::descriptor::lemma_variants_model_len(ed.variants@);
    }
    let (title, desc) = split_doc(ed.doc.as_str());
    let n = ed.variants.len();
    let mut values: Vec<String> = Vec::new();
    let mut i: usize = 0;
    while i < n
        invariant
            n == ed.variants@.len(),
            n == vm.len(),
            vm == crate::descriptor::variants_model(ed.variants@),
            0 <= i <= n,
            values@.len() == i,
            forall|j: int| 0 <= j < i ==> values@[j]@ == vm[j].name,
        decreases n - i,
    {
        proof {
            crate::descriptor::lemma_variants_model_index(ed.variants@, i as int);
        }
        values.push(ed.variants[i].name.clone());
        i += 1;
    }
    proof {
        crate::schema::lemma_str_seq_model_len(values@);
        assert forall|j: int|
            0 <= j < n implies crate::schema::str_seq_model(values@)[j] == variant_names(vm)[j] by {
            crate::schema::lemma_str_seq_model_index(values@, j);
        }
        assert(crate::schema::str_seq_model(values@) =~= variant_names(vm));
    }
    let mut bullets = String::new();
    let mut k: usize = 0;
    while k < n
        invariant
            n == ed.variants@.len(),
            n == vm.len(),
            vm == crate::descriptor::variants_model(ed.variants@),
            0 <= k <= n,
            bullets@ == bullets_upto(vm, k as int),
        decreases n - k,
    {
        proof {
            crate::descriptor::lemma_variants_model_index(ed.variants@, k as int);
        }
        let v = &ed.variants[k];
        if !v.doc.as_str().is_empty() {
            bullets.append("\n* ");
            bullets.append(v.name.as_str());
            bullets.append(": ");
            bullets.append(v.doc.as_str());
            proof {
                assert(bullets@ =~= bullets_upto(vm, k as int) + bullet_model(vm[k as int]));
            }
        } else {
            proof {
                assert(bullets@ =~= bullets_upto(vm, k as int) + bullet_model(vm[k as int]));
            }
        }
        k += 1;
    }
    let description: Option<String> = if bullets.as_str().is_empty() {
        desc
    } else {
        let base = match desc {
            Some(d) => d,
            None => String::new(),
        };
        Some(base.concat(bullets.as_str()))
    };
    let mut s = SchemaObject::empty();
    s.title = title;
    s.description = description;
    s.schema_type = Some("string".to_owned());
    s.enum_values = Some(values);
    proof {
        assert(s@ =~= enum_schema_model(ed@));
    }
    s
}

/// The fixed schema of a scalar kind.
pub fn primitive_schema(k: PrimitiveKind) -> (r: SchemaObject)
    ensures
        r@ == primitive_model(k),
{
    let mut s = SchemaObject::empty();
    match k {
        PrimitiveKind::Text => {
            s.schema_type = Some("string".to_owned());
        },
        PrimitiveKind::Int64 => {
            s.schema_type = Some("integer".to_owned());
            s.format = Some("int64".to_owned());
        },
        PrimitiveKind::UInt64 => {
            s.schema_type = Some("integer".to_owned());
            s.format = Some("int64".to_owned());
            s.minimum = Some(0);
        },
        PrimitiveKind::Int32 => {
            s.schema_type = Some("integer".to_owned());
            s.format = Some("int32".to_owned());
        },
        PrimitiveKind::UInt32 => {
            s.schema_type = Some("integer".to_owned());
            s.format = Some("int32".to_owned());
            s.minimum = Some(0);
        },
        PrimitiveKind::UInt16 => {
            s.schema_type = Some("integer".to_owned());
            s.format = Some("int32".to_owned());
            s.minimum = Some(0);
        },
        PrimitiveKind::IndexSigned => {
            s.schema_type = Some("integer".to_owned());
        },
        PrimitiveKind::IndexUnsigned => {
            s.schema_type = Some("integer".to_owned());
            s.minimum = Some(0);
        },
        PrimitiveKind::Float => {
            s.schema_type = Some("number".to_owned());
            s.format = Some("float".to_owned());
        },
        PrimitiveKind::Boolean => {
            s.schema_type = Some("boolean".to_owned());
        },
    }
    s
}

/// Merge a flattened record's schema into the parent's accumulators.
fn merge_flattened(inner: SchemaObject, props: &mut Registry, req: &mut Vec<String>)
    requires
        old(props).wf(),
    ensures
        final(props).wf(),
        ({
            let m = merge_props(
                old(props)@,
                crate::schema::str_seq_model(old(req)@),
                opt_entries(inner@.properties),
                opt_names(inner@.required),
            );
            final(props)@ == m.0 && crate::schema::str_seq_model(final(req)@) == m.1
        }),
{
    let ghost goal = merge_props(
        props@,
        crate::schema::str_seq_model(req@),
        opt_entries(inner@.properties),
        opt_names(inner@.required),
    );
    let inner_req: Vec<String> = match inner.required {
        Some(rq) => rq,
        None => Vec::new(),
    };
    let mut rest: Vec<(String, SchemaObject)> = match inner.properties {
        Some(ip) => ip,
        None => Vec::new(),
    };
    proof {
        assert(crate::schema::str_seq_model(inner_req@) == opt_names(inner@.required));
        assert(crate::schema::props_model(rest@) == opt_entries(inner@.properties));
    }
    while rest.len() > 0
        invariant
            props.wf(),
            merge_props(
                props@,
                crate::schema::str_seq_model(req@),
                crate::schema::props_model(rest@),
                crate::schema::str_seq_model(inner_req@),
            ) == goal,
        decreases rest.len(),
    {
        let ghost rest0 = rest@;
        let ghost props_b = props@;
        let ghost reqm_b = crate::schema::str_seq_model(req@);
        proof {
            crate::schema::lemma_props_model_len(rest0);
            crate::schema::lemma_props_model_index(rest0, 0);
            crate::schema::lemma_props_model_remove(rest0, 0);
        }
        let e = rest.remove(0);
        proof {
            assert(crate::schema::props_model(rest@) =~= crate::schema::props_model(
                rest0,
            ).drop_first());
        }
        let is_req = names_contain(&inner_req, e.0.as_str());
        if is_req {
            let ghost reqv_b = req@;
            req.push(e.0.clone());
            proof {
                crate::schema::lemma_str_seq_model_push(reqv_b, e.0);
            }
        }
        props.upsert(e.0, e.1);
        proof {
            assert(merge_props(
                props_b,
                reqm_b,
                crate::schema::props_model(rest0),
                crate::schema::str_seq_model(inner_req@),
            ) == merge_props(
                props@,
                crate::schema::str_seq_model(req@),
                crate::schema::props_model(rest@),
                crate::schema::str_seq_model(inner_req@),
            ));
        }
    }
    proof {
        crate::schema::lemma_props_model_len(rest@);
    }
}

/// Generation of an enumeration against the shared registry: register
/// once, then always answer with a reference.
fn build_enum(ed: &EnumDescriptor, registry: &mut Registry) -> (r: Result<SchemaRef, BuildError>)
    requires
        old(registry).wf(),
    ensures
        final(registry).wf(),
        gen_result_matches(r, final(registry)@, Ok(gen_enum(ed@, old(registry)@))),
{
    if registry.has(ed.name.as_str()) {
        Ok(SchemaRef::Ref(Registry::reference_path(ed.name.as_str())))
    } else {
        let schema = enum_schema(ed);
        registry.insert(ed.name.clone(), schema);
        Ok(SchemaRef::Ref(Registry::reference_path(ed.name.as_str())))
    }
}

/// Generation of a record against the shared registry.  A name already
/// registered short-circuits to a reference with no field touched.
/// Otherwise the shell schema is registered before the fields are
/// walked — a self-referential field then resolves to a reference — and
/// the completed schema replaces it afterwards.
fn build_record(rd: &RecordDescriptor, registry: &mut Registry) -> (r: Result<
    SchemaRef,
    BuildError,
>)
    requires
        old(registry).wf(),
    ensures
        final(registry).wf(),
        gen_result_matches(r, final(registry)@, gen_record(rd@, old(registry)@)),
    decreases *rd, 1int, 0int,
{
    let has0 = registry.has(rd.name.as_str());
    if has0 {
        return Ok(SchemaRef::Ref(Registry::reference_path(rd.name.as_str())));
    }
    let shell = record_shell(rd.doc.as_str());
    registry.insert(rd.name.clone(), shell);
    let mut scratch = Registry::new();
    let mut props = Registry::new();
    let mut req: Vec<String> = Vec::new();
    let ghost fsm = rd@.fields;
    let ghost reg1 = registry@;
    proof {
        crate::descriptor::lemma_fields_model_len(rd.fields@);
        assert(reg1 == old(registry)@.push((rd@.name, record_shell_model(rd@.doc))));
    }
    let n = rd.fields.len();
    let mut j: usize = 0;
    while j < n
        invariant
            registry.wf(),
            scratch.wf(),
            props.wf(),
            !assoc_has(old(registry)@, rd@.name),
            reg1 == old(registry)@.push((rd@.name, record_shell_model(rd@.doc))),
            fsm == rd@.fields,
            n == rd.fields@.len(),
            n == fsm.len(),
            0 <= j <= n,
            gen_fields(fsm, 0, reg1, Seq::empty(), Seq::empty(), Seq::empty()) == gen_fields(
                fsm,
                j as int,
                registry@,
                scratch@,
                props@,
                crate::schema::str_seq_model(req@),
            ),
        decreases n - j,
    {
        let ghost reg_b = registry@;
        let ghost scr_b = scratch@;
        let ghost props_b = props@;
        let ghost req_b = crate::schema::str_seq_model(req@);
        proof {
            crate::descriptor::lemma_fields_model_index(rd.fields@, j as int);
        }
        let f = &rd.fields[j];
        if f.flatten {
            let nm: &String = match &f.ty {
                TypeDescriptor::Record(ird) => &ird.name,
                TypeDescriptor::Enumeration(ied) => &ied.name,
                _ => {
                    proof {
                        assert(gen_fields(fsm, j as int, reg_b, scr_b, props_b, req_b)
                            == Err::<
                            (
                                Seq<(Seq<char>, SchemaModel)>,
                                Seq<(Seq<char>, SchemaModel)>,
                                Seq<(Seq<char>, SchemaModel)>,
                                Seq<Seq<char>>,
                            ),
                            BuildErrorModel,
                        >(BuildErrorModel::FlattenUnsupported(fsm[j as int].name)));
                    }
                    return Err(BuildError::FlattenUnsupported(f.name.clone()));
                },
            };
            let rr = generate_schema(&f.ty, &mut scratch);
            match rr {
                Err(e) => {
                    proof {
                        assert(gen_fields(fsm, 0, reg1, Seq::empty(), Seq::empty(), Seq::empty())
                            matches Err(em) && em == e@);
                    }
                    return Err(e);
                },
                Ok(_) => {},
            }
            let removed = scratch.remove(nm.as_str());
            match removed {
                Some(inner) => {
                    merge_flattened(inner, &mut props, &mut req);
                },
                None => {},
            }
            proof {
                assert(gen_fields(fsm, j as int, reg_b, scr_b, props_b, req_b) == gen_fields(
                    fsm,
                    j as int + 1,
                    registry@,
                    scratch@,
                    props@,
                    crate::schema::str_seq_model(req@),
                ));
            }
        } else {
            let rr = generate_schema(&f.ty, registry);
            match rr {
                Err(e) => {
                    proof {
                        assert(gen_fields(fsm, 0, reg1, Seq::empty(), Seq::empty(), Seq::empty())
                            matches Err(em) && em == e@);
                    }
                    return Err(e);
                },
                Ok(sr) => {
                    let ghost srm = sr@;
                    let prop: SchemaObject = match sr {
                        SchemaRef::Ref(p) => SchemaObject::ref_only(p),
                        SchemaRef::Object(s0) => {
                            let mut s1 = s0;
                            if !f.doc.as_str().is_empty() {
                                s1.description = Some(f.doc.clone());
                            }
                            s1
                        },
                    };
                    proof {
                        assert(prop@ =~= prop_schema_model(srm, fsm[j as int].doc));
                    }
                    props.upsert(f.name.clone(), prop);
                    if !f.ty.is_optional() {
                        let ghost reqv_b = req@;
                        req.push(f.name.clone());
                        proof {
                            crate::schema::lemma_str_seq_model_push(reqv_b, f.name);
                        }
                    }
                    proof {
                        assert(gen_fields(fsm, j as int, reg_b, scr_b, props_b, req_b)
                            == gen_fields(
                            fsm,
                            j as int + 1,
                            registry@,
                            scratch@,
                            props@,
                            crate::schema::str_seq_model(req@),
                        ));
                    }
                },
            }
        }
        j += 1;
    }
    proof {
        assert(gen_fields(fsm, 0, reg1, Seq::empty(), Seq::empty(), Seq::empty()) == Ok::<
            _,
            BuildErrorModel,
        >((registry@, scratch@, props@, crate::schema::str_seq_model(req@))));
        crate::registry::lemma_assoc_has_push(
            old(registry)@,
            (rd@.name, record_shell_model(rd@.doc)),
            rd@.name,
        );
        lemma_gen_fields_monotonic(
            fsm,
            0,
            reg1,
            Seq::empty(),
            Seq::empty(),
            Seq::empty(),
            rd@.name,
        );
    }
    let complete = record_complete(rd.doc.as_str(), props.into_entries(), req);
    registry.update(rd.name.as_str(), complete);
    registry.merge_absent_from(scratch);
    Ok(SchemaRef::Ref(Registry::reference_path(rd.name.as_str())))
}

/// Generation of one type: the entry point of the recursive walk.  On
/// success the registry holds what the semantics prescribe and the
/// returned reference is the prescribed one; on a configuration error
/// the run is aborted and the registry of the aborted run is not to be
/// used further.
pub fn generate_schema(ty: &TypeDescriptor, registry: &mut Registry) -> (r: Result<
    SchemaRef,
    BuildError,
>)
    requires
        old(registry).wf(),
    ensures
        final(registry).wf(),
        gen_result_matches(r, final(registry)@, gen_type(ty@, old(registry)@)),
    decreases *ty, 0int, 0int,
{
    match ty {
        TypeDescriptor::Primitive(k) => Ok(SchemaRef::Object(primitive_schema(*k))),
        TypeDescriptor::ExternalDate(k) => Ok(SchemaRef::Object(date_schema(*k))),
        TypeDescriptor::Optional(inner) => generate_schema(inner, registry),
        TypeDescriptor::Sequence(inner) => {
            let rr = generate_schema(inner, registry);
            match rr {
                Err(e) => Err(e),
                Ok(sr) => {
                    let mut s = SchemaObject::empty();
                    s.schema_type = Some("array".to_owned());
                    s.items = Some(Box::new(inline_schema(sr)));
                    Ok(SchemaRef::Object(s))
                },
            }
        },
        TypeDescriptor::Mapping(inner) => {
            let rr = generate_schema(inner, registry);
            match rr {
                Err(e) => Err(e),
                Ok(sr) => {
                    let mut s = SchemaObject::empty();
                    s.schema_type = Some("object".to_owned());
                    s.additional_properties = Some(Box::new(inline_schema(sr)));
                    Ok(SchemaRef::Object(s))
                },
            }
        },
        TypeDescriptor::Record(rd) => build_record(rd, registry),
        TypeDescriptor::Enumeration(ed) => build_enum(ed, registry),
    }
}

/// The fixed schema of a calendar kind.
pub fn date_schema(k: DateKind) -> (r: SchemaObject)
    ensures
        r@ == date_model(k),
{
    let mut s = SchemaObject::empty();
    s.schema_type = Some("string".to_owned());
    match k {
        DateKind::Date => {
            s.format = Some("date".to_owned());
        },
        DateKind::DateTime => {
            s.format = Some("date-time".to_owned());
        },
    }
    s
}

} // verus!
