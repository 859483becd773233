//! Laws of the generator, proved from the semantics in `generate`.
use vstd::prelude::*;

verus! {

use crate::descriptor::RecordModel;
use crate::descriptor::TypeModel;
use crate::generate::gen_enum;
use crate::generate::gen_fields;
use crate::generate::gen_record;
use crate::generate::gen_type;
use crate::generate::BuildErrorModel;
use crate::generate::lemma_gen_fields_monotonic;
use crate::generate::merge_props;
use crate::generate::primitive_model;
use crate::generate::prop_schema_model;
use crate::generate::record_complete_model;
use crate::generate::record_shell_model;
use crate::registry::assoc_get;
use crate::registry::assoc_has;
use crate::registry::assoc_upsert;
use crate::registry::lemma_assoc_get_merge_absent;
use crate::registry::lemma_assoc_get_upsert_same;
use crate::registry::lemma_assoc_has_merge_absent;
use crate::registry::lemma_assoc_get_push;
use crate::registry::lemma_assoc_has_push;
use crate::registry::lemma_assoc_has_push_iff;
use crate::registry::assoc_index_from;
use crate::registry::assoc_remove;
use crate::registry::lemma_assoc_has_upsert;
use crate::registry::merge_absent;
use crate::schema::SchemaModel;
use crate::schema::SchemaRefModel;
use crate::schema::ref_only_model;
use crate::schema::ref_path_model;

/// A record generated with success is registered under its name, and
/// the caller holds a reference to that entry.
pub proof fn lemma_gen_record_registers(rd: RecordModel, reg: Seq<(Seq<char>, SchemaModel)>)
    ensures
        gen_record(rd, reg) matches Ok(ok) ==> assoc_has(ok.0, rd.name) && ok.1
            == SchemaRefModel::Ref(ref_path_model(rd.name)),
{
    if !assoc_has(reg, rd.name) {
        let shell = record_shell_model(rd.doc);
        lemma_assoc_has_push(reg, (rd.name, shell), rd.name);
        let reg1 = reg.push((rd.name, shell));
        match gen_fields(rd.fields, 0, reg1, Seq::empty(), Seq::empty(), Seq::empty()) {
            Ok(ok) => {
                lemma_gen_fields_monotonic(
                    rd.fields,
                    0,
                    reg1,
                    Seq::empty(),
                    Seq::empty(),
                    Seq::empty(),
                    rd.name,
                );
                let complete = record_complete_model(rd.doc, ok.2, ok.3);
                lemma_assoc_has_upsert(ok.0, rd.name, complete, rd.name);
                lemma_assoc_has_merge_absent(
                    assoc_upsert(ok.0, rd.name, complete),
                    ok.1,
                    rd.name,
                );
            },
            Err(_) => {},
        }
    }
}

/// Idempotent deduplication: once a record has been generated, a second
/// generation of the same name against the resulting registry inserts
/// nothing — the registry comes back unchanged — and returns the
/// identical reference, without touching a field.
pub proof fn lemma_record_idempotent(rd: RecordModel, reg: Seq<(Seq<char>, SchemaModel)>)
    requires
        gen_record(rd, reg) is Ok,
    ensures
        gen_record(rd, reg) matches Ok(ok) ==> gen_record(rd, ok.0) == Ok::<
            _,
            crate::generate::BuildErrorModel,
        >((ok.0, ok.1)),
{
    lemma_gen_record_registers(rd, reg);
}

/// Idempotent deduplication for enumerations: the second generation of
/// the same name inserts nothing and returns the identical reference.
pub proof fn lemma_enum_idempotent(ed: crate::descriptor::EnumModel, reg: Seq<(Seq<char>, SchemaModel)>)
    ensures
        gen_enum(ed, gen_enum(ed, reg).0) == (gen_enum(ed, reg).0, gen_enum(ed, reg).1),
{
    if !assoc_has(reg, ed.name) {
        lemma_assoc_has_push(reg, (ed.name, crate::generate::enum_schema_model(ed)), ed.name);
    }
}

/// Required-set correctness: in a record of a mandatory field followed
/// by an optional one — neither flattened — the required list is exactly
/// the first field's name, whatever the field types are.
pub proof fn lemma_required_exactly(rd: RecordModel, reg: Seq<(Seq<char>, SchemaModel)>)
    requires
        rd.fields.len() == 2,
        !rd.fields[0].flatten,
        !(rd.fields[0].ty is Optional),
        !rd.fields[1].flatten,
        rd.fields[1].ty is Optional,
        !assoc_has(reg, rd.name),
    ensures
        gen_record(rd, reg) matches Ok(ok) ==> assoc_get(ok.0, rd.name).required == Some(
            seq![rd.fields[0].name],
        ),
{
    let shell = record_shell_model(rd.doc);
    let reg1 = reg.push((rd.name, shell));
    match gen_type(rd.fields[0].ty, reg1) {
        Ok(ok0) => {
            let props1 = assoc_upsert(
                Seq::empty(),
                rd.fields[0].name,
                prop_schema_model(ok0.1, rd.fields[0].doc),
            );
            let req1 = Seq::<Seq<char>>::empty().push(rd.fields[0].name);
            assert(gen_fields(rd.fields, 0, reg1, Seq::empty(), Seq::empty(), Seq::empty())
                == gen_fields(rd.fields, 1, ok0.0, Seq::empty(), props1, req1));
            match gen_type(rd.fields[1].ty, ok0.0) {
                Ok(ok1) => {
                    let props2 = assoc_upsert(
                        props1,
                        rd.fields[1].name,
                        prop_schema_model(ok1.1, rd.fields[1].doc),
                    );
                    assert(gen_fields(rd.fields, 1, ok0.0, Seq::empty(), props1, req1)
                        == gen_fields(rd.fields, 2, ok1.0, Seq::empty(), props2, req1));
                    let complete = record_complete_model(rd.doc, props2, req1);
                    assert(complete.required == Some(seq![rd.fields[0].name]));
                    lemma_assoc_get_upsert_same(ok1.0, rd.name, complete);
                    lemma_assoc_has_upsert(ok1.0, rd.name, complete, rd.name);
                    lemma_assoc_get_merge_absent(
                        assoc_upsert(ok1.0, rd.name, complete),
                        Seq::empty(),
                        rd.name,
                    );
                },
                Err(_) => {},
            }
        },
        Err(_) => {},
    }
}

/// Map adapter: an associative map whose value type is a named record
/// yields an inline object schema whose `additionalProperties` is a bare
/// reference to that record, whatever the record is.
pub proof fn lemma_map_of_record(rd: RecordModel, reg: Seq<(Seq<char>, SchemaModel)>)
    ensures
        gen_type(TypeModel::Mapping(Box::new(TypeModel::Record(rd))), reg) matches Ok(ok)
            ==> ok.1 matches SchemaRefModel::Object(s) && s.schema_type == Some("object"@)
            && s.additional_properties == Some(
            Box::new(ref_only_model(ref_path_model(rd.name))),
        ),
{
    lemma_gen_record_registers(rd, reg);
    let ty = TypeModel::Mapping(Box::new(TypeModel::Record(rd)));
    assert(gen_type(TypeModel::Record(rd), reg) == gen_record(rd, reg));
    match gen_record(rd, reg) {
        Ok(ok) => {
            assert(gen_type(ty, reg) == Ok::<_, crate::generate::BuildErrorModel>(
                (ok.0, SchemaRefModel::Object(
                    crate::generate::map_model(crate::generate::inline_model(ok.1)),
                )),
            ));
            assert(crate::generate::inline_model(ok.1) == ref_only_model(
                ref_path_model(rd.name),
            ));
        },
        Err(_) => {
            assert(gen_type(ty, reg) is Err);
        },
    }
}

/// Map adapter: an associative map of text values carries the inline
/// string schema under `additionalProperties`.
pub proof fn lemma_map_of_text(reg: Seq<(Seq<char>, SchemaModel)>)
    ensures
        gen_type(
            TypeModel::Mapping(
                Box::new(TypeModel::Primitive(crate::descriptor::PrimitiveKind::Text)),
            ),
            reg,
        ) matches Ok(ok) ==> ok.1 matches SchemaRefModel::Object(s) && s.additional_properties
            == Some(
            Box::new(
                crate::generate::primitive_model(crate::descriptor::PrimitiveKind::Text),
            ),
        ),
{
    let inner = TypeModel::Primitive(crate::descriptor::PrimitiveKind::Text);
    let ty = TypeModel::Mapping(Box::new(inner));
    assert(gen_type(inner, reg) == Ok::<_, crate::generate::BuildErrorModel>(
        (reg, SchemaRefModel::Object(
            crate::generate::primitive_model(crate::descriptor::PrimitiveKind::Text),
        )),
    ));
    assert(gen_type(ty, reg) == Ok::<_, crate::generate::BuildErrorModel>(
        (reg, SchemaRefModel::Object(
            crate::generate::map_model(
                crate::generate::primitive_model(crate::descriptor::PrimitiveKind::Text),
            ),
        )),
    ));
}

/// Flatten merge: in a record of a scalar field followed by a flattened
/// record field — where the flattened record holds one field naming a
/// third record of one scalar field — the third record and the outer one
/// end up registered, the flattened one never does, and the outer
/// record's properties are exactly its own scalar field and the
/// flattened record's field, in that order, both required.
pub proof fn lemma_flatten_merge(
    c: RecordModel,
    b: RecordModel,
    a: RecordModel,
    reg: Seq<(Seq<char>, SchemaModel)>,
)
    requires
        c.fields.len() == 2,
        !c.fields[0].flatten,
        c.fields[0].ty is Primitive,
        c.fields[0].doc.len() == 0,
        c.fields[1].flatten,
        c.fields[1].ty == TypeModel::Record(b),
        b.fields.len() == 1,
        !b.fields[0].flatten,
        b.fields[0].ty == TypeModel::Record(a),
        b.fields[0].doc.len() == 0,
        a.fields.len() == 1,
        !a.fields[0].flatten,
        a.fields[0].ty is Primitive,
        a.fields[0].doc.len() == 0,
        a.name != b.name,
        a.name != c.name,
        b.name != c.name,
        b.fields[0].name != c.fields[0].name,
        !assoc_has(reg, c.name),
        !assoc_has(reg, a.name),
        !assoc_has(reg, b.name),
    ensures
        gen_record(c, reg) is Ok,
        gen_record(c, reg) matches Ok(ok) ==> {
            &&& assoc_has(ok.0, c.name)
            &&& assoc_has(ok.0, a.name)
            &&& !assoc_has(ok.0, b.name)
            &&& assoc_get(ok.0, c.name).properties == Some(
                seq![
                    (c.fields[0].name, primitive_model(c.fields[0].ty->Primitive_0)),
                    (b.fields[0].name, ref_only_model(ref_path_model(a.name))),
                ],
            )
            &&& assoc_get(ok.0, c.name).required == Some(
                seq![c.fields[0].name, b.fields[0].name],
            )
        },
{
    let empty = Seq::<(Seq<char>, SchemaModel)>::empty();
    let no_names = Seq::<Seq<char>>::empty();
    // The outer record registers its shell and walks its fields.
    let c_shell = (c.name, record_shell_model(c.doc));
    let reg1 = reg.push(c_shell);
    // Its first field is a scalar, contributed inline and required.
    let prim0 = primitive_model(c.fields[0].ty->Primitive_0);
    assert(gen_type(c.fields[0].ty, reg1) == Ok::<_, BuildErrorModel>(
        (reg1, SchemaRefModel::Object(prim0)),
    ));
    assert(prop_schema_model(SchemaRefModel::Object(prim0), c.fields[0].doc) == prim0);
    let props1 = empty.push((c.fields[0].name, prim0));
    let req1 = no_names.push(c.fields[0].name);
    assert(assoc_upsert(empty, c.fields[0].name, prim0) == props1);
    assert(gen_fields(c.fields, 0, reg1, empty, empty, no_names) == gen_fields(
        c.fields,
        1,
        reg1,
        empty,
        props1,
        req1,
    ));
    // The flattened field resolves its record against the fresh scratch
    // registry: the record registers itself there, and its own field
    // registers the third record beside it.
    let b_shell = (b.name, record_shell_model(b.doc));
    let scr1 = empty.push(b_shell);
    lemma_assoc_has_push_iff(empty, b_shell, a.name);
    assert(!assoc_has(scr1, a.name));
    let a_shell = (a.name, record_shell_model(a.doc));
    let scr2 = scr1.push(a_shell);
    let prim_a = primitive_model(a.fields[0].ty->Primitive_0);
    assert(gen_type(a.fields[0].ty, scr2) == Ok::<_, BuildErrorModel>(
        (scr2, SchemaRefModel::Object(prim_a)),
    ));
    assert(prop_schema_model(SchemaRefModel::Object(prim_a), a.fields[0].doc) == prim_a);
    let props_a = empty.push((a.fields[0].name, prim_a));
    let req_a = no_names.push(a.fields[0].name);
    assert(gen_fields(a.fields, 0, scr2, empty, empty, no_names) == gen_fields(
        a.fields,
        1,
        scr2,
        empty,
        props_a,
        req_a,
    ));
    assert(gen_fields(a.fields, 1, scr2, empty, props_a, req_a) == Ok::<_, BuildErrorModel>(
        (scr2, empty, props_a, req_a),
    ));
    let a_complete = record_complete_model(a.doc, props_a, req_a);
    let scr3 = assoc_upsert(scr2, a.name, a_complete);
    lemma_assoc_get_upsert_same(scr2, a.name, a_complete);
    lemma_assoc_has_push_iff(scr1, a_shell, a.name);
    assert(assoc_has(scr2, a.name));
    assert(assoc_index_from(scr2, a.name, 1) == 1);
    assert(assoc_index_from(scr2, a.name, 0) == 1);
    assert(scr3 =~= scr2.update(1, (a.name, a_complete)));
    assert(merge_absent(scr3, empty) == scr3);
    assert(gen_record(a, scr1) == Ok::<_, BuildErrorModel>(
        (scr3, SchemaRefModel::Ref(ref_path_model(a.name))),
    ));
    // Back in the flattened record: its field is the reference, required.
    let ref_a = ref_only_model(ref_path_model(a.name));
    assert(prop_schema_model(SchemaRefModel::Ref(ref_path_model(a.name)), b.fields[0].doc)
        == ref_a);
    let props_b = empty.push((b.fields[0].name, ref_a));
    let req_b = no_names.push(b.fields[0].name);
    assert(gen_fields(b.fields, 0, scr1, empty, empty, no_names) == gen_fields(
        b.fields,
        1,
        scr3,
        empty,
        props_b,
        req_b,
    ));
    assert(gen_fields(b.fields, 1, scr3, empty, props_b, req_b) == Ok::<_, BuildErrorModel>(
        (scr3, empty, props_b, req_b),
    ));
    let b_complete = record_complete_model(b.doc, props_b, req_b);
    assert(assoc_index_from(scr3, b.name, 0) == 0);
    let scr4 = assoc_upsert(scr3, b.name, b_complete);
    assert(scr4 =~= scr3.update(0, (b.name, b_complete)));
    assert(merge_absent(scr4, empty) == scr4);
    assert(gen_record(b, empty) == Ok::<_, BuildErrorModel>(
        (scr4, SchemaRefModel::Ref(ref_path_model(b.name))),
    ));
    // The flattened record's scratch entry is consumed: its properties
    // and required names move into the outer record, and the third
    // record's entry stays behind in the scratch registry.
    assert(assoc_index_from(scr4, b.name, 0) == 0);
    assert(assoc_get(scr4, b.name) == b_complete);
    let scratch3 = assoc_remove(scr4, b.name);
    assert(scratch3 =~= seq![(a.name, a_complete)]);
    assert(b_complete.properties == Some(props_b));
    assert(b_complete.required == Some(req_b));
    assert(req_b[0] == b.fields[0].name);
    assert(req_b.contains(b.fields[0].name));
    lemma_assoc_has_push_iff(empty, (c.fields[0].name, prim0), b.fields[0].name);
    assert(!assoc_has(props1, b.fields[0].name));
    let props2 = props1.push((b.fields[0].name, ref_a));
    assert(assoc_upsert(props1, b.fields[0].name, ref_a) == props2);
    let req2 = req1.push(b.fields[0].name);
    assert(merge_props(props2, req2, props_b.drop_first(), req_b) == (props2, req2));
    assert(merge_props(props1, req1, props_b, req_b) == (props2, req2));
    assert(crate::generate::named_of(c.fields[1].ty) == Some(b.name));
    assert(gen_type(TypeModel::Record(b), empty) == gen_record(b, empty));
    assert(gen_fields(c.fields, 1, reg1, empty, props1, req1) == gen_fields(
        c.fields,
        2,
        reg1,
        scratch3,
        props2,
        req2,
    ));
    assert(gen_fields(c.fields, 2, reg1, scratch3, props2, req2) == Ok::<_, BuildErrorModel>(
        (reg1, scratch3, props2, req2),
    ));
    // The outer record completes: its entry is filled in, and what is
    // left of the scratch registry joins the shared one.
    let c_complete = record_complete_model(c.doc, props2, req2);
    let reg3 = assoc_upsert(reg1, c.name, c_complete);
    lemma_assoc_get_upsert_same(reg1, c.name, c_complete);
    lemma_assoc_has_upsert(reg1, c.name, c_complete, c.name);
    lemma_assoc_has_push_iff(reg, c_shell, a.name);
    lemma_assoc_has_upsert(reg1, c.name, c_complete, a.name);
    assert(!assoc_has(reg3, a.name));
    let reg4 = reg3.push((a.name, a_complete));
    assert(scratch3[0] == (a.name, a_complete));
    assert(scratch3.drop_first() =~= empty);
    assert(merge_absent(reg4, empty) == reg4);
    assert(merge_absent(reg3, scratch3) == reg4);
    assert(gen_record(c, reg) == Ok::<_, BuildErrorModel>(
        (reg4, SchemaRefModel::Ref(ref_path_model(c.name))),
    ));
    // The claims, read off the final registry.
    lemma_assoc_has_upsert(reg1, c.name, c_complete, c.name);
    lemma_assoc_has_push_iff(reg3, (a.name, a_complete), c.name);
    lemma_assoc_has_push_iff(reg3, (a.name, a_complete), a.name);
    lemma_assoc_get_push(reg3, (a.name, a_complete), c.name);
    lemma_assoc_has_push_iff(reg, c_shell, b.name);
    lemma_assoc_has_upsert(reg1, c.name, c_complete, b.name);
    lemma_assoc_has_push_iff(reg3, (a.name, a_complete), b.name);
    assert(assoc_get(reg4, c.name) == c_complete);
    assert(c_complete.properties == Some(props2));
    assert(props2 =~= seq![
        (c.fields[0].name, prim0),
        (b.fields[0].name, ref_a),
    ]);
    assert(c_complete.required == Some(req2));
    assert(req2 =~= seq![c.fields[0].name, b.fields[0].name]);
}

/// Whether every field marked flatten, anywhere in the descriptor,
/// carries a named record or enumeration: the one configuration the
/// builders reject is absent.
pub open spec fn flatten_named(ty: TypeModel) -> bool
    decreases ty, 0int, 0int,
{
    match ty {
        TypeModel::Optional(inner) => flatten_named(*inner),
        TypeModel::Sequence(inner) => flatten_named(*inner),
        TypeModel::Mapping(inner) => flatten_named(*inner),
        TypeModel::Record(rd) => fields_flatten_named(rd.fields, 0),
        _ => true,
    }
}

pub open spec fn fields_flatten_named(fields: Seq<crate::descriptor::FieldModel>, i: int) -> bool
    decreases fields, 0int, fields.len() - i,
{
    if i < 0 || i >= fields.len() {
        true
    } else {
        &&& (fields[i].flatten ==> crate::generate::named_of(fields[i].ty) is Some)
        &&& flatten_named(fields[i].ty)
        &&& fields_flatten_named(fields, i + 1)
    }
}

/// Success is owed: generation never fails on a descriptor whose
/// flatten fields all name records or enumerations.  (The converse need
/// not hold: a record whose name is already registered succeeds without
/// its fields ever being looked at.)
pub proof fn lemma_flatten_named_generates(ty: TypeModel, reg: Seq<(Seq<char>, SchemaModel)>)
    requires
        flatten_named(ty),
    ensures
        gen_type(ty, reg) is Ok,
    decreases ty, 0int, 0int,
{
    match ty {
        TypeModel::Optional(inner) => {
            lemma_flatten_named_generates(*inner, reg);
        },
        TypeModel::Sequence(inner) => {
            lemma_flatten_named_generates(*inner, reg);
        },
        TypeModel::Mapping(inner) => {
            lemma_flatten_named_generates(*inner, reg);
        },
        TypeModel::Record(rd) => {
            lemma_record_flatten_named_generates(rd, reg);
        },
        _ => {},
    }
}

pub proof fn lemma_record_flatten_named_generates(
    rd: RecordModel,
    reg: Seq<(Seq<char>, SchemaModel)>,
)
    requires
        fields_flatten_named(rd.fields, 0),
    ensures
        gen_record(rd, reg) is Ok,
    decreases rd, 1int, 0int,
{
    if !assoc_has(reg, rd.name) {
        let reg1 = reg.push((rd.name, record_shell_model(rd.doc)));
        lemma_fields_flatten_named_generate(
            rd.fields,
            0,
            reg1,
            Seq::empty(),
            Seq::empty(),
            Seq::empty(),
        );
    }
}

pub proof fn lemma_fields_flatten_named_generate(
    fields: Seq<crate::descriptor::FieldModel>,
    i: int,
    reg: Seq<(Seq<char>, SchemaModel)>,
    scratch: Seq<(Seq<char>, SchemaModel)>,
    props: Seq<(Seq<char>, SchemaModel)>,
    req: Seq<Seq<char>>,
)
    requires
        fields_flatten_named(fields, i),
    ensures
        gen_fields(fields, i, reg, scratch, props, req) is Ok,
    decreases fields, 0int, fields.len() - i,
{
    if 0 <= i < fields.len() {
        let f = fields[i];
        if f.flatten {
            lemma_flatten_named_generates(f.ty, scratch);
            match crate::generate::named_of(f.ty) {
                Some(nm) => match gen_type(f.ty, scratch) {
                    Ok(ok) => {
                        let inner = assoc_get(ok.0, nm);
                        let merged = merge_props(
                            props,
                            req,
                            crate::generate::opt_entries(inner.properties),
                            crate::generate::opt_names(inner.required),
                        );
                        lemma_fields_flatten_named_generate(
                            fields,
                            i + 1,
                            reg,
                            assoc_remove(ok.0, nm),
                            merged.0,
                            merged.1,
                        );
                    },
                    Err(_) => {},
                },
                None => {},
            }
        } else {
            lemma_flatten_named_generates(f.ty, reg);
            match gen_type(f.ty, reg) {
                Ok(ok) => {
                    let props2 = assoc_upsert(props, f.name, prop_schema_model(ok.1, f.doc));
                    let req2 = if crate::descriptor::spec_is_optional(f.ty) {
                        req
                    } else {
                        req.push(f.name)
                    };
                    lemma_fields_flatten_named_generate(fields, i + 1, ok.0, scratch, props2, req2);
                },
                Err(_) => {},
            }
        }
    }
}

/// Whether a type names the given record, directly or through `Optional`
/// wrappers — the shapes whose resolution is a bare reference.
pub open spec fn resolves_to_name(ty: TypeModel, nm: Seq<char>) -> bool
    decreases ty,
{
    match ty {
        TypeModel::Record(rd) => rd.name == nm,
        TypeModel::Optional(inner) => resolves_to_name(*inner, nm),
        _ => false,
    }
}

/// Cycle safety, resolution half: once a name is registered, generating
/// a type that names it — as a record, possibly wrapped in `Optional` —
/// touches nothing and returns the reference to it.  The enclosing
/// record registers its shell before walking its fields, so a
/// self-referential field meets exactly this case and the walk
/// terminates instead of recursing into itself.
pub proof fn lemma_self_reference(ty: TypeModel, nm: Seq<char>, reg: Seq<(Seq<char>, SchemaModel)>)
    requires
        resolves_to_name(ty, nm),
        assoc_has(reg, nm),
    ensures
        gen_type(ty, reg) == Ok::<_, crate::generate::BuildErrorModel>(
            (reg, SchemaRefModel::Ref(ref_path_model(nm))),
        ),
    decreases ty,
{
    match ty {
        TypeModel::Optional(inner) => {
            lemma_self_reference(*inner, nm, reg);
            assert(gen_type(ty, reg) == gen_type(*inner, reg));
        },
        TypeModel::Record(rd) => {
            assert(gen_type(ty, reg) == gen_record(rd, reg));
            assert(assoc_has(reg, rd.name));
            assert(gen_record(rd, reg) == Ok::<_, crate::generate::BuildErrorModel>(
                (reg, SchemaRefModel::Ref(ref_path_model(rd.name))),
            ));
        },
        _ => {},
    }
}

/// Cycle safety, end to end, for a record of one field that refers back
/// to the record itself: generation succeeds — no infinite recursion is
/// possible, the walk is structural — and the field's property in the
/// registered schema is the bare reference to the record's own path.
pub proof fn lemma_cycle_safe(rd: RecordModel, reg: Seq<(Seq<char>, SchemaModel)>)
    requires
        !assoc_has(reg, rd.name),
        rd.fields.len() == 1,
        !rd.fields[0].flatten,
        resolves_to_name(rd.fields[0].ty, rd.name),
    ensures
        gen_record(rd, reg) is Ok,
        gen_record(rd, reg) matches Ok(ok) ==> assoc_get(ok.0, rd.name).properties == Some(
            seq![(rd.fields[0].name, ref_only_model(ref_path_model(rd.name)))],
        ),
{
    let shell = record_shell_model(rd.doc);
    let reg1 = reg.push((rd.name, shell));
    lemma_assoc_has_push(reg, (rd.name, shell), rd.name);
    lemma_self_reference(rd.fields[0].ty, rd.name, reg1);
    let prop = prop_schema_model(
        SchemaRefModel::Ref(ref_path_model(rd.name)),
        rd.fields[0].doc,
    );
    assert(prop == ref_only_model(ref_path_model(rd.name)));
    let props1 = assoc_upsert(Seq::empty(), rd.fields[0].name, prop);
    assert(props1 =~= seq![(rd.fields[0].name, prop)]);
    let req1 = if rd.fields[0].ty is Optional {
        Seq::<Seq<char>>::empty()
    } else {
        Seq::<Seq<char>>::empty().push(rd.fields[0].name)
    };
    assert(gen_fields(rd.fields, 0, reg1, Seq::empty(), Seq::empty(), Seq::empty())
        == gen_fields(rd.fields, 1, reg1, Seq::empty(), props1, req1));
    let complete = record_complete_model(rd.doc, props1, req1);
    assert(complete.properties == Some(seq![(rd.fields[0].name, prop)]));
    lemma_assoc_get_upsert_same(reg1, rd.name, complete);
    lemma_assoc_has_upsert(reg1, rd.name, complete, rd.name);
    lemma_assoc_get_merge_absent(assoc_upsert(reg1, rd.name, complete), Seq::empty(), rd.name);
}

} // verus!
