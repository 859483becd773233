use openapi_schema::{
    BuildError, DateKind, FieldDescriptor, PrimitiveKind, RecordDescriptor, Registry, SchemaRef,
    TypeDescriptor,
};
use openapi_schema::text::split_doc;

fn prp_field(name: &str, ty: TypeDescriptor) -> FieldDescriptor {
    FieldDescriptor { name: name.to_string(), doc: String::new(), ty, flatten: false }
}

fn prp_record(name: &str, doc: &str, fields: Vec<FieldDescriptor>) -> TypeDescriptor {
    TypeDescriptor::Record(RecordDescriptor {
        name: name.to_string(),
        doc: doc.to_string(),
        fields,
    })
}

#[test]
fn doc_split_at_first_blank_line() {
    let (title, desc) = split_doc("Pet Tag\n\nA tag for a pet");
    assert_eq!(title, Some("Pet Tag".to_string()));
    assert_eq!(desc, Some("A tag for a pet".to_string()));
}

#[test]
fn doc_split_without_separator() {
    let (title, desc) = split_doc("A tag for a pet");
    assert_eq!(title, None);
    assert_eq!(desc, Some("A tag for a pet".to_string()));
}

#[test]
fn doc_split_empty() {
    let (title, desc) = split_doc("");
    assert_eq!(title, None);
    assert_eq!(desc, None);
}

#[test]
fn doc_split_keeps_later_blank_lines() {
    let (title, desc) = split_doc("a\n\nb\n\nc");
    assert_eq!(title, Some("a".to_string()));
    assert_eq!(desc, Some("b\n\nc".to_string()));
}

#[test]
fn doc_lines_join_with_newline() {
    let lines = vec![
        "Pet Tag".to_string(),
        "".to_string(),
        "A tag for a pet".to_string(),
    ];
    let joined = openapi_schema::text::join_doc_lines(&lines);
    assert_eq!(joined, "Pet Tag\n\nA tag for a pet");
    let (title, desc) = split_doc(&joined);
    assert_eq!(title, Some("Pet Tag".to_string()));
    assert_eq!(desc, Some("A tag for a pet".to_string()));
}

#[test]
fn record_title_and_description() {
    let order = prp_record(
        "Order",
        "Pet Order\n\nAn order for a pets from the pet store",
        vec![prp_field("id", TypeDescriptor::Primitive(PrimitiveKind::Int64))],
    );
    let mut registry = Registry::new();
    openapi_schema::generate_schema(&order, &mut registry).unwrap();
    let schema = registry.get("Order").unwrap();
    assert_eq!(schema.title, Some("Pet Order".to_string()));
    assert_eq!(
        schema.description,
        Some("An order for a pets from the pet store".to_string())
    );
}

#[test]
fn required_lists_exactly_the_mandatory_field() {
    let rec = prp_record(
        "Pair",
        "",
        vec![
            prp_field("a", TypeDescriptor::Primitive(PrimitiveKind::Int64)),
            prp_field(
                "b",
                TypeDescriptor::Optional(Box::new(TypeDescriptor::Primitive(
                    PrimitiveKind::Int64,
                ))),
            ),
        ],
    );
    let mut registry = Registry::new();
    openapi_schema::generate_schema(&rec, &mut registry).unwrap();
    let schema = registry.get("Pair").unwrap();
    assert_eq!(schema.required, Some(vec!["a".to_string()]));
}

#[test]
fn idempotent_dedup_single_entry_and_same_ref() {
    let tag = prp_record(
        "Tag",
        "A tag for a pet",
        vec![prp_field("id", TypeDescriptor::Primitive(PrimitiveKind::Int64))],
    );
    let mut registry = Registry::new();
    let first = openapi_schema::generate_schema(&tag, &mut registry).unwrap();
    assert_eq!(registry.len(), 1);
    let second = openapi_schema::generate_schema(&tag, &mut registry).unwrap();
    assert_eq!(registry.len(), 1);
    assert_eq!(first, second);
    match second {
        SchemaRef::Ref(path) => assert_eq!(path, "#/components/schemas/Tag"),
        SchemaRef::Object(_) => panic!("unexpected inline object"),
    }
}

#[test]
fn cycle_self_reference_yields_ref() {
    // A record whose field names the record itself: generation terminates
    // and the field becomes a reference to the enclosing schema.
    let node = prp_record(
        "Node",
        "",
        vec![prp_field(
            "next",
            TypeDescriptor::Optional(Box::new(prp_record("Node", "", vec![]))),
        )],
    );
    let mut registry = Registry::new();
    openapi_schema::generate_schema(&node, &mut registry).unwrap();
    assert_eq!(registry.len(), 1);
    let schema = registry.get("Node").unwrap();
    let props = schema.properties.as_ref().unwrap();
    assert_eq!(props.len(), 1);
    assert_eq!(props[0].0, "next");
    assert_eq!(props[0].1.ref_path, Some("#/components/schemas/Node".to_string()));
    assert_eq!(props[0].1.schema_type, None);
}

#[test]
fn map_of_named_record_is_a_reference() {
    let b = prp_record(
        "B",
        "",
        vec![prp_field("val", TypeDescriptor::Primitive(PrimitiveKind::Text))],
    );
    let ty = TypeDescriptor::Mapping(Box::new(b));
    let mut registry = Registry::new();
    let result = openapi_schema::generate_schema(&ty, &mut registry).unwrap();
    match result {
        SchemaRef::Object(s) => {
            assert_eq!(s.schema_type, Some("object".to_string()));
            let inner = s.additional_properties.unwrap();
            assert_eq!(inner.ref_path, Some("#/components/schemas/B".to_string()));
        },
        SchemaRef::Ref(_) => panic!("unexpected reference"),
    }
}

#[test]
fn map_of_text_is_inline() {
    let ty = TypeDescriptor::Mapping(Box::new(TypeDescriptor::Primitive(PrimitiveKind::Text)));
    let mut registry = Registry::new();
    let result = openapi_schema::generate_schema(&ty, &mut registry).unwrap();
    match result {
        SchemaRef::Object(s) => {
            let inner = s.additional_properties.unwrap();
            assert_eq!(inner.schema_type, Some("string".to_string()));
            assert_eq!(inner.ref_path, None);
        },
        SchemaRef::Ref(_) => panic!("unexpected reference"),
    }
}

#[test]
fn sequence_of_text_is_an_array() {
    let ty = TypeDescriptor::Sequence(Box::new(TypeDescriptor::Primitive(PrimitiveKind::Text)));
    let mut registry = Registry::new();
    let result = openapi_schema::generate_schema(&ty, &mut registry).unwrap();
    match result {
        SchemaRef::Object(s) => {
            assert_eq!(s.schema_type, Some("array".to_string()));
            assert_eq!(s.items.unwrap().schema_type, Some("string".to_string()));
        },
        SchemaRef::Ref(_) => panic!("unexpected reference"),
    }
}

#[test]
fn primitive_table_exact_values() {
    let cases: Vec<(PrimitiveKind, Option<&str>, Option<&str>, Option<i64>)> = vec![
        (PrimitiveKind::Text, Some("string"), None, None),
        (PrimitiveKind::Int64, Some("integer"), Some("int64"), None),
        (PrimitiveKind::UInt64, Some("integer"), Some("int64"), Some(0)),
        (PrimitiveKind::Int32, Some("integer"), Some("int32"), None),
        (PrimitiveKind::UInt32, Some("integer"), Some("int32"), Some(0)),
        (PrimitiveKind::UInt16, Some("integer"), Some("int32"), Some(0)),
        (PrimitiveKind::IndexSigned, Some("integer"), None, None),
        (PrimitiveKind::IndexUnsigned, Some("integer"), None, Some(0)),
        (PrimitiveKind::Float, Some("number"), Some("float"), None),
        (PrimitiveKind::Boolean, Some("boolean"), None, None),
    ];
    for (kind, ty, format, minimum) in cases {
        let mut registry = Registry::new();
        let result =
            openapi_schema::generate_schema(&TypeDescriptor::Primitive(kind), &mut registry)
                .unwrap();
        match result {
            SchemaRef::Object(s) => {
                assert_eq!(s.schema_type.as_deref(), ty);
                assert_eq!(s.format.as_deref(), format);
                assert_eq!(s.minimum, minimum);
            },
            SchemaRef::Ref(_) => panic!("unexpected reference"),
        }
        assert_eq!(registry.len(), 0);
    }
}

#[test]
fn date_kinds_exact_values() {
    let mut registry = Registry::new();
    match openapi_schema::generate_schema(
        &TypeDescriptor::ExternalDate(DateKind::Date),
        &mut registry,
    )
    .unwrap()
    {
        SchemaRef::Object(s) => {
            assert_eq!(s.schema_type, Some("string".to_string()));
            assert_eq!(s.format, Some("date".to_string()));
        },
        SchemaRef::Ref(_) => panic!("unexpected reference"),
    }
    match openapi_schema::generate_schema(
        &TypeDescriptor::ExternalDate(DateKind::DateTime),
        &mut registry,
    )
    .unwrap()
    {
        SchemaRef::Object(s) => {
            assert_eq!(s.format, Some("date-time".to_string()));
        },
        SchemaRef::Ref(_) => panic!("unexpected reference"),
    }
}

#[test]
fn flatten_of_non_record_is_an_error() {
    let rec = prp_record(
        "Broken",
        "",
        vec![FieldDescriptor {
            name: "flat".to_string(),
            doc: String::new(),
            ty: TypeDescriptor::Primitive(PrimitiveKind::UInt64),
            flatten: true,
        }],
    );
    let mut registry = Registry::new();
    let err = openapi_schema::generate_schema(&rec, &mut registry).unwrap_err();
    match err {
        BuildError::FlattenUnsupported(name) => assert_eq!(name, "flat"),
    }
}

#[test]
fn flatten_of_enum_contributes_nothing() {
    let status = TypeDescriptor::Enumeration(openapi_schema::EnumDescriptor {
        name: "Status".to_string(),
        doc: String::new(),
        variants: vec![openapi_schema::VariantDescriptor {
            name: "Available".to_string(),
            doc: String::new(),
        }],
    });
    let rec = prp_record(
        "Holder",
        "",
        vec![
            prp_field("outer", TypeDescriptor::Primitive(PrimitiveKind::UInt64)),
            FieldDescriptor {
                name: "flat".to_string(),
                doc: String::new(),
                ty: status,
                flatten: true,
            },
        ],
    );
    let mut registry = Registry::new();
    openapi_schema::generate_schema(&rec, &mut registry).unwrap();
    assert!(registry.has("Holder"));
    assert!(!registry.has("Status"));
    let schema = registry.get("Holder").unwrap();
    let props = schema.properties.as_ref().unwrap();
    assert_eq!(props.len(), 1);
    assert_eq!(props[0].0, "outer");
}

#[test]
fn empty_record_collapses_maps() {
    let rec = prp_record("Empty", "", vec![]);
    let mut registry = Registry::new();
    openapi_schema::generate_schema(&rec, &mut registry).unwrap();
    let schema = registry.get("Empty").unwrap();
    assert_eq!(schema.schema_type, Some("object".to_string()));
    assert_eq!(schema.properties, None);
    assert_eq!(schema.required, None);
}

#[test]
fn reference_path_format() {
    assert_eq!(Registry::reference_path("Pet"), "#/components/schemas/Pet");
}

#[test]
fn reference_property_carries_no_description() {
    // A field resolved to a reference stays a bare `$ref`: the field's doc
    // text cannot be attached beside it.
    let inner = prp_record(
        "Inner",
        "",
        vec![prp_field("x", TypeDescriptor::Primitive(PrimitiveKind::Int64))],
    );
    let outer = TypeDescriptor::Record(RecordDescriptor {
        name: "Outer".to_string(),
        doc: String::new(),
        fields: vec![FieldDescriptor {
            name: "inner".to_string(),
            doc: "documented field".to_string(),
            ty: inner,
            flatten: false,
        }],
    });
    let mut registry = Registry::new();
    openapi_schema::generate_schema(&outer, &mut registry).unwrap();
    let schema = registry.get("Outer").unwrap();
    let props = schema.properties.as_ref().unwrap();
    assert_eq!(props[0].1.ref_path, Some("#/components/schemas/Inner".to_string()));
    assert_eq!(props[0].1.description, None);
}
