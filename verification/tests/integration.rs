use openapi_schema::{
    DateKind, FieldDescriptor, PrimitiveKind, RecordDescriptor, Registry, SchemaObject,
    TypeDescriptor,
};

fn integ_field(name: &str, ty: TypeDescriptor) -> FieldDescriptor {
    FieldDescriptor { name: name.to_string(), doc: String::new(), ty, flatten: false }
}

fn integ_record(name: &str, fields: Vec<FieldDescriptor>) -> TypeDescriptor {
    TypeDescriptor::Record(RecordDescriptor {
        name: name.to_string(),
        doc: String::new(),
        fields,
    })
}

fn integ_prop<'a>(schema: &'a SchemaObject, key: &str) -> Option<&'a SchemaObject> {
    schema.properties.as_ref().and_then(|props| {
        props.iter().find(|(name, _)| name == key).map(|(_, value)| value)
    })
}

fn integ_flatten_input() -> TypeDescriptor {
    let a = integ_record(
        "A",
        vec![integ_field("primitive_field", TypeDescriptor::Primitive(PrimitiveKind::UInt64))],
    );
    let b = integ_record("B", vec![integ_field("inner", a)]);
    integ_record(
        "C",
        vec![
            integ_field("outer", TypeDescriptor::Primitive(PrimitiveKind::UInt64)),
            FieldDescriptor {
                name: "flatten".to_string(),
                doc: String::new(),
                ty: b,
                flatten: true,
            },
        ],
    )
}

fn integ_check_flatten(registry: &Registry) {
    assert!(registry.has("A"));
    assert!(!registry.has("B"));

    let c = match registry.get("C") {
        Some(c) => c,
        None => panic!("unexpected reference"),
    };

    let properties = c.properties.as_ref().unwrap();
    assert!(properties.iter().any(|(name, _)| name == "outer"));
    assert!(properties.iter().any(|(name, _)| name == "inner"));
    assert!(!properties.iter().any(|(name, _)| name == "flatten"));
    assert!(!properties.iter().any(|(name, _)| name == "primitive_field"));
}

#[test]
fn test_datetime() {
    let container = integ_record(
        "DatesContainer",
        vec![
            integ_field("date", TypeDescriptor::ExternalDate(DateKind::Date)),
            integ_field("date_time", TypeDescriptor::ExternalDate(DateKind::DateTime)),
        ],
    );

    let mut registry = Registry::new();
    openapi_schema::generate_schema(&container, &mut registry).unwrap();

    assert!(registry.has("DatesContainer"));

    let c = match registry.get("DatesContainer") {
        Some(c) => c,
        None => panic!("unexpected reference"),
    };

    assert_eq!(
        c.required,
        Some(vec![String::from("date"), String::from("date_time")])
    );

    let d = integ_prop(c, "date").unwrap();
    assert_eq!(d.schema_type, Some("string".to_owned()));
    assert_eq!(d.format, Some("date".to_owned()));

    let dt = integ_prop(c, "date_time").unwrap();
    assert_eq!(dt.schema_type, Some("string".to_owned()));
    assert_eq!(dt.format, Some("date-time".to_owned()));
}

#[test]
fn test_flatten() {
    let mut registry = Registry::new();
    openapi_schema::generate_schema(&integ_flatten_input(), &mut registry).unwrap();
    integ_check_flatten(&registry);
}

#[test]
fn test_flatten_nested_module() {
    // The record named by a flattened field may be declared anywhere; only
    // its descriptor matters.
    let mut registry = Registry::new();
    openapi_schema::generate_schema(&integ_flatten_input(), &mut registry).unwrap();
    integ_check_flatten(&registry);
}

#[test]
fn test_btreemap() {
    let b = integ_record(
        "B",
        vec![integ_field("val", TypeDescriptor::Primitive(PrimitiveKind::Text))],
    );
    let a = integ_record(
        "A",
        vec![
            integ_field(
                "map_with_raw_type",
                TypeDescriptor::Mapping(Box::new(TypeDescriptor::Primitive(PrimitiveKind::Text))),
            ),
            integ_field("map_with_complex_type", TypeDescriptor::Mapping(Box::new(b))),
        ],
    );

    let mut registry = Registry::new();
    openapi_schema::generate_schema(&a, &mut registry).unwrap();

    assert!(registry.has("A"));
    assert!(registry.has("B"));

    let a_schema = match registry.get("A") {
        Some(a_schema) => a_schema,
        None => panic!("unexpected reference"),
    };

    let ct = integ_prop(a_schema, "map_with_complex_type").unwrap();
    assert_eq!(ct.schema_type, Some("object".to_owned()));
    let ct_inner = ct.additional_properties.as_ref().unwrap();
    assert_eq!(ct_inner.ref_path, Some("#/components/schemas/B".to_owned()));
    assert_eq!(ct_inner.schema_type, None);

    let rt = integ_prop(a_schema, "map_with_raw_type").unwrap();
    assert_eq!(rt.schema_type, Some("object".to_owned()));
    let rt_inner = rt.additional_properties.as_ref().unwrap();
    assert_eq!(rt_inner.schema_type, Some("string".to_owned()));
    assert_eq!(rt_inner.ref_path, None);
}
