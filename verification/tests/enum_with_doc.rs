use openapi_schema::{EnumDescriptor, Registry, TypeDescriptor, VariantDescriptor};

fn ed_variant(name: &str, doc: &str) -> VariantDescriptor {
    VariantDescriptor { name: name.to_string(), doc: doc.to_string() }
}

fn ed_enum(doc: &str, variants: Vec<VariantDescriptor>) -> TypeDescriptor {
    TypeDescriptor::Enumeration(EnumDescriptor {
        name: "Status".to_string(),
        doc: doc.to_string(),
        variants,
    })
}

#[test]
fn test_enum_with_doc() {
    let status = ed_enum(
        "Pet status in the store",
        vec![
            ed_variant("Available", ""),
            ed_variant("Pending", ""),
            ed_variant("Sold", "Already sold"),
        ],
    );
    let mut registry = Registry::new();
    openapi_schema::generate_schema(&status, &mut registry).unwrap();

    let schema = match registry.get("Status") {
        Some(schema) => schema,
        None => panic!("unexpected reference"),
    };

    assert_eq!(
        schema.description,
        Some(
            r#"Pet status in the store
* Sold: Already sold"#
                .to_owned()
        )
    );
    assert_eq!(schema.schema_type, Some("string".to_owned()));
    assert_eq!(
        schema.enum_values,
        Some(vec![
            "Available".to_owned(),
            "Pending".to_owned(),
            "Sold".to_owned()
        ])
    );
}

#[test]
fn test_enum_without_doc() {
    let status = ed_enum(
        "",
        vec![
            ed_variant("Available", "some clever comment"),
            ed_variant("Pending", ""),
            ed_variant("Sold", "Already sold"),
        ],
    );
    let mut registry = Registry::new();
    openapi_schema::generate_schema(&status, &mut registry).unwrap();

    let schema = match registry.get("Status") {
        Some(schema) => schema,
        None => panic!("unexpected reference"),
    };

    assert_eq!(
        schema.description,
        Some(
            r#"
* Available: some clever comment
* Sold: Already sold"#
                .to_owned()
        )
    );
    assert_eq!(schema.schema_type, Some("string".to_owned()));
    assert_eq!(
        schema.enum_values,
        Some(vec![
            "Available".to_owned(),
            "Pending".to_owned(),
            "Sold".to_owned()
        ])
    );
}

#[test]
fn test_enum_fail() {
    // A variant carrying data has no descriptor shape: only its bare name
    // takes part, so `Available` contributes no documentation here.
    let status = ed_enum(
        "",
        vec![
            ed_variant("Available", ""),
            ed_variant("Pending", ""),
            ed_variant("Sold", "Already sold"),
        ],
    );
    let mut registry = Registry::new();
    openapi_schema::generate_schema(&status, &mut registry).unwrap();

    let schema = match registry.get("Status") {
        Some(schema) => schema,
        None => panic!("unexpected reference"),
    };

    assert_eq!(
        schema.description,
        Some(
            r#"
* Sold: Already sold"#
                .to_owned()
        )
    );
    assert_eq!(schema.schema_type, Some("string".to_owned()));
    assert_eq!(
        schema.enum_values,
        Some(vec![
            "Available".to_owned(),
            "Pending".to_owned(),
            "Sold".to_owned()
        ])
    );
}
