use openapi_schema::{
    EnumDescriptor, FieldDescriptor, PrimitiveKind, RecordDescriptor, Registry, SchemaObject,
    TypeDescriptor, VariantDescriptor,
};

fn pet_field(name: &str, ty: TypeDescriptor) -> FieldDescriptor {
    FieldDescriptor { name: name.to_string(), doc: String::new(), ty, flatten: false }
}

fn pet_opt(ty: TypeDescriptor) -> TypeDescriptor {
    TypeDescriptor::Optional(Box::new(ty))
}

fn pet_prim(kind: PrimitiveKind) -> TypeDescriptor {
    TypeDescriptor::Primitive(kind)
}

fn pet_record(name: &str, doc: &str, fields: Vec<FieldDescriptor>) -> TypeDescriptor {
    TypeDescriptor::Record(RecordDescriptor {
        name: name.to_string(),
        doc: doc.to_string(),
        fields,
    })
}

fn pet_prop<'a>(schema: &'a SchemaObject, key: &str) -> Option<&'a SchemaObject> {
    schema.properties.as_ref().and_then(|props| {
        props.iter().find(|(name, _)| name == key).map(|(_, value)| value)
    })
}

fn pet_tag_descriptor() -> TypeDescriptor {
    pet_record(
        "Tag",
        "A tag for a pet",
        vec![
            pet_field("id", pet_opt(pet_prim(PrimitiveKind::Int64))),
            pet_field("name", pet_opt(pet_prim(PrimitiveKind::Text))),
        ],
    )
}

fn pet_status_descriptor() -> TypeDescriptor {
    TypeDescriptor::Enumeration(EnumDescriptor {
        name: "Status".to_string(),
        doc: "Pet status in the store".to_string(),
        variants: vec![
            VariantDescriptor { name: "Available".to_string(), doc: String::new() },
            VariantDescriptor { name: "Pending".to_string(), doc: String::new() },
            VariantDescriptor { name: "Sold".to_string(), doc: String::new() },
        ],
    })
}

#[test]
fn test_tag_derive() {
    let mut registry = Registry::new();
    openapi_schema::generate_schema(&pet_tag_descriptor(), &mut registry).unwrap();

    let tag = match registry.get("Tag") {
        Some(tag) => tag,
        None => panic!("unexpected reference"),
    };

    assert_eq!(tag.title, None);
    assert_eq!(tag.description, Some("A tag for a pet".into()));

    let id = pet_prop(tag, "id").unwrap();
    assert_eq!(id.schema_type, Some("integer".into()));
    assert_eq!(id.format, Some("int64".into()));

    let name = pet_prop(tag, "name").unwrap();
    assert_eq!(name.schema_type, Some("string".into()));

    assert_eq!(tag.required, None);
}

#[test]
fn test_status_derive() {
    let mut registry = Registry::new();
    openapi_schema::generate_schema(&pet_status_descriptor(), &mut registry).unwrap();

    let status = match registry.get("Status") {
        Some(status) => status,
        None => panic!("unexpected reference"),
    };

    assert_eq!(status.description, Some("Pet status in the store".into()));
    assert_eq!(status.schema_type, Some("string".into()));
    assert_eq!(
        status.enum_values,
        Some(vec!["Available".into(), "Pending".into(), "Sold".into()])
    );
}

#[test]
fn test_pet_derive() {
    let category = pet_record(
        "Category",
        "A category for a pet",
        vec![
            pet_field("id", pet_opt(pet_prim(PrimitiveKind::Int64))),
            pet_field("name", pet_opt(pet_prim(PrimitiveKind::Text))),
        ],
    );
    let pet = pet_record(
        "Pet",
        "A pet for sale in the pet store",
        vec![
            pet_field("id", pet_opt(pet_prim(PrimitiveKind::Int64))),
            pet_field("category", pet_opt(category)),
            pet_field("name", pet_prim(PrimitiveKind::Text)),
            pet_field(
                "photo_urls",
                TypeDescriptor::Sequence(Box::new(pet_prim(PrimitiveKind::Text))),
            ),
            pet_field(
                "tags",
                pet_opt(TypeDescriptor::Sequence(Box::new(pet_tag_descriptor()))),
            ),
            pet_field("status", pet_opt(pet_status_descriptor())),
        ],
    );

    let mut registry = Registry::new();
    openapi_schema::generate_schema(&pet, &mut registry).unwrap();

    assert!(registry.has("Pet"));
    assert!(registry.has("Category"));
    assert!(registry.has("Tag"));
    assert!(registry.has("Status"));

    let pet_schema = match registry.get("Pet") {
        Some(pet_schema) => pet_schema,
        None => panic!("unexpected reference"),
    };

    assert_eq!(
        pet_schema.required,
        Some(vec![String::from("name"), String::from("photo_urls")])
    );
}

#[test]
fn test_attr_doc() {
    let user = TypeDescriptor::Record(RecordDescriptor {
        name: "User".to_string(),
        doc: "a User\n\nA User who is purchasing from the pet store".to_string(),
        fields: vec![
            pet_field("id", pet_opt(pet_prim(PrimitiveKind::Int64))),
            pet_field("username", pet_opt(pet_prim(PrimitiveKind::Text))),
            pet_field("first_name", pet_opt(pet_prim(PrimitiveKind::Text))),
            pet_field("last_name", pet_opt(pet_prim(PrimitiveKind::Text))),
            pet_field("email", pet_opt(pet_prim(PrimitiveKind::Text))),
            pet_field("password", pet_opt(pet_prim(PrimitiveKind::Text))),
            pet_field("phone", pet_opt(pet_prim(PrimitiveKind::Text))),
            FieldDescriptor {
                name: "user_status".to_string(),
                doc: "User Status".to_string(),
                ty: pet_opt(pet_prim(PrimitiveKind::Int32)),
                flatten: false,
            },
        ],
    });

    let mut registry = Registry::new();
    openapi_schema::generate_schema(&user, &mut registry).unwrap();

    assert!(registry.has("User"));

    let user_schema = match registry.get("User") {
        Some(user_schema) => user_schema,
        None => panic!("unexpected reference"),
    };

    let property = pet_prop(user_schema, "user_status").unwrap();
    assert_eq!(property.description, Some(String::from("User Status")));
}
