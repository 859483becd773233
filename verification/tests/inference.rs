use openapi_schema::{Error, SchemaSerializer};

#[test]
fn test_flat_struct_schema() {
    let serializer = SchemaSerializer::default();
    let mut st = serializer.serialize_struct("Tag", 2).unwrap();
    st.serialize_field("id");
    st.serialize_field("name");
    let schemas = st.end().unwrap();
    assert_eq!(schemas.len(), 1);
    assert!(schemas.has("Tag"));
}

#[test]
fn inference_rejects_non_record() {
    let result = SchemaSerializer::default().serialize_bool(true);
    let err = result.unwrap_err();
    assert!(matches!(err, Error::ExpectedStruct));
    assert_eq!(err.description(), "expected struct");
}

#[test]
fn inference_rejects_scalars_and_containers() {
    assert!(SchemaSerializer::default().serialize_i64(7).is_err());
    assert!(SchemaSerializer::default().serialize_u32(7).is_err());
    assert!(SchemaSerializer::default().serialize_str("x").is_err());
    assert!(SchemaSerializer::default().serialize_none().is_err());
    assert!(SchemaSerializer::default().serialize_unit().is_err());
    assert!(SchemaSerializer::default().serialize_seq(Some(3)).is_err());
    assert!(SchemaSerializer::default().serialize_map(None).is_err());
    assert!(SchemaSerializer::default()
        .serialize_unit_variant("Status", 0, "Available")
        .is_err());
}

#[test]
fn inference_custom_error_keeps_message() {
    let err = Error::custom("boom".to_string());
    assert_eq!(err.description(), "boom");
}

#[test]
fn inference_tuple_struct_accepted() {
    let serializer = SchemaSerializer::default();
    let st = serializer.serialize_tuple_struct("Pair", 2).unwrap();
    let schemas = st.end().unwrap();
    assert_eq!(schemas.len(), 1);
    assert!(schemas.has("Pair"));
}
