//! Generation of OpenAPI 3.0 Schema Objects from explicit type
//! descriptors: records with named fields and trivial enumerations become
//! entries of a shared, deduplicated schema registry, and callers receive
//! `$ref` paths into it.
pub mod descriptor;
pub mod generate;
pub mod laws;
pub mod registry;
pub mod schema;
pub mod serializer;
pub mod text;

pub use descriptor::DateKind;
pub use descriptor::EnumDescriptor;
pub use descriptor::FieldDescriptor;
pub use descriptor::PrimitiveKind;
pub use descriptor::RecordDescriptor;
pub use descriptor::TypeDescriptor;
pub use descriptor::VariantDescriptor;
pub use generate::BuildError;
pub use generate::generate_schema;
pub use registry::Registry;
pub use schema::SchemaObject;
pub use schema::SchemaRef;
pub use serializer::Error;
pub use serializer::SchemaSerializer;
pub use serializer::Struct;
