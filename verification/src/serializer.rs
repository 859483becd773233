//! Schema inference from a serialized example value: the weaker
//! alternative to descriptor-based generation.  It only detects that the
//! top level is a record and registers the record's name with an empty
//! schema; nested shapes, field types, required sets and flattening are
//! deliberately out of its reach.  Anything but a record at the top
//! level is rejected.
//!
//! The functions here are the decisions of that path; the plumbing that
//! drives them from a serialization framework lives outside the
//! verified library.
use vstd::prelude::*;

verus! {

use crate::registry::Registry;
use crate::registry::assoc_has;
use crate::schema::SchemaModel;
use crate::schema::SchemaObject;
use crate::schema::empty_model;

/// Why inference rejected a value.
#[derive(Debug, Clone)]
pub enum Error {
    Message(String),
    ExpectedStruct,
}

#[verifier::ext_equal]
pub ghost enum ErrorModel {
    Message(Seq<char>),
    ExpectedStruct,
}

impl View for Error {
    type V = ErrorModel;

    open spec fn view(&self) -> ErrorModel {
        match *self {
            Error::Message(ref m) => ErrorModel::Message(m@),
            Error::ExpectedStruct => ErrorModel::ExpectedStruct,
        }
    }
}

impl Error {
    /// The error's text.
    pub fn description(&self) -> (r: &str)
        ensures
            match self@ {
                ErrorModel::Message(m) => r@ == m,
                ErrorModel::ExpectedStruct => r@ == "expected struct"@,
            },
    {
        match self {
            Error::Message(m) => m.as_str(),
            Error::ExpectedStruct => "expected struct",
        }
    }

    /// An error from a message of the serialization framework.
    pub fn custom(msg: String) -> (r: Error)
        ensures
            r@ == ErrorModel::Message(msg@),
    {
        Error::Message(msg)
    }
}

/// The inference serializer: it carries the schemas collected so far and
/// classifies the top-level shape of one value.
pub struct SchemaSerializer(Registry);

impl View for SchemaSerializer {
    type V = Seq<(Seq<char>, SchemaModel)>;

    closed spec fn view(&self) -> Seq<(Seq<char>, SchemaModel)> {
        self.0@
    }
}

/// What `Struct::end` leaves in the registry: the record's name with an
/// empty schema, unless the name was already present.
pub open spec fn end_model(m: StructModel) -> Seq<(Seq<char>, SchemaModel)> {
    match m.pending {
        Some(s) => if !assoc_has(m.schemas, m.name) {
            m.schemas.push((m.name, s))
        } else {
            m.schemas
        },
        None => m.schemas,
    }
}

/// The model of an in-flight record: the name, the schemas carried
/// through, and the schema to register at the end, if the name is new.
#[verifier::ext_equal]
pub ghost struct StructModel {
    pub name: Seq<char>,
    pub schemas: Seq<(Seq<char>, SchemaModel)>,
    pub pending: Option<SchemaModel>,
}

/// A record in flight: fields contribute nothing, the name decides.
pub struct Struct {
    name: String,
    schemas: Registry,
    new_schema: Option<SchemaObject>,
}

impl View for Struct {
    type V = StructModel;

    closed spec fn view(&self) -> StructModel {
        StructModel {
            name: self.name@,
            schemas: self.schemas@,
            pending: match self.new_schema {
                Some(ref s) => Some(s@),
                None => None,
            },
        }
    }
}

impl Struct {
    fn new(name: &str, schemas: Registry) -> (r: Struct)
        ensures
            r@.name == name@,
            r@.schemas == schemas@,
            r@.pending == if assoc_has(schemas@, name@) {
                Option::<SchemaModel>::None
            } else {
                Option::<SchemaModel>::Some(empty_model())
            },
    {
        let new_schema = if !schemas.has(name) {
            Some(SchemaObject::empty())
        } else {
            None
        };
        Struct { name: name.to_owned(), schemas, new_schema }
    }

    /// A field of the record: inference learns nothing from it.
    pub fn serialize_field(&mut self, _key: &str)
        ensures
            final(self)@ == old(self)@,
    {
    }

    /// Close the record: register its name, if new, with an empty schema.
    pub fn end(self) -> (r: Result<Registry, Error>)
        ensures
            r matches Ok(schemas) && schemas@ == end_model(self@),
    {
        let Struct { name, mut schemas, new_schema } = self;
        match new_schema {
            Some(s) => {
                if !schemas.has(name.as_str()) {
                    schemas.insert(name, s);
                }
            },
            None => {},
        }
        Ok(schemas)
    }
}

impl Default for SchemaSerializer {
    /// An inference serializer with no schema collected yet.
    fn default() -> (r: SchemaSerializer)
        ensures
            r@ == Seq::<(Seq<char>, SchemaModel)>::empty(),
    {
        SchemaSerializer(Registry::new())
    }
}

impl SchemaSerializer {
    /// A record at the top level: accepted, its name decides.
    pub fn serialize_struct(self, name: &str, _len: usize) -> (r: Result<Struct, Error>)
        ensures
            r matches Ok(st) && st@.name == name@ && st@.schemas == self@ && st@.pending
                == if assoc_has(self@, name@) {
                Option::<SchemaModel>::None
            } else {
                Option::<SchemaModel>::Some(empty_model())
            },
    {
        Ok(Struct::new(name, self.0))
    }

    /// A tuple record at the top level: accepted like a named record.
    pub fn serialize_tuple_struct(self, name: &str, _len: usize) -> (r: Result<Struct, Error>)
        ensures
            r matches Ok(st) && st@.name == name@ && st@.schemas == self@ && st@.pending
                == if assoc_has(self@, name@) {
                Option::<SchemaModel>::None
            } else {
                Option::<SchemaModel>::Some(empty_model())
            },
    {
        Ok(Struct::new(name, self.0))
    }

    /// A bare boolean at the top level: not a record.
    pub fn serialize_bool(self, _v: bool) -> (r: Result<Registry, Error>)
        ensures
            r matches Err(e) && e@ == ErrorModel::ExpectedStruct,
    {
        Err(Error::ExpectedStruct)
    }

    /// A bare integer at the top level: not a record.
    pub fn serialize_i8(self, _v: i8) -> (r: Result<Registry, Error>)
        ensures
            r matches Err(e) && e@ == ErrorModel::ExpectedStruct,
    {
        Err(Error::ExpectedStruct)
    }

    /// A bare integer at the top level: not a record.
    pub fn serialize_i16(self, _v: i16) -> (r: Result<Registry, Error>)
        ensures
            r matches Err(e) && e@ == ErrorModel::ExpectedStruct,
    {
        Err(Error::ExpectedStruct)
    }

    /// A bare integer at the top level: not a record.
    pub fn serialize_i32(self, _v: i32) -> (r: Result<Registry, Error>)
        ensures
            r matches Err(e) && e@ == ErrorModel::ExpectedStruct,
    {
        Err(Error::ExpectedStruct)
    }

    /// A bare integer at the top level: not a record.
    pub fn serialize_i64(self, _v: i64) -> (r: Result<Registry, Error>)
        ensures
            r matches Err(e) && e@ == ErrorModel::ExpectedStruct,
    {
        Err(Error::ExpectedStruct)
    }

    /// A bare integer at the top level: not a record.
    pub fn serialize_u8(self, _v: u8) -> (r: Result<Registry, Error>)
        ensures
            r matches Err(e) && e@ == ErrorModel::ExpectedStruct,
    {
        Err(Error::ExpectedStruct)
    }

    /// A bare integer at the top level: not a record.
    pub fn serialize_u16(self, _v: u16) -> (r: Result<Registry, Error>)
        ensures
            r matches Err(e) && e@ == ErrorModel::ExpectedStruct,
    {
        Err(Error::ExpectedStruct)
    }

    /// A bare integer at the top level: not a record.
    pub fn serialize_u32(self, _v: u32) -> (r: Result<Registry, Error>)
        ensures
            r matches Err(e) && e@ == ErrorModel::ExpectedStruct,
    {
        Err(Error::ExpectedStruct)
    }

    /// A bare integer at the top level: not a record.
    pub fn serialize_u64(self, _v: u64) -> (r: Result<Registry, Error>)
        ensures
            r matches Err(e) && e@ == ErrorModel::ExpectedStruct,
    {
        Err(Error::ExpectedStruct)
    }

    /// A bare character at the top level: not a record.
    pub fn serialize_char(self, _v: char) -> (r: Result<Registry, Error>)
        ensures
            r matches Err(e) && e@ == ErrorModel::ExpectedStruct,
    {
        Err(Error::ExpectedStruct)
    }

    /// Bare text at the top level: not a record.
    pub fn serialize_str(self, _v: &str) -> (r: Result<Registry, Error>)
        ensures
            r matches Err(e) && e@ == ErrorModel::ExpectedStruct,
    {
        Err(Error::ExpectedStruct)
    }

    /// Bare bytes at the top level: not a record.
    pub fn serialize_bytes(self, _v: &[u8]) -> (r: Result<Registry, Error>)
        ensures
            r matches Err(e) && e@ == ErrorModel::ExpectedStruct,
    {
        Err(Error::ExpectedStruct)
    }

    /// An absent optional at the top level: not a record.
    pub fn serialize_none(self) -> (r: Result<Registry, Error>)
        ensures
            r matches Err(e) && e@ == ErrorModel::ExpectedStruct,
    {
        Err(Error::ExpectedStruct)
    }

    /// A unit at the top level: not a record.
    pub fn serialize_unit(self) -> (r: Result<Registry, Error>)
        ensures
            r matches Err(e) && e@ == ErrorModel::ExpectedStruct,
    {
        Err(Error::ExpectedStruct)
    }

    /// A bare enumeration variant at the top level: not a record.
    pub fn serialize_unit_variant(
        self,
        _name: &str,
        _variant_index: u32,
        _variant: &str,
    ) -> (r: Result<Registry, Error>)
        ensures
            r matches Err(e) && e@ == ErrorModel::ExpectedStruct,
    {
        Err(Error::ExpectedStruct)
    }

    /// A sequence at the top level: not a record.
    pub fn serialize_seq(self, _len: Option<usize>) -> (r: Result<Registry, Error>)
        ensures
            r matches Err(e) && e@ == ErrorModel::ExpectedStruct,
    {
        Err(Error::ExpectedStruct)
    }

    /// A tuple at the top level: not a record.
    pub fn serialize_tuple(self, _len: usize) -> (r: Result<Registry, Error>)
        ensures
            r matches Err(e) && e@ == ErrorModel::ExpectedStruct,
    {
        Err(Error::ExpectedStruct)
    }

    /// A tuple variant at the top level: not a record.
    pub fn serialize_tuple_variant(
        self,
        _name: &str,
        _variant_index: u32,
        _variant: &str,
        _len: usize,
    ) -> (r: Result<Registry, Error>)
        ensures
            r matches Err(e) && e@ == ErrorModel::ExpectedStruct,
    {
        Err(Error::ExpectedStruct)
    }

    /// A map at the top level: not a record.
    pub fn serialize_map(self, _len: Option<usize>) -> (r: Result<Registry, Error>)
        ensures
            r matches Err(e) && e@ == ErrorModel::ExpectedStruct,
    {
        Err(Error::ExpectedStruct)
    }

    /// A record variant at the top level: not a record.
    pub fn serialize_struct_variant(
        self,
        _name: &str,
        _variant_index: u32,
        _variant: &str,
        _len: usize,
    ) -> (r: Result<Registry, Error>)
        ensures
            r matches Err(e) && e@ == ErrorModel::ExpectedStruct,
    {
        Err(Error::ExpectedStruct)
    }
}

} // verus!
