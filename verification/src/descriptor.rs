//! Type descriptors: the structural description of a data type that the
//! schema generator walks.
//!
//! A descriptor is an explicit value; however a project obtains it
//! (code generation, reflection, hand-written tables), the generator is
//! indifferent.  Doc text arrives as one string per type, field or
//! variant: the documentation lines joined with `'\n'`, each line already
//! trimmed.
use vstd::prelude::*;

verus! {

/// A scalar kind with a fixed schema in the adapter table.
#[derive(Clone, Copy, PartialEq, Eq, Structural, Debug)]
pub enum PrimitiveKind {
    /// Text: `string`.
    Text,
    /// 64-bit signed integer: `integer` / `int64`.
    Int64,
    /// 64-bit unsigned integer: `integer` / `int64`, minimum 0.
    UInt64,
    /// 32-bit signed integer: `integer` / `int32`.
    Int32,
    /// 32-bit unsigned integer: `integer` / `int32`, minimum 0.
    UInt32,
    /// 16-bit unsigned integer: `integer` / `int32`, minimum 0.
    UInt16,
    /// Platform-sized signed index: `integer`, no format.
    IndexSigned,
    /// Platform-sized unsigned index: `integer`, minimum 0.
    IndexUnsigned,
    /// 32- or 64-bit floating point: `number` / `float`.
    Float,
    /// Boolean: `boolean`.
    Boolean,
}

/// A calendar kind supplied by an external date library.
#[derive(Clone, Copy, PartialEq, Eq, Structural, Debug)]
pub enum DateKind {
    /// A calendar date: `string` / `date`.
    Date,
    /// A date with time: `string` / `date-time`.
    DateTime,
}

/// The shape of a describable type.
pub enum TypeDescriptor {
    Primitive(PrimitiveKind),
    /// A value that may be absent.  Transparent to generation; it affects
    /// only the required-ness of the field that holds it.
    Optional(Box<TypeDescriptor>),
    /// A homogeneous list: `array` with `items`.
    Sequence(Box<TypeDescriptor>),
    /// An associative map with textual keys: `object` with
    /// `additionalProperties` for the value type.
    Mapping(Box<TypeDescriptor>),
    /// A named record with fields.
    Record(RecordDescriptor),
    /// A named enumeration of bare variants.
    Enumeration(EnumDescriptor),
    ExternalDate(DateKind),
}

/// A named record and its fields, in declaration order.
pub struct RecordDescriptor {
    pub name: String,
    pub doc: String,
    pub fields: Vec<FieldDescriptor>,
}

/// One field of a record.
pub struct FieldDescriptor {
    pub name: String,
    pub doc: String,
    pub ty: TypeDescriptor,
    /// Merge the field's record type into the containing record instead of
    /// nesting it under the field name.
    pub flatten: bool,
}

/// A named enumeration and its variants, in declaration order.
pub struct EnumDescriptor {
    pub name: String,
    pub doc: String,
    pub variants: Vec<VariantDescriptor>,
}

/// One bare variant of an enumeration.  Variants carrying data have no
/// descriptor: such shapes are rejected at the input boundary.
pub struct VariantDescriptor {
    pub name: String,
    pub doc: String,
}

/// The model of a type descriptor.
#[verifier::ext_equal]
pub ghost enum TypeModel {
    Primitive(PrimitiveKind),
    Optional(Box<TypeModel>),
    Sequence(Box<TypeModel>),
    Mapping(Box<TypeModel>),
    Record(RecordModel),
    Enumeration(EnumModel),
    ExternalDate(DateKind),
}

#[verifier::ext_equal]
pub ghost struct RecordModel {
    pub name: Seq<char>,
    pub doc: Seq<char>,
    pub fields: Seq<FieldModel>,
}

#[verifier::ext_equal]
pub ghost struct FieldModel {
    pub name: Seq<char>,
    pub doc: Seq<char>,
    pub ty: TypeModel,
    pub flatten: bool,
}

#[verifier::ext_equal]
pub ghost struct EnumModel {
    pub name: Seq<char>,
    pub doc: Seq<char>,
    pub variants: Seq<VariantModel>,
}

#[verifier::ext_equal]
pub ghost struct VariantModel {
    pub name: Seq<char>,
    pub doc: Seq<char>,
}

pub open spec fn fields_model(fs: Seq<FieldDescriptor>) -> Seq<FieldModel>
    decreases fs,
{
    if fs.len() == 0 {
        Seq::empty()
    } else {
        fields_model(fs.drop_last()).push(fs.last()@)
    }
}

pub open spec fn variants_model(vs: Seq<VariantDescriptor>) -> Seq<VariantModel>
    decreases vs,
{
    if vs.len() == 0 {
        Seq::empty()
    } else {
        variants_model(vs.drop_last()).push(vs.last()@)
    }
}

impl View for TypeDescriptor {
    type V = TypeModel;

    open spec fn view(&self) -> TypeModel
        decreases self,
    {
        match *self {
            TypeDescriptor::Primitive(k) => TypeModel::Primitive(k),
            TypeDescriptor::Optional(ref inner) => TypeModel::Optional(Box::new((**inner)@)),
            TypeDescriptor::Sequence(ref inner) => TypeModel::Sequence(Box::new((**inner)@)),
            TypeDescriptor::Mapping(ref inner) => TypeModel::Mapping(Box::new((**inner)@)),
            TypeDescriptor::Record(ref rd) => TypeModel::Record(rd@),
            TypeDescriptor::Enumeration(ref ed) => TypeModel::Enumeration(ed@),
            TypeDescriptor::ExternalDate(k) => TypeModel::ExternalDate(k),
        }
    }
}

impl View for RecordDescriptor {
    type V = RecordModel;

    open spec fn view(&self) -> RecordModel
        decreases self,
    {
        RecordModel { name: self.name@, doc: self.doc@, fields: fields_model(self.fields@) }
    }
}

impl View for FieldDescriptor {
    type V = FieldModel;

    open spec fn view(&self) -> FieldModel
        decreases self,
    {
        FieldModel { name: self.name@, doc: self.doc@, ty: self.ty@, flatten: self.flatten }
    }
}

impl View for EnumDescriptor {
    type V = EnumModel;

    open spec fn view(&self) -> EnumModel {
        EnumModel { name: self.name@, doc: self.doc@, variants: variants_model(self.variants@) }
    }
}

impl View for VariantDescriptor {
    type V = VariantModel;

    open spec fn view(&self) -> VariantModel {
        VariantModel { name: self.name@, doc: self.doc@ }
    }
}

/// A field is optional exactly when its declared type is the `Optional`
/// wrapper: a structural check on the type shape.
pub open spec fn spec_is_optional(ty: TypeModel) -> bool {
    ty is Optional
}

impl TypeDescriptor {
    /// Whether a field of this type is left out of `required`.
    pub fn is_optional(&self) -> (r: bool)
        ensures
            r == spec_is_optional(self@),
    {
        match *self {
            TypeDescriptor::Optional(_) => true,
            _ => false,
        }
    }
}

pub broadcast proof fn lemma_fields_model_len(fs: Seq<FieldDescriptor>)
    ensures
        (#[trigger] fields_model(fs)).len() == fs.len(),
    decreases fs,
{
    if fs.len() > 0 {
        lemma_fields_model_len(fs.drop_last());
        assert(fields_model(fs) == fields_model(fs.drop_last()).push(fs.last()@));
        assert(fields_model(fs).len() == fields_model(fs.drop_last()).len() + 1);
    }
}

pub broadcast proof fn lemma_fields_model_index(fs: Seq<FieldDescriptor>, i: int)
    requires
        0 <= i < fs.len(),
    ensures
        #[trigger] fields_model(fs)[i] == fs[i]@,
    decreases fs,
{
    lemma_fields_model_len(fs);
    lemma_fields_model_len(fs.drop_last());
    assert(fields_model(fs) == fields_model(fs.drop_last()).push(fs.last()@));
    if i < fs.len() - 1 {
        lemma_fields_model_index(fs.drop_last(), i);
        assert(fs.drop_last()[i] == fs[i]);
    } else {
        assert(fs.last() == fs[i]);
    }
}

pub broadcast proof fn lemma_variants_model_len(vs: Seq<VariantDescriptor>)
    ensures
        (#[trigger] variants_model(vs)).len() == vs.len(),
    decreases vs,
{
    if vs.len() > 0 {
        lemma_variants_model_len(vs.drop_last());
    }
}

pub broadcast proof fn lemma_variants_model_index(vs: Seq<VariantDescriptor>, i: int)
    requires
        0 <= i < vs.len(),
    ensures
        #[trigger] variants_model(vs)[i] == vs[i]@,
    decreases vs,
{
    lemma_variants_model_len(vs);
    if vs.len() > 0 {
        if i < vs.len() - 1 {
            lemma_variants_model_index(vs.drop_last(), i);
        } else {
            lemma_variants_model_len(vs.drop_last());
        }
    }
}

} // verus!
