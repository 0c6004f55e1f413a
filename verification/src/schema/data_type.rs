//! Data types: how they are made of their parts.
use vstd::prelude::*;

use crate::error::{DeltaResult, Error};
use crate::schema::primitive::{DecimalType, PrimitiveType};
use crate::schema::struct_type::checked_struct;
use crate::schema::types::{
    ArrayType, DataType, MapType, Schema, SchemaRef, StructField, StructType,
};
use crate::text::owned;

#[allow(unused_imports)]
use crate::error::ErrorV;
#[allow(unused_imports)]
use crate::schema::primitive::{decimal_error, valid_decimal};
#[allow(unused_imports)]
use crate::schema::struct_type::{
    checked_struct_of_results, field_views, result_view, result_views, struct_of, unchecked_struct,
};
#[allow(unused_imports)]
use crate::schema::types::{ArrayV, FieldV, MapV, StructV, TypeV};

verus! {

/// Whether a result shows a struct type or an error as expected.
pub open spec fn struct_type_result(
    r: DeltaResult<DataType>,
    expected: Result<StructV, ErrorV>,
) -> bool {
    match r {
        Ok(t) => t@ is Struct && expected == Ok::<StructV, ErrorV>(*t@->Struct_0),
        Err(e) => expected == Err::<StructV, ErrorV>(e@),
    }
}

/// The variant type as it is stored without shredding: binary metadata and a binary value.
pub open spec fn unshredded() -> StructV {
    struct_of(
        seq![
            FieldV::plain("metadata"@, TypeV::Primitive(PrimitiveType::Binary), false),
            FieldV::plain("value"@, TypeV::Primitive(PrimitiveType::Binary), false),
        ],
    )
}

/// Fields for a variant type, with an error in the place of each metadata column.
pub open spec fn variant_fields(fields: Seq<FieldV>) -> Seq<Result<FieldV, ErrorV>> {
    Seq::new(
        fields.len(),
        |i: int|
            if fields[i].is_metadata_column() {
                Err(ErrorV::Schema("Metadata columns are not allowed in Variant types"@))
            } else {
                Ok(fields[i])
            },
    )
}

impl ArrayType {
    /// An array of elements of the given type.
    pub fn new(element_type: DataType, contains_null: bool) -> (r: Self)
        ensures
            r@ == (ArrayV { label: "array"@, element: element_type@, contains_null }),
    {
        ArrayType { type_label: owned("array"), element_type, contains_null }
    }

    /// The type of the elements.
    pub fn element_type(&self) -> (r: &DataType)
        ensures
            r@ == self@.element,
    {
        &self.element_type
    }

    /// Whether elements can be null.
    pub fn contains_null(&self) -> (r: bool)
        ensures
            r == self@.contains_null,
    {
        self.contains_null
    }
}

impl MapType {
    /// A map from keys to values of the given types.
    pub fn new(key_type: DataType, value_type: DataType, value_contains_null: bool) -> (r: Self)
        ensures
            r@ == (MapV {
                label: "map"@,
                key: key_type@,
                value: value_type@,
                value_contains_null,
            }),
    {
        MapType { type_label: owned("map"), key_type, value_type, value_contains_null }
    }

    /// The type of the keys.
    pub fn key_type(&self) -> (r: &DataType)
        ensures
            r@ == self@.key,
    {
        &self.key_type
    }

    /// The type of the values.
    pub fn value_type(&self) -> (r: &DataType)
        ensures
            r@ == self@.value,
    {
        &self.value_type
    }

    /// Whether values can be null.
    pub fn value_contains_null(&self) -> (r: bool)
        ensures
            r == self@.value_contains_null,
    {
        self.value_contains_null
    }

    /// The schema of the map's entries as structs, with the given names for key and value.
    pub fn as_struct_schema(&self, key_name: String, val_name: String) -> (r: Schema)
        ensures
            r@ == unchecked_struct(
                seq![
                    FieldV::plain(key_name@, self@.key, false),
                    FieldV::plain(val_name@, self@.value, self@.value_contains_null),
                ],
            ),
    {
        let mut fields: Vec<StructField> = Vec::new();
        fields.push(StructField::not_null(key_name.as_str(), self.key_type.clone()));
        fields.push(
            StructField::new(val_name.as_str(), self.value_type.clone(), self.value_contains_null),
        );
        assert(field_views(fields@) =~= seq![
            FieldV::plain(key_name@, self@.key, false),
            FieldV::plain(val_name@, self@.value, self@.value_contains_null),
        ]);
        StructType::new_unchecked(fields)
    }
}

impl DataType {
    /// The string type.
    pub fn string() -> (r: Self)
        ensures
            r@ == TypeV::Primitive(PrimitiveType::String),
    {
        DataType::Primitive(PrimitiveType::String)
    }

    /// The 8-byte integer type.
    pub fn long() -> (r: Self)
        ensures
            r@ == TypeV::Primitive(PrimitiveType::Long),
    {
        DataType::Primitive(PrimitiveType::Long)
    }

    /// The 4-byte integer type.
    pub fn integer() -> (r: Self)
        ensures
            r@ == TypeV::Primitive(PrimitiveType::Integer),
    {
        DataType::Primitive(PrimitiveType::Integer)
    }

    /// The 2-byte integer type.
    pub fn short() -> (r: Self)
        ensures
            r@ == TypeV::Primitive(PrimitiveType::Short),
    {
        DataType::Primitive(PrimitiveType::Short)
    }

    /// The 1-byte integer type.
    pub fn byte() -> (r: Self)
        ensures
            r@ == TypeV::Primitive(PrimitiveType::Byte),
    {
        DataType::Primitive(PrimitiveType::Byte)
    }

    /// The half-precision floating point type.
    pub fn float16() -> (r: Self)
        ensures
            r@ == TypeV::Primitive(PrimitiveType::Float16),
    {
        DataType::Primitive(PrimitiveType::Float16)
    }

    /// The single-precision floating point type.
    pub fn float() -> (r: Self)
        ensures
            r@ == TypeV::Primitive(PrimitiveType::Float),
    {
        DataType::Primitive(PrimitiveType::Float)
    }

    /// The double-precision floating point type.
    pub fn double() -> (r: Self)
        ensures
            r@ == TypeV::Primitive(PrimitiveType::Double),
    {
        DataType::Primitive(PrimitiveType::Double)
    }

    /// The boolean type.
    pub fn boolean() -> (r: Self)
        ensures
            r@ == TypeV::Primitive(PrimitiveType::Boolean),
    {
        DataType::Primitive(PrimitiveType::Boolean)
    }

    /// The binary type.
    pub fn binary() -> (r: Self)
        ensures
            r@ == TypeV::Primitive(PrimitiveType::Binary),
    {
        DataType::Primitive(PrimitiveType::Binary)
    }

    /// The date type.
    pub fn date() -> (r: Self)
        ensures
            r@ == TypeV::Primitive(PrimitiveType::Date),
    {
        DataType::Primitive(PrimitiveType::Date)
    }

    /// The timestamp type.
    pub fn timestamp() -> (r: Self)
        ensures
            r@ == TypeV::Primitive(PrimitiveType::Timestamp),
    {
        DataType::Primitive(PrimitiveType::Timestamp)
    }

    /// The type of timestamps without time zone.
    pub fn timestamp_ntz() -> (r: Self)
        ensures
            r@ == TypeV::Primitive(PrimitiveType::TimestampNtz),
    {
        DataType::Primitive(PrimitiveType::TimestampNtz)
    }

    /// Create a new decimal type with the given precision and scale.
    pub fn decimal(precision: u8, scale: u8) -> (r: DeltaResult<Self>)
        ensures
            match r {
                Ok(t) => valid_decimal(precision, scale) && t@ == TypeV::Primitive(
                    PrimitiveType::Decimal(DecimalType::of(precision, scale)),
                ),
                Err(e) => !valid_decimal(precision, scale) && e@ == ErrorV::InvalidDecimal(
                    decimal_error(precision, scale),
                ),
            },
    {
        match PrimitiveType::decimal(precision, scale) {
            Ok(p) => Ok(DataType::Primitive(p)),
            Err(e) => Err(e),
        }
    }

    /// Create a new struct type with the given fields.
    pub fn try_struct_type(fields: Vec<StructField>) -> (r: DeltaResult<Self>)
        ensures
            struct_type_result(r, checked_struct(field_views(fields@))),
    {
        match StructType::try_new(fields) {
            Ok(s) => Ok(DataType::Struct(Box::new(s))),
            Err(e) => Err(e),
        }
    }

    /// Create a new struct type of fields of which each may have failed.
    pub fn try_struct_type_from_results(fields: Vec<DeltaResult<StructField>>) -> (r: DeltaResult<
        Self,
    >)
        ensures
            struct_type_result(r, checked_struct_of_results(result_views(fields@))),
    {
        match StructType::try_from_results(fields) {
            Ok(s) => Ok(DataType::Struct(Box::new(s))),
            Err(e) => Err(e),
        }
    }

    /// Create a new struct type with the given fields without checking them.
    pub fn struct_type_unchecked(fields: Vec<StructField>) -> (r: Self)
        ensures
            r@ == TypeV::Struct(Box::new(unchecked_struct(field_views(fields@)))),
    {
        DataType::Struct(Box::new(StructType::new_unchecked(fields)))
    }

    /// Create a new unshredded variant type: a struct of two not-null binary fields, `metadata` and
    /// `value`.
    pub fn unshredded_variant() -> (r: Self)
        ensures
            r@ == TypeV::Variant(Box::new(unshredded())),
    {
        let mut fields: Vec<StructField> = Vec::new();
        fields.push(StructField::not_null("metadata", DataType::binary()));
        fields.push(StructField::not_null("value", DataType::binary()));
        proof {
            let views = seq![
                FieldV::plain("metadata"@, TypeV::Primitive(PrimitiveType::Binary), false),
                FieldV::plain("value"@, TypeV::Primitive(PrimitiveType::Binary), false),
            ];
            assert(field_views(fields@) =~= views);
            reveal_strlit("metadata");
            reveal_strlit("value");
            assert("metadata"@.len() != "value"@.len());
            crate::schema::struct_type::law_unchecked_keeps_distinct_names(views);
        }
        DataType::Variant(Box::new(StructType::new_unchecked(fields)))
    }

    /// Create a new variant type of the given fields. None of them may be a metadata column.
    pub fn variant_type(fields: Vec<StructField>) -> (r: DeltaResult<Self>)
        ensures
            match r {
                Ok(t) => t@ is Variant && checked_struct_of_results(
                    variant_fields(field_views(fields@)),
                ) == Ok::<StructV, ErrorV>(*t@->Variant_0),
                Err(e) => checked_struct_of_results(variant_fields(field_views(fields@))) == Err::<
                    StructV,
                    ErrorV,
                >(e@),
            },
    {
        let ghost all = field_views(fields@);
        let ghost mut i: int = 0;
        let mut results: Vec<DeltaResult<StructField>> = Vec::new();
        for field in iter: fields
            invariant
                i == iter.index(),
                iter.seq() == fields@,
                i <= all.len(),
                all == field_views(fields@),
                result_views(results@) == variant_fields(all).take(i),
        {
            let ghost before = result_views(results@);
            let ghost view = field@;
            assert(view == all[i]);
            assert(before.len() == i);
            let result = if field.is_metadata_column() {
                Err(Error::schema("Metadata columns are not allowed in Variant types"))
            } else {
                Ok(field)
            };
            let ghost item = result_view(result);
            results.push(result);
            proof {
                assert(item == variant_fields(all)[i]);
                assert(result_views(results@) =~= before.push(item));
                assert(before.push(item) =~= variant_fields(all).take(i + 1));
                i = i + 1;
            }
        }
        assert(variant_fields(all).take(i) =~= variant_fields(all));
        match StructType::try_from_results(results) {
            Ok(s) => Ok(DataType::Variant(Box::new(s))),
            Err(e) => Err(e),
        }
    }

    /// The primitive type that this is, or `None`.
    pub fn as_primitive_opt(&self) -> (r: Option<&PrimitiveType>)
        ensures
            match r {
                Some(p) => self@ == TypeV::Primitive(*p),
                None => !(self@ is Primitive),
            },
    {
        match self {
            DataType::Primitive(ptype) => Some(ptype),
            _ => None,
        }
    }
}

impl From<DecimalType> for DataType {
    fn from(dtype: DecimalType) -> (r: Self) {
        DataType::Primitive(PrimitiveType::Decimal(dtype))
    }
}

impl vstd::std_specs::convert::FromSpecImpl<DecimalType> for DataType {
    open spec fn obeys_from_spec() -> bool {
        true
    }

    open spec fn from_spec(dtype: DecimalType) -> DataType {
        DataType::Primitive(PrimitiveType::Decimal(dtype))
    }
}

impl From<PrimitiveType> for DataType {
    fn from(ptype: PrimitiveType) -> (r: Self) {
        DataType::Primitive(ptype)
    }
}

impl vstd::std_specs::convert::FromSpecImpl<PrimitiveType> for DataType {
    open spec fn obeys_from_spec() -> bool {
        true
    }

    open spec fn from_spec(ptype: PrimitiveType) -> DataType {
        DataType::Primitive(ptype)
    }
}

impl From<MapType> for DataType {
    fn from(map_type: MapType) -> (r: Self) {
        DataType::MapOf(Box::new(map_type))
    }
}

impl vstd::std_specs::convert::FromSpecImpl<MapType> for DataType {
    open spec fn obeys_from_spec() -> bool {
        true
    }

    open spec fn from_spec(map_type: MapType) -> DataType {
        DataType::MapOf(Box::new(map_type))
    }
}

impl From<StructType> for DataType {
    fn from(struct_type: StructType) -> (r: Self) {
        DataType::Struct(Box::new(struct_type))
    }
}

impl vstd::std_specs::convert::FromSpecImpl<StructType> for DataType {
    open spec fn obeys_from_spec() -> bool {
        true
    }

    open spec fn from_spec(struct_type: StructType) -> DataType {
        DataType::Struct(Box::new(struct_type))
    }
}

impl From<ArrayType> for DataType {
    fn from(array_type: ArrayType) -> (r: Self) {
        DataType::Array(Box::new(array_type))
    }
}

impl vstd::std_specs::convert::FromSpecImpl<ArrayType> for DataType {
    open spec fn obeys_from_spec() -> bool {
        true
    }

    open spec fn from_spec(array_type: ArrayType) -> DataType {
        DataType::Array(Box::new(array_type))
    }
}

impl From<SchemaRef> for DataType {
    fn from(schema: SchemaRef) -> (r: Self)
        ensures
            r@ == TypeV::Struct(Box::new(schema@)),
    {
        let copy: StructType = (*schema).clone();
        DataType::Struct(Box::new(copy))
    }
}

impl vstd::std_specs::convert::FromSpecImpl<SchemaRef> for DataType {
    open spec fn obeys_from_spec() -> bool {
        false
    }

    open spec fn from_spec(schema: SchemaRef) -> DataType {
        arbitrary()
    }
}

} // verus!
