//! Arrow schemas, and their conversion from and to the schemas of Delta tables.
use vstd::prelude::*;

use crate::error::{ArrowError, Error};
use crate::schema::metadata::{ColumnMetadataKey, MetadataMap, MetadataValue};
use crate::schema::primitive::{DecimalType, PrimitiveType};
use crate::schema::types::{
    ArrayType, DataType, MapType, StructField, StructType,
};
use crate::text::{cat2, cat3, cat5, chars_of, owned, text_eq};
use crate::text_map::TextMap;

#[allow(unused_imports)]
use crate::error::{ArrowErrorV, ErrorV};
#[allow(unused_imports)]
use crate::schema::data_type::unshredded;
#[allow(unused_imports)]
use crate::schema::display::type_text;
#[allow(unused_imports)]
use crate::schema::metadata::{meta_text, meta_view, quoted, MetaV};
#[allow(unused_imports)]
use crate::schema::primitive::{decimal_error, valid_decimal};
#[allow(unused_imports)]
use crate::schema::struct_type::{checked_struct_of_results, result_view, result_views};
#[allow(unused_imports)]
use crate::schema::types::{
    lemma_struct_parts, lemma_type_parts, same_type, ArrayV, EntryV, FieldV, MapV, StructV, TypeV,
};
#[allow(unused_imports)]
use crate::text_map::map_of;

verus! {

/// The unit of a time.
#[derive(Clone, Copy, Debug, PartialEq, Eq, Structural)]
pub enum TimeUnit {
    Second,
    Millisecond,
    Microsecond,
    Nanosecond,
}

/// A data type of Arrow. Types that have no counterpart in Delta tables are given by their text.
#[derive(Debug)]
pub enum ArrowDataType {
    Boolean,
    Int8,
    Int16,
    Int32,
    Int64,
    UInt8,
    UInt16,
    UInt32,
    UInt64,
    Float16,
    Float32,
    Float64,
    /// A time in a unit, with a time zone or without one
    Timestamp(TimeUnit, Option<String>),
    Date32,
    Date64,
    Binary,
    FixedSizeBinary(i32),
    LargeBinary,
    BinaryView,
    Utf8,
    LargeUtf8,
    Utf8View,
    List(Box<ArrowField>),
    ListView(Box<ArrowField>),
    FixedSizeList(Box<ArrowField>, i32),
    LargeList(Box<ArrowField>),
    LargeListView(Box<ArrowField>),
    Struct(Vec<ArrowField>),
    /// The type of the keys, and that of the values
    Dictionary(Box<ArrowDataType>, Box<ArrowDataType>),
    Decimal128(u8, i8),
    /// A struct of key and value, and whether the keys are sorted
    MapOf(Box<ArrowField>, bool),
    /// Any other type
    Other(String),
}

/// A field of Arrow.
#[derive(Debug)]
pub struct ArrowField {
    pub name: String,
    pub data_type: ArrowDataType,
    pub nullable: bool,
    pub metadata: TextMap<String>,
}

/// A schema of Arrow.
#[derive(Debug)]
pub struct ArrowSchema {
    pub fields: Vec<ArrowField>,
}

/// A schema of Arrow that is shared.
pub type ArrowSchemaRef = std::sync::Arc<ArrowSchema>;

/// The kinds of lists of Arrow.
pub enum ListKind {
    List,
    ListView,
    FixedSizeList(i32),
    LargeList,
    LargeListView,
}

/// The model of [`ArrowDataType`].
pub enum ArrowV {
    /// A type without parts
    Leaf(ArrowDataType),
    Timestamp(TimeUnit, Option<Seq<char>>),
    Listed(ListKind, Box<ArrowFieldV>),
    Struct(Seq<ArrowFieldV>),
    Dictionary(Box<ArrowV>, Box<ArrowV>),
    MapOf(Box<ArrowFieldV>, bool),
    Other(Seq<char>),
}

/// The model of [`ArrowField`].
pub struct ArrowFieldV {
    pub name: Seq<char>,
    pub data_type: ArrowV,
    pub nullable: bool,
    pub metadata: Map<Seq<char>, Seq<char>>,
}

/// A map of strings as texts.
pub open spec fn string_map_view(m: Map<Seq<char>, String>) -> Map<Seq<char>, Seq<char>> {
    m.map_values(|s: String| s@)
}

impl ArrowDataType {
    /// The model of the type.
    pub open spec fn view(&self) -> ArrowV
        decreases self,
    {
        match self {
            ArrowDataType::Timestamp(unit, zone) => ArrowV::Timestamp(
                *unit,
                match zone {
                    Some(z) => Some(z@),
                    None => None,
                },
            ),
            ArrowDataType::List(f) => ArrowV::Listed(ListKind::List, Box::new(f.view())),
            ArrowDataType::ListView(f) => ArrowV::Listed(ListKind::ListView, Box::new(f.view())),
            ArrowDataType::FixedSizeList(f, n) => ArrowV::Listed(
                ListKind::FixedSizeList(*n),
                Box::new(f.view()),
            ),
            ArrowDataType::LargeList(f) => ArrowV::Listed(ListKind::LargeList, Box::new(f.view())),
            ArrowDataType::LargeListView(f) => ArrowV::Listed(
                ListKind::LargeListView,
                Box::new(f.view()),
            ),
            ArrowDataType::Struct(fields) => ArrowV::Struct(arrow_fields_view(fields@)),
            ArrowDataType::Dictionary(k, v) => ArrowV::Dictionary(
                Box::new(k.view()),
                Box::new(v.view()),
            ),
            ArrowDataType::MapOf(f, sorted) => ArrowV::MapOf(Box::new(f.view()), *sorted),
            ArrowDataType::Other(text) => ArrowV::Other(text@),
            _ => ArrowV::Leaf(*self),
        }
    }
}

impl ArrowField {
    /// The model of the field.
    pub open spec fn view(&self) -> ArrowFieldV
        decreases self,
    {
        ArrowFieldV {
            name: self.name@,
            data_type: self.data_type.view(),
            nullable: self.nullable,
            metadata: string_map_view(self.metadata@),
        }
    }
}

impl ArrowSchema {
    /// The model of the schema: its fields.
    pub open spec fn view(&self) -> Seq<ArrowFieldV> {
        arrow_fields_view(self.fields@)
    }
}

/// Fields of Arrow as models.
pub open spec fn arrow_fields_view(fields: Seq<ArrowField>) -> Seq<ArrowFieldV>
    decreases fields,
{
    if fields.len() == 0 {
        seq![]
    } else {
        arrow_fields_view(fields.drop_last()).push(fields.last().view())
    }
}

/// The models of fields are those of the single fields.
pub proof fn lemma_arrow_fields_view(fields: Seq<ArrowField>)
    ensures
        arrow_fields_view(fields).len() == fields.len(),
        forall|i: int|
            0 <= i < fields.len() ==> #[trigger] arrow_fields_view(fields)[i] == fields[i]@,
    decreases fields.len(),
{
    if fields.len() > 0 {
        lemma_arrow_fields_view(fields.drop_last());
        assert forall|i: int| 0 <= i < fields.len() implies #[trigger] arrow_fields_view(fields)[i]
            == fields[i]@ by {
            if i < fields.len() - 1 {
                assert(fields.drop_last()[i] == fields[i]);
            }
        }
    }
}

/// The key of the Parquet field id in the metadata of an Arrow field.
pub open spec fn arrow_id_key() -> Seq<char> {
    "PARQUET:field_id"@
}

/// The key of the Parquet field id in the metadata of a Delta field.
pub open spec fn delta_id_key() -> Seq<char> {
    ColumnMetadataKey::ParquetFieldId.key()
}

/// The metadata of a Delta field as that of an Arrow field: all values as texts, and the Parquet
/// field id under the key that Arrow has for it.
pub open spec fn metadata_to_arrow(m: Map<Seq<char>, MetaV>) -> Map<Seq<char>, Seq<char>> {
    let others = m.remove(delta_id_key()).map_values(|v: MetaV| meta_text(v));
    if m.contains_key(delta_id_key()) {
        others.insert(arrow_id_key(), meta_text(m[delta_id_key()]))
    } else {
        others
    }
}

/// The metadata of an Arrow field as that of a Delta field.
pub open spec fn metadata_from_arrow(m: Map<Seq<char>, Seq<char>>) -> Map<Seq<char>, MetaV> {
    let others = m.remove(arrow_id_key()).map_values(|s: Seq<char>| MetaV::String(s));
    if m.contains_key(arrow_id_key()) {
        others.insert(delta_id_key(), MetaV::String(m[arrow_id_key()]))
    } else {
        others
    }
}

/// An Arrow field without metadata.
pub open spec fn plain_arrow_field(name: Seq<char>, data_type: ArrowV, nullable: bool) -> ArrowFieldV {
    ArrowFieldV { name, data_type, nullable, metadata: Map::empty() }
}

/// A primitive type in Arrow.
pub open spec fn primitive_to_arrow(p: PrimitiveType) -> ArrowV {
    match p {
        PrimitiveType::String => ArrowV::Leaf(ArrowDataType::Utf8),
        PrimitiveType::Long => ArrowV::Leaf(ArrowDataType::Int64),
        PrimitiveType::Integer => ArrowV::Leaf(ArrowDataType::Int32),
        PrimitiveType::Short => ArrowV::Leaf(ArrowDataType::Int16),
        PrimitiveType::Byte => ArrowV::Leaf(ArrowDataType::Int8),
        PrimitiveType::Float16 => ArrowV::Leaf(ArrowDataType::Float16),
        PrimitiveType::Float => ArrowV::Leaf(ArrowDataType::Float32),
        PrimitiveType::Double => ArrowV::Leaf(ArrowDataType::Float64),
        PrimitiveType::Boolean => ArrowV::Leaf(ArrowDataType::Boolean),
        PrimitiveType::Binary => ArrowV::Leaf(ArrowDataType::Binary),
        PrimitiveType::Decimal(d) => ArrowV::Leaf(
            ArrowDataType::Decimal128(d.digits(), d.fraction_digits() as i8),
        ),
        PrimitiveType::Date => ArrowV::Leaf(ArrowDataType::Date32),
        PrimitiveType::Timestamp => ArrowV::Timestamp(TimeUnit::Microsecond, Some("UTC"@)),
        PrimitiveType::TimestampNtz => ArrowV::Timestamp(TimeUnit::Microsecond, None),
    }
}

/// The error for a variant type that is not the unshredded one.
pub open spec fn shredded_error(t: TypeV) -> ArrowErrorV {
    ArrowErrorV::SchemaError(
        "Incorrect Variant Schema: "@ + type_text(t)
            + ". Only the unshredded variant schema is supported right now."@,
    )
}

/// A data type in Arrow. Only unshredded variants have one.
pub open spec fn type_to_arrow(t: TypeV) -> Result<ArrowV, ArrowErrorV>
    decreases t,
{
    match t {
        TypeV::Primitive(p) => Ok(primitive_to_arrow(p)),
        TypeV::Struct(s) => match entries_to_arrow(s.entries) {
            Ok(fields) => Ok(ArrowV::Struct(fields)),
            Err(e) => Err(e),
        },
        TypeV::Array(a) => match type_to_arrow(a.element) {
            Ok(element) => Ok(
                ArrowV::Listed(
                    ListKind::List,
                    Box::new(plain_arrow_field("element"@, element, a.contains_null)),
                ),
            ),
            Err(e) => Err(e),
        },
        TypeV::MapOf(m) => match type_to_arrow(m.key) {
            Err(e) => Err(e),
            Ok(key) => match type_to_arrow(m.value) {
                Err(e) => Err(e),
                Ok(value) => Ok(
                    ArrowV::MapOf(
                        Box::new(map_entry_field(key, value, m.value_contains_null)),
                        false,
                    ),
                ),
            },
        },
        TypeV::Variant(s) => if same_type(t, TypeV::Variant(Box::new(unshredded()))) {
            match entries_to_arrow(s.entries) {
                Ok(fields) => Ok(ArrowV::Struct(fields)),
                Err(e) => Err(e),
            }
        } else {
            Err(shredded_error(t))
        },
    }
}

/// The struct of key and value in a map of Arrow.
pub open spec fn map_entry_field(key: ArrowV, value: ArrowV, value_nullable: bool) -> ArrowFieldV {
    plain_arrow_field(
        "key_value"@,
        ArrowV::Struct(
            seq![
                plain_arrow_field("key"@, key, false),
                plain_arrow_field("value"@, value, value_nullable),
            ],
        ),
        false,
    )
}

/// The fields of a struct in Arrow.
pub open spec fn entries_to_arrow(entries: Seq<EntryV>) -> Result<Seq<ArrowFieldV>, ArrowErrorV>
    decreases entries,
{
    if entries.len() == 0 {
        Ok(seq![])
    } else {
        match entries_to_arrow(entries.drop_last()) {
            Err(e) => Err(e),
            Ok(fields) => match field_to_arrow(entries.last().field) {
                Err(e) => Err(e),
                Ok(f) => Ok(fields.push(f)),
            },
        }
    }
}

/// A field in Arrow.
pub open spec fn field_to_arrow(f: FieldV) -> Result<ArrowFieldV, ArrowErrorV>
    decreases f,
{
    match type_to_arrow(f.data_type) {
        Err(e) => Err(e),
        Ok(data_type) => Ok(
            ArrowFieldV {
                name: f.name,
                data_type,
                nullable: f.nullable,
                metadata: metadata_to_arrow(f.metadata),
            },
        ),
    }
}

/// The primitive type of an Arrow type without parts, decimals aside.
pub open spec fn leaf_primitive(t: ArrowDataType) -> Option<PrimitiveType> {
    match t {
        ArrowDataType::Utf8 => Some(PrimitiveType::String),
        ArrowDataType::LargeUtf8 => Some(PrimitiveType::String),
        ArrowDataType::Utf8View => Some(PrimitiveType::String),
        ArrowDataType::Int64 => Some(PrimitiveType::Long),
        ArrowDataType::Int32 => Some(PrimitiveType::Integer),
        ArrowDataType::Int16 => Some(PrimitiveType::Short),
        ArrowDataType::Int8 => Some(PrimitiveType::Byte),
        ArrowDataType::UInt64 => Some(PrimitiveType::Long),
        ArrowDataType::UInt32 => Some(PrimitiveType::Integer),
        ArrowDataType::UInt16 => Some(PrimitiveType::Short),
        ArrowDataType::UInt8 => Some(PrimitiveType::Byte),
        ArrowDataType::Float16 => Some(PrimitiveType::Float16),
        ArrowDataType::Float32 => Some(PrimitiveType::Float),
        ArrowDataType::Float64 => Some(PrimitiveType::Double),
        ArrowDataType::Boolean => Some(PrimitiveType::Boolean),
        ArrowDataType::Binary => Some(PrimitiveType::Binary),
        ArrowDataType::FixedSizeBinary(_) => Some(PrimitiveType::Binary),
        ArrowDataType::LargeBinary => Some(PrimitiveType::Binary),
        ArrowDataType::BinaryView => Some(PrimitiveType::Binary),
        ArrowDataType::Date32 => Some(PrimitiveType::Date),
        ArrowDataType::Date64 => Some(PrimitiveType::Date),
        _ => None,
    }
}

/// The text of a time unit.
pub open spec fn unit_text(unit: TimeUnit) -> Seq<char> {
    match unit {
        TimeUnit::Second => "s"@,
        TimeUnit::Millisecond => "ms"@,
        TimeUnit::Microsecond => "µs"@,
        TimeUnit::Nanosecond => "ns"@,
    }
}

/// The text of a timestamp type of Arrow.
pub open spec fn timestamp_text(unit: TimeUnit, zone: Option<Seq<char>>) -> Seq<char> {
    match zone {
        Some(z) => "Timestamp("@ + unit_text(unit) + ", "@ + quoted(z) + ")"@,
        None => "Timestamp("@ + unit_text(unit) + ")"@,
    }
}

/// Whether a time zone is UTC, in capital or small letters.
pub open spec fn is_utc(zone: Seq<char>) -> bool {
    &&& zone.len() == 3
    &&& (zone[0] == 'u' || zone[0] == 'U')
    &&& (zone[1] == 't' || zone[1] == 'T')
    &&& (zone[2] == 'c' || zone[2] == 'C')
}

/// The error for a type that Delta tables do not have.
pub open spec fn invalid_type_error(text: Seq<char>) -> ArrowErrorV {
    ArrowErrorV::SchemaError("Invalid data type for Delta Lake: "@ + text)
}

/// Whether each map type in an Arrow type is one of structs with a key and a value.
pub open spec fn maps_well_formed(t: ArrowV) -> bool
    decreases t,
{
    match t {
        ArrowV::Listed(_, f) => maps_well_formed(f.data_type),
        ArrowV::Struct(fields) => all_maps_well_formed(fields),
        ArrowV::Dictionary(_, v) => maps_well_formed(*v),
        ArrowV::MapOf(f, _) => match f.data_type {
            ArrowV::Struct(fields) => fields.len() >= 2 && maps_well_formed(fields[0].data_type)
                && maps_well_formed(fields[1].data_type),
            _ => false,
        },
        _ => true,
    }
}

/// Whether each map type in Arrow fields is well-formed.
pub open spec fn all_maps_well_formed(fields: Seq<ArrowFieldV>) -> bool
    decreases fields,
{
    fields.len() > 0 ==> all_maps_well_formed(fields.drop_last()) && maps_well_formed(
        fields.last().data_type,
    )
}

/// The data type of an Arrow type, or the error that there is none.
pub open spec fn type_from_arrow(t: ArrowV) -> Result<TypeV, ArrowErrorV>
    decreases t,
{
    match t {
        ArrowV::Leaf(ArrowDataType::Decimal128(precision, scale)) => if scale < 0 {
            Err(
                ArrowErrorV::ExternalError(
                    Box::new(
                        ErrorV::InvalidDecimal("Negative scales are not supported in Delta"@),
                    ),
                ),
            )
        } else if valid_decimal(precision, scale as u8) {
            Ok(
                TypeV::Primitive(
                    PrimitiveType::Decimal(DecimalType::of(precision, scale as u8)),
                ),
            )
        } else {
            Err(
                ArrowErrorV::ExternalError(
                    Box::new(ErrorV::InvalidDecimal(decimal_error(precision, scale as u8))),
                ),
            )
        },
        ArrowV::Leaf(leaf) => match leaf_primitive(leaf) {
            Some(p) => Ok(TypeV::Primitive(p)),
            None => Err(invalid_type_error(seq![])),
        },
        ArrowV::Timestamp(unit, zone) => if (unit is Microsecond || unit is Nanosecond)
            && zone is None {
            Ok(TypeV::Primitive(PrimitiveType::TimestampNtz))
        } else if (unit is Microsecond || unit is Nanosecond) && is_utc(zone->0) {
            Ok(TypeV::Primitive(PrimitiveType::Timestamp))
        } else {
            Err(invalid_type_error(timestamp_text(unit, zone)))
        },
        ArrowV::Listed(_, f) => match type_from_arrow(f.data_type) {
            Ok(element) => Ok(
                TypeV::Array(
                    Box::new(ArrayV { label: "array"@, element, contains_null: f.nullable }),
                ),
            ),
            Err(e) => Err(e),
        },
        ArrowV::Struct(fields) => match checked_struct_of_results(fields_from_arrow(fields)) {
            Ok(s) => Ok(TypeV::Struct(Box::new(s))),
            Err(e) => Err(ArrowErrorV::ExternalError(Box::new(e))),
        },
        ArrowV::Dictionary(_, v) => type_from_arrow(*v),
        ArrowV::MapOf(f, _) => match f.data_type {
            ArrowV::Struct(fields) => if fields.len() >= 2 {
                match type_from_arrow(fields[0].data_type) {
                    Err(e) => Err(e),
                    Ok(key) => match type_from_arrow(fields[1].data_type) {
                        Err(e) => Err(e),
                        Ok(value) => Ok(
                            TypeV::MapOf(
                                Box::new(
                                    MapV {
                                        label: "map"@,
                                        key,
                                        value,
                                        value_contains_null: fields[1].nullable,
                                    },
                                ),
                            ),
                        ),
                    },
                }
            } else {
                Err(invalid_type_error(seq![]))
            },
            _ => Err(invalid_type_error(seq![])),
        },
        ArrowV::Other(text) => Err(invalid_type_error(text)),
    }
}

/// The fields of Arrow fields, or the error of each.
pub open spec fn fields_from_arrow(fields: Seq<ArrowFieldV>) -> Seq<Result<FieldV, ErrorV>>
    decreases fields,
{
    if fields.len() == 0 {
        seq![]
    } else {
        fields_from_arrow(fields.drop_last()).push(
            match field_from_arrow(fields.last()) {
                Ok(f) => Ok(f),
                Err(e) => Err(ErrorV::Arrow(Box::new(e))),
            },
        )
    }
}

/// The field of an Arrow field. Fails where its metadata holds two different Parquet field ids.
pub open spec fn field_from_arrow(f: ArrowFieldV) -> Result<FieldV, ArrowErrorV>
    decreases f,
{
    if f.metadata.contains_key(arrow_id_key()) && f.metadata.contains_key(delta_id_key())
        && f.metadata[arrow_id_key()] != f.metadata[delta_id_key()] {
        Err(
            ArrowErrorV::SchemaError(
                "Field '"@ + f.name + "': conflicting parquet field IDs: '"@
                    + f.metadata[arrow_id_key()] + "' ("@ + arrow_id_key() + ") vs '"@
                    + f.metadata[delta_id_key()] + "' ("@ + delta_id_key() + ")"@,
            ),
        )
    } else {
        match type_from_arrow(f.data_type) {
            Err(e) => Err(e),
            Ok(data_type) => Ok(
                FieldV {
                    name: f.name,
                    data_type,
                    nullable: f.nullable,
                    metadata: metadata_from_arrow(f.metadata),
                },
            ),
        }
    }
}

/// The struct type of an Arrow schema.
pub open spec fn schema_from_arrow(fields: Seq<ArrowFieldV>) -> Result<StructV, ArrowErrorV> {
    match checked_struct_of_results(fields_from_arrow(fields)) {
        Ok(s) => Ok(s),
        Err(e) => Err(ArrowErrorV::ExternalError(Box::new(e))),
    }
}

/// `Display` of `arrow_schema::DataType` for a timestamp type: the unit by its symbol, and the time
/// zone in quotes where there is one.
#[verifier::external_body]
fn write_timestamp(unit: TimeUnit, zone: Option<&String>) -> (r: String)
    ensures
        r@ == timestamp_text(
            unit,
            match zone {
                Some(z) => Some(z@),
                None => None,
            },
        ),
{
    let unit = match unit {
        TimeUnit::Second => arrow_schema::TimeUnit::Second,
        TimeUnit::Millisecond => arrow_schema::TimeUnit::Millisecond,
        TimeUnit::Microsecond => arrow_schema::TimeUnit::Microsecond,
        TimeUnit::Nanosecond => arrow_schema::TimeUnit::Nanosecond,
    };
    let zone = zone.map(|z| std::sync::Arc::from(z.as_str()));
    arrow_schema::DataType::Timestamp(unit, zone).to_string()
}

/// Converts field metadata to that of an Arrow field: values become texts, and the key
/// `parquet.field.id` becomes `PARQUET:field_id`, under which Arrow and Parquet writers look for the
/// field id.
pub fn kernel_metadata_to_arrow_metadata(field: &StructField) -> (r: TextMap<String>)
    ensures
        string_map_view(r@) == metadata_to_arrow(field@.metadata),
{
    let m = &field.metadata;
    let n: usize = m.len();
    let ghost list = m.list();
    let ghost all = meta_view(m@);
    let ghost f = |v: MetaV| meta_text(v);
    let ghost id_key = delta_id_key();
    let mut r: TextMap<String> = TextMap::new();
    let mut id: Option<String> = None;
    let mut i: usize = 0;
    proof {
        assert(list.take(0) =~= seq![]);
        assert(string_map_view(r@) =~= meta_view(map_of(list.take(0))).remove(id_key).map_values(f));
    }
    while i < n
        invariant
            i <= n,
            n == list.len(),
            list == m.list(),
            id_key == delta_id_key(),
            f == (|v: MetaV| meta_text(v)),
            string_map_view(r@) == meta_view(map_of(list.take(i as int))).remove(
                id_key,
            ).map_values(f),
            match id {
                Some(s) => map_of(list.take(i as int)).contains_key(id_key) && s@ == meta_text(
                    map_of(list.take(i as int))[id_key]@,
                ),
                None => !map_of(list.take(i as int)).contains_key(id_key),
            },
        decreases n - i,
    {
        let (key, value) = m.entry(i);
        let ghost before = map_of(list.take(i as int));
        let ghost after = map_of(list.take(i + 1));
        proof {
            assert(list.take(i + 1).drop_last() =~= list.take(i as int));
            assert(list.take(i + 1).last() == list[i as int]);
            assert(after == before.insert(key@, *value));
        }
        let text = value.text();
        if text_eq(key.as_str(), ColumnMetadataKey::ParquetFieldId.as_ref()) {
            id = Some(text);
            assert(meta_view(after).remove(id_key).map_values(f) =~= meta_view(before).remove(
                id_key,
            ).map_values(f));
        } else {
            let ghost so_far = r@;
            r.insert(key.clone(), text);
            assert(string_map_view(r@) =~= string_map_view(so_far).insert(key@, text@));
            assert(meta_view(after).remove(id_key).map_values(f) =~= meta_view(before).remove(
                id_key,
            ).map_values(f).insert(key@, text@));
        }
        i = i + 1;
    }
    assert(list.take(n as int) =~= list);
    if let Some(text) = id {
        let ghost so_far = r@;
        r.insert(owned("PARQUET:field_id"), text);
        assert(string_map_view(r@) =~= string_map_view(so_far).insert(arrow_id_key(), text@));
    }
    r
}

fn new_arrow_field(name: &str, data_type: ArrowDataType, nullable: bool) -> (r: ArrowField)
    ensures
        r@ == plain_arrow_field(name@, data_type@, nullable),
{
    let r = ArrowField { name: owned(name), data_type, nullable, metadata: TextMap::new() };
    assert(r@.metadata =~= Map::empty());
    r
}

fn to_arrow_type(t: &DataType) -> (r: Result<ArrowDataType, ArrowError>)
    ensures
        match r {
            Ok(a) => type_to_arrow(t@) == Ok::<ArrowV, ArrowErrorV>(a@),
            Err(e) => type_to_arrow(t@) == Err::<ArrowV, ArrowErrorV>(e@),
        },
    decreases t@,
{
    proof {
        lemma_type_parts(t@);
    }
    match t {
        DataType::Primitive(p) => match p {
            PrimitiveType::String => Ok(ArrowDataType::Utf8),
            PrimitiveType::Long => Ok(ArrowDataType::Int64),
            PrimitiveType::Integer => Ok(ArrowDataType::Int32),
            PrimitiveType::Short => Ok(ArrowDataType::Int16),
            PrimitiveType::Byte => Ok(ArrowDataType::Int8),
            PrimitiveType::Float16 => Ok(ArrowDataType::Float16),
            PrimitiveType::Float => Ok(ArrowDataType::Float32),
            PrimitiveType::Double => Ok(ArrowDataType::Float64),
            PrimitiveType::Boolean => Ok(ArrowDataType::Boolean),
            PrimitiveType::Binary => Ok(ArrowDataType::Binary),
            PrimitiveType::Decimal(dtype) => {
                let precision = dtype.precision();
                let scale = dtype.scale();
                Ok(ArrowDataType::Decimal128(precision, scale as i8))
            },
            PrimitiveType::Date => Ok(ArrowDataType::Date32),
            PrimitiveType::Timestamp => Ok(
                ArrowDataType::Timestamp(TimeUnit::Microsecond, Some(owned("UTC"))),
            ),
            PrimitiveType::TimestampNtz => Ok(
                ArrowDataType::Timestamp(TimeUnit::Microsecond, None),
            ),
        },
        DataType::Struct(s) => match try_kernel_struct_to_arrow_fields(s) {
            Ok(fields) => Ok(ArrowDataType::Struct(fields)),
            Err(e) => Err(e),
        },
        DataType::Array(a) => match to_arrow_type(&a.element_type) {
            Ok(element) => Ok(
                ArrowDataType::List(
                    Box::new(new_arrow_field("element", element, a.contains_null)),
                ),
            ),
            Err(e) => Err(e),
        },
        DataType::MapOf(m) => {
            let key = match to_arrow_type(&m.key_type) {
                Ok(key) => key,
                Err(e) => {
                    return Err(e);
                },
            };
            let value = match to_arrow_type(&m.value_type) {
                Ok(value) => value,
                Err(e) => {
                    return Err(e);
                },
            };
            Ok(
                ArrowDataType::MapOf(
                    Box::new(new_map_entry_field(key, value, m.value_contains_null)),
                    false,
                ),
            )
        },
        DataType::Variant(s) => {
            if *t == DataType::unshredded_variant() {
                match try_kernel_struct_to_arrow_fields(s) {
                    Ok(fields) => Ok(ArrowDataType::Struct(fields)),
                    Err(e) => Err(e),
                }
            } else {
                Err(
                    ArrowError::SchemaError(
                        cat3(
                            "Incorrect Variant Schema: ",
                            t.text().as_str(),
                            ". Only the unshredded variant schema is supported right now.",
                        ),
                    ),
                )
            }
        },
    }
}

fn new_map_entry_field(key: ArrowDataType, value: ArrowDataType, value_nullable: bool) -> (r:
    ArrowField)
    ensures
        r@ == map_entry_field(key@, value@, value_nullable),
{
    let mut fields: Vec<ArrowField> = Vec::new();
    fields.push(new_arrow_field("key", key, false));
    fields.push(new_arrow_field("value", value, value_nullable));
    proof {
        lemma_arrow_fields_view(fields@);
        assert(arrow_fields_view(fields@) =~= seq![
            plain_arrow_field("key"@, key@, false),
            plain_arrow_field("value"@, value@, value_nullable),
        ]);
    }
    new_arrow_field("key_value", ArrowDataType::Struct(fields), false)
}

proof fn lemma_entries_to_arrow_fail(entries: Seq<EntryV>, n: int)
    requires
        0 <= n <= entries.len(),
        entries_to_arrow(entries.take(n)) is Err,
    ensures
        entries_to_arrow(entries) == entries_to_arrow(entries.take(n)),
    decreases entries.len(),
{
    if n == entries.len() {
        assert(entries.take(n) =~= entries);
    } else {
        assert(entries.drop_last().take(n) =~= entries.take(n));
        lemma_entries_to_arrow_fail(entries.drop_last(), n);
    }
}

/// Converts the fields of a struct type to Arrow fields.
fn try_kernel_struct_to_arrow_fields(s: &StructType) -> (r: Result<Vec<ArrowField>, ArrowError>)
    ensures
        match r {
            Ok(fields) => entries_to_arrow(s@.entries) == Ok::<Seq<ArrowFieldV>, ArrowErrorV>(
                arrow_fields_view(fields@),
            ),
            Err(e) => entries_to_arrow(s@.entries) == Err::<Seq<ArrowFieldV>, ArrowErrorV>(e@),
        },
    decreases s@,
{
    let n: usize = s.num_fields();
    let ghost entries = s@.entries;
    let mut fields: Vec<ArrowField> = Vec::new();
    let mut i: usize = 0;
    while i < n
        invariant
            i <= n,
            n == entries.len(),
            entries == s@.entries,
            entries_to_arrow(entries.take(i as int)) == Ok::<Seq<ArrowFieldV>, ArrowErrorV>(
                arrow_fields_view(fields@),
            ),
        decreases n - i,
    {
        proof {
            lemma_struct_parts(s@, i as int);
            assert(entries.take(i + 1).drop_last() =~= entries.take(i as int));
            assert(entries.take(i + 1).last() == entries[i as int]);
        }
        if let Some(field) = s.field_at_index(i) {
            match to_arrow_field(field) {
                Ok(f) => {
                    let ghost before = fields@;
                    fields.push(f);
                    assert(fields@.drop_last() =~= before);
                },
                Err(e) => {
                    proof {
                        lemma_entries_to_arrow_fail(entries, i + 1);
                    }
                    return Err(e);
                },
            }
        }
        i = i + 1;
    }
    assert(entries.take(n as int) =~= entries);
    Ok(fields)
}

fn to_arrow_field(f: &StructField) -> (r: Result<ArrowField, ArrowError>)
    ensures
        match r {
            Ok(a) => field_to_arrow(f@) == Ok::<ArrowFieldV, ArrowErrorV>(a@),
            Err(e) => field_to_arrow(f@) == Err::<ArrowFieldV, ArrowErrorV>(e@),
        },
    decreases f@,
{
    assert(decreases_to!(f@ => f@.data_type));
    let metadata = kernel_metadata_to_arrow_metadata(f);
    match to_arrow_type(&f.data_type) {
        Ok(data_type) => Ok(
            ArrowField { name: f.name.clone(), data_type, nullable: f.nullable, metadata },
        ),
        Err(e) => Err(e),
    }
}

fn utc(zone: &String) -> (r: bool)
    ensures
        r == is_utc(zone@),
{
    let chars = chars_of(zone.as_str());
    chars.len() == 3 && (chars[0] == 'u' || chars[0] == 'U') && (chars[1] == 't' || chars[1] == 'T')
        && (chars[2] == 'c' || chars[2] == 'C')
}

fn from_arrow_list(field: &ArrowField) -> (r: Result<DataType, ArrowError>)
    requires
        maps_well_formed(field.data_type@),
    ensures
        match r {
            Ok(t) => match type_from_arrow(field.data_type@) {
                Ok(element) => t@ == TypeV::Array(
                    Box::new(
                        ArrayV { label: "array"@, element, contains_null: field.nullable },
                    ),
                ),
                Err(_) => false,
            },
            Err(e) => type_from_arrow(field.data_type@) == Err::<TypeV, ArrowErrorV>(e@),
        },
    decreases field, 0int,
{
    match from_arrow_type(&field.data_type) {
        Ok(element) => Ok(DataType::Array(Box::new(ArrayType::new(element, field.nullable)))),
        Err(e) => Err(e),
    }
}

fn from_arrow_type(t: &ArrowDataType) -> (r: Result<DataType, ArrowError>)
    requires
        maps_well_formed(t@),
    ensures
        match r {
            Ok(d) => type_from_arrow(t@) == Ok::<TypeV, ArrowErrorV>(d@),
            Err(e) => type_from_arrow(t@) == Err::<TypeV, ArrowErrorV>(e@),
        },
    decreases t, 1int,
{
    match t {
        ArrowDataType::Utf8 => Ok(DataType::string()),
        ArrowDataType::LargeUtf8 => Ok(DataType::string()),
        ArrowDataType::Utf8View => Ok(DataType::string()),
        ArrowDataType::Int64 => Ok(DataType::long()),
        ArrowDataType::Int32 => Ok(DataType::integer()),
        ArrowDataType::Int16 => Ok(DataType::short()),
        ArrowDataType::Int8 => Ok(DataType::byte()),
        ArrowDataType::UInt64 => Ok(DataType::long()),
        ArrowDataType::UInt32 => Ok(DataType::integer()),
        ArrowDataType::UInt16 => Ok(DataType::short()),
        ArrowDataType::UInt8 => Ok(DataType::byte()),
        ArrowDataType::Float16 => Ok(DataType::float16()),
        ArrowDataType::Float32 => Ok(DataType::float()),
        ArrowDataType::Float64 => Ok(DataType::double()),
        ArrowDataType::Boolean => Ok(DataType::boolean()),
        ArrowDataType::Binary => Ok(DataType::binary()),
        ArrowDataType::FixedSizeBinary(_) => Ok(DataType::binary()),
        ArrowDataType::LargeBinary => Ok(DataType::binary()),
        ArrowDataType::BinaryView => Ok(DataType::binary()),
        ArrowDataType::Decimal128(p, s) => {
            if *s < 0 {
                return Err(
                    ArrowError::ExternalError(
                        Box::new(
                            Error::InvalidDecimal(
                                owned("Negative scales are not supported in Delta"),
                            ),
                        ),
                    ),
                );
            }
            match DataType::decimal(*p, *s as u8) {
                Ok(d) => Ok(d),
                Err(e) => Err(ArrowError::ExternalError(Box::new(e))),
            }
        },
        ArrowDataType::Date32 => Ok(DataType::date()),
        ArrowDataType::Date64 => Ok(DataType::date()),
        ArrowDataType::Timestamp(unit, zone) => {
            let precise = match unit {
                TimeUnit::Microsecond | TimeUnit::Nanosecond => true,
                _ => false,
            };
            match zone {
                None => if precise {
                    return Ok(DataType::timestamp_ntz());
                },
                Some(tz) => if precise && utc(tz) {
                    return Ok(DataType::timestamp());
                },
            }
            let text = write_timestamp(*unit, zone.as_ref());
            Err(
                ArrowError::SchemaError(cat2("Invalid data type for Delta Lake: ", text.as_str())),
            )
        },
        ArrowDataType::Struct(fields) => {
            assert(decreases_to!(t => fields));
            match from_arrow_fields(fields) {
                Ok(s) => Ok(DataType::Struct(Box::new(s))),
                Err(e) => Err(e),
            }
        },
        ArrowDataType::List(field) => {
            assert(field@.data_type == field.data_type@);
            from_arrow_list(field)
        },
        ArrowDataType::ListView(field) => {
            assert(field@.data_type == field.data_type@);
            from_arrow_list(field)
        },
        ArrowDataType::LargeList(field) => {
            assert(field@.data_type == field.data_type@);
            from_arrow_list(field)
        },
        ArrowDataType::LargeListView(field) => {
            assert(field@.data_type == field.data_type@);
            from_arrow_list(field)
        },
        ArrowDataType::FixedSizeList(field, _) => {
            assert(field@.data_type == field.data_type@);
            from_arrow_list(field)
        },
        ArrowDataType::MapOf(field, _) => {
            assert(field@.data_type == field.data_type@);
            match &field.data_type {
                ArrowDataType::Struct(struct_fields) => {
                    proof {
                        lemma_arrow_fields_view(struct_fields@);
                        assert(arrow_fields_view(struct_fields@)[0] == struct_fields@[0]@);
                        assert(arrow_fields_view(struct_fields@)[1] == struct_fields@[1]@);
                        assert(struct_fields@[0]@.data_type == struct_fields@[0].data_type@);
                        assert(struct_fields@[1]@.data_type == struct_fields@[1].data_type@);
                        assert(decreases_to!(t => field));
                        assert(decreases_to!(field => field.data_type));
                        assert(decreases_to!(field.data_type => struct_fields));
                        assert(decreases_to!(struct_fields => struct_fields@));
                        assert(decreases_to!(struct_fields@ => struct_fields@[0]));
                        assert(decreases_to!(struct_fields@ => struct_fields@[1]));
                        assert(decreases_to!(struct_fields@[0] => struct_fields@[0].data_type));
                        assert(decreases_to!(struct_fields@[1] => struct_fields@[1].data_type));
                    }
                    let key_type = match from_arrow_type(&struct_fields[0].data_type) {
                        Ok(d) => d,
                        Err(e) => {
                            return Err(e);
                        },
                    };
                    let value_type = match from_arrow_type(&struct_fields[1].data_type) {
                        Ok(d) => d,
                        Err(e) => {
                            return Err(e);
                        },
                    };
                    let value_type_nullable = struct_fields[1].nullable;
                    Ok(
                        DataType::MapOf(
                            Box::new(MapType::new(key_type, value_type, value_type_nullable)),
                        ),
                    )
                },
                _ => {
                    assert(false);
                    Ok(DataType::string())
                },
            }
        },
        // a dictionary only stores the values of an array in another way
        ArrowDataType::Dictionary(_, value_type) => from_arrow_type(value_type),
        ArrowDataType::Other(text) => Err(
            ArrowError::SchemaError(cat2("Invalid data type for Delta Lake: ", text.as_str())),
        ),
    }
}

proof fn lemma_all_maps(fields: Seq<ArrowFieldV>, i: int)
    requires
        all_maps_well_formed(fields),
        0 <= i < fields.len(),
    ensures
        maps_well_formed(fields[i].data_type),
    decreases fields.len(),
{
    if i < fields.len() - 1 {
        lemma_all_maps(fields.drop_last(), i);
    }
}

fn from_arrow_fields(fields: &Vec<ArrowField>) -> (r: Result<StructType, ArrowError>)
    requires
        all_maps_well_formed(arrow_fields_view(fields@)),
    ensures
        match r {
            Ok(s) => schema_from_arrow(arrow_fields_view(fields@)) == Ok::<StructV, ArrowErrorV>(
                s@,
            ),
            Err(e) => schema_from_arrow(arrow_fields_view(fields@)) == Err::<StructV, ArrowErrorV>(
                e@,
            ),
        },
    decreases fields, 0int,
{
    let ghost views = arrow_fields_view(fields@);
    let mut results: Vec<Result<StructField, Error>> = Vec::new();
    let mut i: usize = 0;
    proof {
        lemma_arrow_fields_view(fields@);
        assert(result_views(results@) =~= seq![]);
    }
    while i < fields.len()
        invariant
            i <= fields@.len(),
            views == arrow_fields_view(fields@),
            views.len() == fields@.len(),
            forall|j: int| 0 <= j < fields@.len() ==> #[trigger] views[j] == fields@[j]@,
            all_maps_well_formed(views),
            result_views(results@) == fields_from_arrow(views.take(i as int)),
        decreases fields@.len() - i,
    {
        let ghost before = result_views(results@);
        proof {
            assert(views.take(i + 1).drop_last() =~= views.take(i as int));
            assert(views.take(i + 1).last() == views[i as int]);
            lemma_all_maps(views, i as int);
            assert(decreases_to!(fields => fields@));
            assert(decreases_to!(fields@ => fields@[i as int]));
        }
        let result = match from_arrow_field(&fields[i]) {
            Ok(f) => Ok(f),
            Err(e) => Err(Error::Arrow(Box::new(e))),
        };
        let ghost item = result_view(result);
        results.push(result);
        assert(result_views(results@) =~= before.push(item));
        i = i + 1;
    }
    assert(views.take(i as int) =~= views);
    match StructType::try_from_results(results) {
        Ok(s) => Ok(s),
        Err(e) => Err(ArrowError::ExternalError(Box::new(e))),
    }
}

fn from_arrow_field(arrow_field: &ArrowField) -> (r: Result<StructField, ArrowError>)
    requires
        maps_well_formed(arrow_field.data_type@),
    ensures
        match r {
            Ok(f) => field_from_arrow(arrow_field@) == Ok::<FieldV, ArrowErrorV>(f@),
            Err(e) => field_from_arrow(arrow_field@) == Err::<FieldV, ArrowErrorV>(e@),
        },
    decreases arrow_field, 0int,
{
    // Both the key of Arrow and that of Delta can be there. With different values, one would be
    // lost without notice.
    let arrow_id = arrow_field.metadata.get("PARQUET:field_id");
    let kernel_id = arrow_field.metadata.get(ColumnMetadataKey::ParquetFieldId.as_ref());
    if let (Some(a), Some(k)) = (arrow_id, kernel_id) {
        if !text_eq(a.as_str(), k.as_str()) {
            let mut text = cat5(
                "Field '",
                arrow_field.name.as_str(),
                "': conflicting parquet field IDs: '",
                a.as_str(),
                "' (",
            );
            text.push_str("PARQUET:field_id");
            text.push_str(") vs '");
            text.push_str(k.as_str());
            text.push_str("' (");
            text.push_str(ColumnMetadataKey::ParquetFieldId.as_ref());
            text.push_str(")");
            return Err(ArrowError::SchemaError(text));
        }
    }
    let data_type = match from_arrow_type(&arrow_field.data_type) {
        Ok(d) => d,
        Err(e) => {
            return Err(e);
        },
    };
    let metadata = arrow_metadata_to_kernel_metadata(&arrow_field.metadata);
    Ok(
        StructField {
            name: arrow_field.name.clone(),
            data_type,
            nullable: arrow_field.nullable,
            metadata,
        },
    )
}

fn arrow_metadata_to_kernel_metadata(m: &TextMap<String>) -> (r: MetadataMap)
    ensures
        meta_view(r@) == metadata_from_arrow(string_map_view(m@)),
{
    let n: usize = m.len();
    let ghost list = m.list();
    let ghost f = |s: Seq<char>| MetaV::String(s);
    let ghost id_key = arrow_id_key();
    let mut r: MetadataMap = TextMap::new();
    let mut id: Option<String> = None;
    let mut i: usize = 0;
    proof {
        assert(list.take(0) =~= seq![]);
        assert(meta_view(r@) =~= string_map_view(map_of(list.take(0))).remove(id_key).map_values(f));
    }
    while i < n
        invariant
            i <= n,
            n == list.len(),
            list == m.list(),
            id_key == arrow_id_key(),
            f == (|s: Seq<char>| MetaV::String(s)),
            meta_view(r@) == string_map_view(map_of(list.take(i as int))).remove(id_key).map_values(
                f,
            ),
            match id {
                Some(s) => map_of(list.take(i as int)).contains_key(id_key) && s@ == map_of(
                    list.take(i as int),
                )[id_key]@,
                None => !map_of(list.take(i as int)).contains_key(id_key),
            },
        decreases n - i,
    {
        let (key, value) = m.entry(i);
        let ghost before = map_of(list.take(i as int));
        let ghost after = map_of(list.take(i + 1));
        proof {
            assert(list.take(i + 1).drop_last() =~= list.take(i as int));
            assert(list.take(i + 1).last() == list[i as int]);
            assert(after == before.insert(key@, *value));
        }
        if text_eq(key.as_str(), "PARQUET:field_id") {
            id = Some(value.clone());
            assert(string_map_view(after).remove(id_key).map_values(f) =~= string_map_view(
                before,
            ).remove(id_key).map_values(f));
        } else {
            let ghost so_far = r@;
            r.insert(key.clone(), MetadataValue::String(value.clone()));
            assert(meta_view(r@) =~= meta_view(so_far).insert(key@, MetaV::String(value@)));
            assert(string_map_view(after).remove(id_key).map_values(f) =~= string_map_view(
                before,
            ).remove(id_key).map_values(f).insert(key@, MetaV::String(value@)));
        }
        i = i + 1;
    }
    assert(list.take(n as int) =~= list);
    if let Some(text) = id {
        let ghost so_far = r@;
        r.insert(
            owned(ColumnMetadataKey::ParquetFieldId.as_ref()),
            MetadataValue::String(text),
        );
        assert(meta_view(r@) =~= meta_view(so_far).insert(delta_id_key(), MetaV::String(text@)));
    }
    r
}

/// Convert a kernel type into an arrow type (implemented for all types that implement
/// [`TryFromKernel`])
pub trait TryIntoArrow<ArrowType>: Sized {
    /// What can come of the conversion.
    spec fn gives_arrow(self, r: Result<ArrowType, ArrowError>) -> bool;

    fn try_into_arrow(self) -> (r: Result<ArrowType, ArrowError>)
        ensures
            self.gives_arrow(r),
    ;
}

/// Convert an arrow type into a kernel type
pub trait TryFromArrow<ArrowType>: Sized {
    /// Whether the conversion can be asked for.
    spec fn can_convert(t: ArrowType) -> bool;

    /// What can come of the conversion.
    spec fn gives(t: ArrowType, r: Result<Self, ArrowError>) -> bool;

    fn try_from_arrow(t: ArrowType) -> (r: Result<Self, ArrowError>)
        requires
            Self::can_convert(t),
        ensures
            Self::gives(t, r),
    ;
}

/// Convert an arrow type into a kernel type (implemented for all types that implement
/// [`TryFromArrow`])
pub trait TryIntoKernel<KernelType>: Sized {
    /// Whether the conversion can be asked for.
    spec fn can_convert_into(self) -> bool;

    /// What can come of the conversion.
    spec fn gives_kernel(self, r: Result<KernelType, ArrowError>) -> bool;

    fn try_into_kernel(self) -> (r: Result<KernelType, ArrowError>)
        requires
            self.can_convert_into(),
        ensures
            self.gives_kernel(r),
    ;
}

/// Convert a kernel type into an arrow type
pub trait TryFromKernel<KernelType>: Sized {
    /// What can come of the conversion.
    spec fn gives(t: KernelType, r: Result<Self, ArrowError>) -> bool;

    fn try_from_kernel(t: KernelType) -> (r: Result<Self, ArrowError>)
        ensures
            Self::gives(t, r),
    ;
}

impl<KernelType, ArrowType: TryFromKernel<KernelType>> TryIntoArrow<ArrowType> for KernelType {
    open spec fn gives_arrow(self, r: Result<ArrowType, ArrowError>) -> bool {
        ArrowType::gives(self, r)
    }

    fn try_into_arrow(self) -> (r: Result<ArrowType, ArrowError>) {
        ArrowType::try_from_kernel(self)
    }
}

impl<KernelType: TryFromArrow<ArrowType>, ArrowType> TryIntoKernel<KernelType> for ArrowType {
    open spec fn can_convert_into(self) -> bool {
        KernelType::can_convert(self)
    }

    open spec fn gives_kernel(self, r: Result<KernelType, ArrowError>) -> bool {
        KernelType::gives(self, r)
    }

    fn try_into_kernel(self) -> (r: Result<KernelType, ArrowError>) {
        KernelType::try_from_arrow(self)
    }
}

impl TryFromKernel<&StructType> for ArrowSchema {
    open spec fn gives(s: &StructType, r: Result<Self, ArrowError>) -> bool {
        match r {
            Ok(a) => entries_to_arrow(s@.entries) == Ok::<Seq<ArrowFieldV>, ArrowErrorV>(a@),
            Err(e) => entries_to_arrow(s@.entries) == Err::<Seq<ArrowFieldV>, ArrowErrorV>(e@),
        }
    }

    fn try_from_kernel(s: &StructType) -> (r: Result<Self, ArrowError>) {
        match try_kernel_struct_to_arrow_fields(s) {
            Ok(fields) => Ok(ArrowSchema { fields }),
            Err(e) => Err(e),
        }
    }
}

impl TryFromKernel<&StructField> for ArrowField {
    open spec fn gives(f: &StructField, r: Result<Self, ArrowError>) -> bool {
        match r {
            Ok(a) => field_to_arrow(f@) == Ok::<ArrowFieldV, ArrowErrorV>(a@),
            Err(e) => field_to_arrow(f@) == Err::<ArrowFieldV, ArrowErrorV>(e@),
        }
    }

    fn try_from_kernel(f: &StructField) -> (r: Result<Self, ArrowError>) {
        to_arrow_field(f)
    }
}

impl TryFromKernel<&ArrayType> for ArrowField {
    open spec fn gives(a: &ArrayType, r: Result<Self, ArrowError>) -> bool {
        match type_to_arrow(a@.element) {
            Ok(element) => r matches Ok(f) && f@ == plain_arrow_field(
                "element"@,
                element,
                a@.contains_null,
            ),
            Err(expected) => r matches Err(e) && e@ == expected,
        }
    }

    fn try_from_kernel(a: &ArrayType) -> (r: Result<Self, ArrowError>) {
        match to_arrow_type(&a.element_type) {
            Ok(element) => Ok(new_arrow_field("element", element, a.contains_null)),
            Err(e) => Err(e),
        }
    }
}

impl TryFromKernel<&MapType> for ArrowField {
    open spec fn gives(m: &MapType, r: Result<Self, ArrowError>) -> bool {
        match (type_to_arrow(m@.key), type_to_arrow(m@.value)) {
            (Ok(key), Ok(value)) => r matches Ok(f) && f@ == map_entry_field(
                key,
                value,
                m@.value_contains_null,
            ),
            (Err(expected), _) => r matches Err(e) && e@ == expected,
            (_, Err(expected)) => r matches Err(e) && e@ == expected,
        }
    }

    fn try_from_kernel(m: &MapType) -> (r: Result<Self, ArrowError>) {
        let key = match to_arrow_type(&m.key_type) {
            Ok(key) => key,
            Err(e) => {
                return Err(e);
            },
        };
        match to_arrow_type(&m.value_type) {
            Ok(value) => Ok(new_map_entry_field(key, value, m.value_contains_null)),
            Err(e) => Err(e),
        }
    }
}

impl TryFromKernel<&DataType> for ArrowDataType {
    open spec fn gives(t: &DataType, r: Result<Self, ArrowError>) -> bool {
        match r {
            Ok(a) => type_to_arrow(t@) == Ok::<ArrowV, ArrowErrorV>(a@),
            Err(e) => type_to_arrow(t@) == Err::<ArrowV, ArrowErrorV>(e@),
        }
    }

    fn try_from_kernel(t: &DataType) -> (r: Result<Self, ArrowError>) {
        to_arrow_type(t)
    }
}

impl TryFromArrow<&ArrowSchema> for StructType {
    open spec fn can_convert(t: &ArrowSchema) -> bool {
        all_maps_well_formed(t@)
    }

    open spec fn gives(t: &ArrowSchema, r: Result<Self, ArrowError>) -> bool {
        match r {
            Ok(s) => schema_from_arrow(t@) == Ok::<StructV, ArrowErrorV>(s@),
            Err(e) => schema_from_arrow(t@) == Err::<StructV, ArrowErrorV>(e@),
        }
    }

    fn try_from_arrow(t: &ArrowSchema) -> (r: Result<Self, ArrowError>) {
        from_arrow_fields(&t.fields)
    }
}

impl TryFromArrow<ArrowSchemaRef> for StructType {
    open spec fn can_convert(t: ArrowSchemaRef) -> bool {
        all_maps_well_formed(t@)
    }

    open spec fn gives(t: ArrowSchemaRef, r: Result<Self, ArrowError>) -> bool {
        match r {
            Ok(s) => schema_from_arrow(t@) == Ok::<StructV, ArrowErrorV>(s@),
            Err(e) => schema_from_arrow(t@) == Err::<StructV, ArrowErrorV>(e@),
        }
    }

    fn try_from_arrow(t: ArrowSchemaRef) -> (r: Result<Self, ArrowError>) {
        from_arrow_fields(&t.fields)
    }
}

impl TryFromArrow<&ArrowField> for StructField {
    open spec fn can_convert(t: &ArrowField) -> bool {
        maps_well_formed(t@.data_type)
    }

    open spec fn gives(t: &ArrowField, r: Result<Self, ArrowError>) -> bool {
        match r {
            Ok(f) => field_from_arrow(t@) == Ok::<FieldV, ArrowErrorV>(f@),
            Err(e) => field_from_arrow(t@) == Err::<FieldV, ArrowErrorV>(e@),
        }
    }

    fn try_from_arrow(t: &ArrowField) -> (r: Result<Self, ArrowError>) {
        from_arrow_field(t)
    }
}

impl TryFromArrow<&ArrowDataType> for DataType {
    open spec fn can_convert(t: &ArrowDataType) -> bool {
        maps_well_formed(t@)
    }

    open spec fn gives(t: &ArrowDataType, r: Result<Self, ArrowError>) -> bool {
        match r {
            Ok(d) => type_from_arrow(t@) == Ok::<TypeV, ArrowErrorV>(d@),
            Err(e) => type_from_arrow(t@) == Err::<TypeV, ArrowErrorV>(e@),
        }
    }

    fn try_from_arrow(t: &ArrowDataType) -> (r: Result<Self, ArrowError>) {
        from_arrow_type(t)
    }
}

} // verus!
