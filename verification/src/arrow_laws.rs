//! What holds of the conversions between Arrow schemas and those of Delta tables.
use vstd::prelude::*;

#[allow(unused_imports)]
use crate::arrow::{
    arrow_id_key, delta_id_key, entries_to_arrow, field_from_arrow, field_to_arrow,
    fields_from_arrow, is_utc, maps_well_formed, metadata_from_arrow, metadata_to_arrow,
    schema_from_arrow, type_from_arrow, type_to_arrow, ArrowDataType, ArrowFieldV, ArrowV, ListKind,
    TimeUnit,
};
#[allow(unused_imports)]
use crate::error::{ArrowErrorV, ErrorV};
#[allow(unused_imports)]
use crate::schema::data_type::unshredded;
#[allow(unused_imports)]
use crate::schema::display::type_text;
#[allow(unused_imports)]
use crate::schema::metadata::{meta_text, quoted, ColumnMetadataKey, MetaV};
#[allow(unused_imports)]
use crate::schema::primitive::{valid_decimal, DecimalType, PrimitiveType};
#[allow(unused_imports)]
use crate::schema::struct_type::{
    checked_struct, checked_struct_of_results, fields_of, ok_fields, ok_len,
};
#[allow(unused_imports)]
use crate::schema::types::{
    lemma_type_parts, same_type, ArrayV, EntryV, FieldV, MapV, StructV, TypeV,
};

verus! {

/// Whether a type is one that Arrow has too: its labels are the usual ones, its structs passed the
/// checks, no variant is in it, and the metadata of its fields are strings.
pub open spec fn plain_type(t: TypeV) -> bool
    decreases t,
{
    match t {
        TypeV::Primitive(PrimitiveType::Decimal(d)) => valid_decimal(
            d.digits(),
            d.fraction_digits(),
        ),
        TypeV::Primitive(_) => true,
        TypeV::Array(a) => a.label == "array"@ && plain_type(a.element),
        TypeV::MapOf(m) => m.label == "map"@ && plain_type(m.key) && plain_type(m.value),
        TypeV::Struct(s) => plain_struct(*s),
        TypeV::Variant(_) => false,
    }
}

/// Whether a struct type is one that Arrow has too.
pub open spec fn plain_struct(s: StructV) -> bool
    decreases s,
{
    checked_struct(fields_of(s)) == Ok::<StructV, ErrorV>(s) && plain_entries(s.entries)
}

/// Whether fields are such that Arrow has them too.
pub open spec fn plain_entries(entries: Seq<EntryV>) -> bool
    decreases entries,
{
    entries.len() > 0 ==> plain_entries(entries.drop_last()) && plain_field(entries.last().field)
}

/// Whether a field is one that Arrow has too.
pub open spec fn plain_field(f: FieldV) -> bool
    decreases f,
{
    &&& plain_type(f.data_type)
    &&& !f.metadata.contains_key(arrow_id_key())
    &&& forall|k: Seq<char>| #[trigger] f.metadata.contains_key(k) ==> f.metadata[k] is String
}

proof fn lemma_id_keys_differ()
    ensures
        arrow_id_key() != delta_id_key(),
{
    reveal_strlit("PARQUET:field_id");
    reveal_strlit("parquet.field.id");
    assert("PARQUET:field_id"@[0] == 'P');
    assert("parquet.field.id"@[0] == 'p');
}

proof fn lemma_metadata_round_trip(m: Map<Seq<char>, MetaV>)
    requires
        !m.contains_key(arrow_id_key()),
        forall|k: Seq<char>| #[trigger] m.contains_key(k) ==> m[k] is String,
    ensures
        metadata_from_arrow(metadata_to_arrow(m)) == m,
{
    lemma_id_keys_differ();
    let a = metadata_to_arrow(m);
    let b = metadata_from_arrow(a);
    assert forall|k: Seq<char>| b.contains_key(k) == m.contains_key(k) by {
        assert(m.remove(delta_id_key()).contains_key(k) == (k != delta_id_key() && m.contains_key(
            k,
        )));
    }
    assert forall|k: Seq<char>| #[trigger] b.contains_key(k) implies b[k] == m[k] by {
        assert(m[k] is String);
    }
    assert(b =~= m);
}

/// A data type converted to Arrow and back is the same.
pub proof fn law_arrow_type_round_trip(t: TypeV)
    requires
        plain_type(t),
    ensures
        type_to_arrow(t) is Ok,
        maps_well_formed(type_to_arrow(t)->Ok_0),
        type_from_arrow(type_to_arrow(t)->Ok_0) == Ok::<TypeV, ArrowErrorV>(t),
    decreases t,
{
    lemma_type_parts(t);
    match t {
        TypeV::Primitive(p) => {
            reveal_strlit("UTC");
            assert("UTC"@.len() == 3 && "UTC"@[0] == 'U' && "UTC"@[1] == 'T' && "UTC"@[2] == 'C');
            if let PrimitiveType::Decimal(d) = p {
                assert((d.fraction_digits() as i8) as u8 == d.fraction_digits());
                assert(DecimalType::of(d.digits(), d.fraction_digits()) == d);
            }
        },
        TypeV::Array(a) => {
            law_arrow_type_round_trip(a.element);
        },
        TypeV::MapOf(m) => {
            law_arrow_type_round_trip(m.key);
            law_arrow_type_round_trip(m.value);
        },
        TypeV::Struct(s) => {
            law_arrow_schema_round_trip(*s);
        },
        TypeV::Variant(_) => {},
    }
}

/// A schema converted to Arrow and back is the same.
pub proof fn law_arrow_schema_round_trip(s: StructV)
    requires
        plain_struct(s),
    ensures
        entries_to_arrow(s.entries) is Ok,
        crate::arrow::all_maps_well_formed(entries_to_arrow(s.entries)->Ok_0),
        schema_from_arrow(entries_to_arrow(s.entries)->Ok_0) == Ok::<StructV, ArrowErrorV>(s),
    decreases s,
{
    assert(decreases_to!(s => s.entries));
    lemma_entries_round_trip(s.entries);
    let results = fields_from_arrow(entries_to_arrow(s.entries)->Ok_0);
    lemma_all_ok(results);
    assert(ok_fields(results) =~= fields_of(s));
}

proof fn lemma_all_ok(results: Seq<Result<FieldV, ErrorV>>)
    requires
        forall|i: int| 0 <= i < results.len() ==> #[trigger] results[i] is Ok,
    ensures
        ok_len(results) == results.len(),
    decreases results.len(),
{
    if results.len() > 0 {
        let front = results.drop_last();
        assert forall|i: int| 0 <= i < front.len() implies #[trigger] front[i] is Ok by {
            assert(front[i] == results[i]);
        }
        lemma_all_ok(front);
    }
}

proof fn lemma_entries_round_trip(entries: Seq<EntryV>)
    requires
        plain_entries(entries),
    ensures
        entries_to_arrow(entries) is Ok,
        crate::arrow::all_maps_well_formed(entries_to_arrow(entries)->Ok_0),
        entries_to_arrow(entries)->Ok_0.len() == entries.len(),
        ({
            let results = fields_from_arrow(entries_to_arrow(entries)->Ok_0);
            &&& results.len() == entries.len()
            &&& forall|i: int|
                0 <= i < entries.len() ==> #[trigger] results[i] == Ok::<FieldV, ErrorV>(
                    entries[i].field,
                )
        }),
    decreases entries,
{
    if entries.len() > 0 {
        let front = entries.drop_last();
        lemma_entries_round_trip(front);
        let f = entries.last().field;
        assert(decreases_to!(entries => entries[entries.len() - 1]));
        assert(decreases_to!(entries.last() => entries.last().field));
        law_arrow_field_round_trip(f);
        let fields = entries_to_arrow(entries)->Ok_0;
        assert(fields.drop_last() =~= entries_to_arrow(front)->Ok_0);
        assert(fields.last() == field_to_arrow(f)->Ok_0);
        let before = fields_from_arrow(fields.drop_last());
        let results = fields_from_arrow(fields);
        assert forall|i: int| 0 <= i < entries.len() implies #[trigger] results[i] == Ok::<
            FieldV,
            ErrorV,
        >(entries[i].field) by {
            if i < front.len() {
                assert(results[i] == before[i]);
                assert(front[i] == entries[i]);
            }
        }
    }
}

/// A field converted to Arrow and back is the same.
pub proof fn law_arrow_field_round_trip(f: FieldV)
    requires
        plain_field(f),
    ensures
        field_to_arrow(f) is Ok,
        maps_well_formed(field_to_arrow(f)->Ok_0.data_type),
        field_from_arrow(field_to_arrow(f)->Ok_0) == Ok::<FieldV, ArrowErrorV>(f),
    decreases f,
{
    assert(decreases_to!(f => f.data_type));
    law_arrow_type_round_trip(f.data_type);
    lemma_metadata_round_trip(f.metadata);
    lemma_id_keys_differ();
    let a = metadata_to_arrow(f.metadata);
    assert(!a.contains_key(delta_id_key()));
}

/// The Parquet field id of a field stands in Arrow under the key that Arrow has for it and nowhere
/// else, and comes back from there as text.
pub proof fn law_field_id_kept(f: FieldV)
    requires
        field_to_arrow(f) is Ok,
        f.metadata.contains_key(delta_id_key()),
    ensures
        ({
            let a = field_to_arrow(f)->Ok_0;
            let id = meta_text(f.metadata[delta_id_key()]);
            &&& a.metadata.contains_key(arrow_id_key())
            &&& a.metadata[arrow_id_key()] == id
            &&& !a.metadata.contains_key(delta_id_key())
            &&& field_from_arrow(a) is Ok ==> field_from_arrow(a)->Ok_0.config(
                ColumnMetadataKey::ParquetFieldId,
            ) == Some(MetaV::String(id))
        }),
{
    lemma_id_keys_differ();
}

/// An Arrow field with two different Parquet field ids is refused.
pub proof fn law_conflicting_ids_refused(a: ArrowFieldV)
    requires
        a.metadata.contains_key(arrow_id_key()),
        a.metadata.contains_key(delta_id_key()),
        a.metadata[arrow_id_key()] != a.metadata[delta_id_key()],
    ensures
        field_from_arrow(a) matches Err(ArrowErrorV::SchemaError(_)),
{
}

/// Each primitive type goes to the Arrow type of the same kind and width.
pub proof fn law_primitive_types_in_arrow(p: PrimitiveType)
    ensures
        type_to_arrow(TypeV::Primitive(p)) == Ok::<ArrowV, ArrowErrorV>(
            match p {
                PrimitiveType::Byte => ArrowV::Leaf(ArrowDataType::Int8),
                PrimitiveType::Short => ArrowV::Leaf(ArrowDataType::Int16),
                PrimitiveType::Integer => ArrowV::Leaf(ArrowDataType::Int32),
                PrimitiveType::Long => ArrowV::Leaf(ArrowDataType::Int64),
                PrimitiveType::Float16 => ArrowV::Leaf(ArrowDataType::Float16),
                PrimitiveType::Float => ArrowV::Leaf(ArrowDataType::Float32),
                PrimitiveType::Double => ArrowV::Leaf(ArrowDataType::Float64),
                PrimitiveType::Boolean => ArrowV::Leaf(ArrowDataType::Boolean),
                PrimitiveType::String => ArrowV::Leaf(ArrowDataType::Utf8),
                PrimitiveType::Binary => ArrowV::Leaf(ArrowDataType::Binary),
                PrimitiveType::Date => ArrowV::Leaf(ArrowDataType::Date32),
                PrimitiveType::Timestamp => ArrowV::Timestamp(TimeUnit::Microsecond, Some("UTC"@)),
                PrimitiveType::TimestampNtz => ArrowV::Timestamp(TimeUnit::Microsecond, None),
                PrimitiveType::Decimal(d) => ArrowV::Leaf(
                    ArrowDataType::Decimal128(d.digits(), d.fraction_digits() as i8),
                ),
            },
        ),
{
}

/// Each Arrow type without parts is read as the type of the same kind and width, signed or not;
/// strings and binary values are read alike however Arrow lays them out.
pub proof fn law_leaf_types_from_arrow(t: ArrowDataType)
    ensures
        match t {
            ArrowDataType::Int8 | ArrowDataType::UInt8 => type_from_arrow(ArrowV::Leaf(t)) == Ok::<
                TypeV,
                ArrowErrorV,
            >(TypeV::Primitive(PrimitiveType::Byte)),
            ArrowDataType::Int16 | ArrowDataType::UInt16 => type_from_arrow(ArrowV::Leaf(t))
                == Ok::<TypeV, ArrowErrorV>(TypeV::Primitive(PrimitiveType::Short)),
            ArrowDataType::Int32 | ArrowDataType::UInt32 => type_from_arrow(ArrowV::Leaf(t))
                == Ok::<TypeV, ArrowErrorV>(TypeV::Primitive(PrimitiveType::Integer)),
            ArrowDataType::Int64 | ArrowDataType::UInt64 => type_from_arrow(ArrowV::Leaf(t))
                == Ok::<TypeV, ArrowErrorV>(TypeV::Primitive(PrimitiveType::Long)),
            ArrowDataType::Float16 => type_from_arrow(ArrowV::Leaf(t)) == Ok::<TypeV, ArrowErrorV>(
                TypeV::Primitive(PrimitiveType::Float16),
            ),
            ArrowDataType::Float32 => type_from_arrow(ArrowV::Leaf(t)) == Ok::<TypeV, ArrowErrorV>(
                TypeV::Primitive(PrimitiveType::Float),
            ),
            ArrowDataType::Float64 => type_from_arrow(ArrowV::Leaf(t)) == Ok::<TypeV, ArrowErrorV>(
                TypeV::Primitive(PrimitiveType::Double),
            ),
            ArrowDataType::Boolean => type_from_arrow(ArrowV::Leaf(t)) == Ok::<TypeV, ArrowErrorV>(
                TypeV::Primitive(PrimitiveType::Boolean),
            ),
            ArrowDataType::Utf8 | ArrowDataType::LargeUtf8 | ArrowDataType::Utf8View =>
                type_from_arrow(ArrowV::Leaf(t)) == Ok::<TypeV, ArrowErrorV>(
                TypeV::Primitive(PrimitiveType::String),
            ),
            ArrowDataType::Binary
            | ArrowDataType::FixedSizeBinary(_)
            | ArrowDataType::LargeBinary
            | ArrowDataType::BinaryView => type_from_arrow(ArrowV::Leaf(t)) == Ok::<
                TypeV,
                ArrowErrorV,
            >(TypeV::Primitive(PrimitiveType::Binary)),
            ArrowDataType::Date32 | ArrowDataType::Date64 => type_from_arrow(ArrowV::Leaf(t))
                == Ok::<TypeV, ArrowErrorV>(TypeV::Primitive(PrimitiveType::Date)),
            ArrowDataType::Decimal128(precision, scale) => {
                &&& type_from_arrow(ArrowV::Leaf(t)) is Ok <==> 1 <= precision <= 38 && 0 <= scale
                    <= precision
                &&& type_from_arrow(ArrowV::Leaf(t)) matches Ok(d) ==> {
                    &&& d matches TypeV::Primitive(PrimitiveType::Decimal(_))
                    &&& d->Primitive_0->Decimal_0.digits() == precision
                    &&& d->Primitive_0->Decimal_0.fraction_digits() == scale
                }
                &&& scale < 0 ==> type_from_arrow(ArrowV::Leaf(t)) == Err::<TypeV, ArrowErrorV>(
                    ArrowErrorV::ExternalError(
                        Box::new(
                            ErrorV::InvalidDecimal("Negative scales are not supported in Delta"@),
                        ),
                    ),
                )
            },
            _ => true,
        },
{
}

/// Times in microseconds and nanoseconds are read, without a time zone as the type without one, in UTC
/// as the other one; nothing else is.
pub proof fn law_timestamps_from_arrow(unit: TimeUnit, zone: Option<Seq<char>>)
    ensures
        ({
            let r = type_from_arrow(ArrowV::Timestamp(unit, zone));
            &&& r is Ok <==> (unit is Microsecond || unit is Nanosecond) && (zone is None || is_utc(
                zone->0,
            ))
            &&& r is Ok && zone is None ==> r->Ok_0 == TypeV::Primitive(PrimitiveType::TimestampNtz)
            &&& r is Ok && zone is Some ==> r->Ok_0 == TypeV::Primitive(PrimitiveType::Timestamp)
        }),
{
}

/// UTC is told whatever its letters are, capital or small, and no other time zone is taken for it.
pub proof fn law_utc_in_any_case(zone: Seq<char>)
    ensures
        is_utc(zone) <==> zone == seq!['U', 'T', 'C'] || zone == seq!['u', 't', 'c'] || zone == seq![
            'U',
            't',
            'c',
        ] || zone == seq!['u', 'T', 'c'] || zone == seq!['u', 't', 'C'] || zone == seq![
            'U',
            'T',
            'c',
        ] || zone == seq!['U', 't', 'C'] || zone == seq!['u', 'T', 'C'],
{
    if is_utc(zone) {
        assert(zone =~= seq![zone[0], zone[1], zone[2]]);
    }
}

/// An array goes to a list with its element, and a map to a map with its key and its value, each in
/// its own place and with its own nullability.
pub proof fn law_arrays_and_maps_in_arrow(a: ArrayV, m: MapV)
    ensures
        type_to_arrow(TypeV::Array(Box::new(a))) is Ok <==> type_to_arrow(a.element) is Ok,
        type_to_arrow(TypeV::Array(Box::new(a))) matches Ok(t) ==> {
            &&& t matches ArrowV::Listed(ListKind::List, f)
            &&& t->Listed_1.name == "element"@
            &&& type_to_arrow(a.element) == Ok::<ArrowV, ArrowErrorV>(t->Listed_1.data_type)
            &&& t->Listed_1.nullable == a.contains_null
        },
        type_to_arrow(TypeV::MapOf(Box::new(m))) is Ok <==> type_to_arrow(m.key) is Ok
            && type_to_arrow(m.value) is Ok,
        type_to_arrow(TypeV::MapOf(Box::new(m))) matches Ok(t) ==> {
            &&& t matches ArrowV::MapOf(_, sorted)
            &&& !t->MapOf_1
            &&& !t->MapOf_0.nullable
            &&& t->MapOf_0.name == "key_value"@
            &&& t->MapOf_0.data_type matches ArrowV::Struct(_)
            &&& t->MapOf_0.data_type->Struct_0.len() == 2
            &&& t->MapOf_0.data_type->Struct_0[0].name == "key"@
            &&& t->MapOf_0.data_type->Struct_0[1].name == "value"@
            &&& type_to_arrow(m.key) == Ok::<ArrowV, ArrowErrorV>(
                t->MapOf_0.data_type->Struct_0[0].data_type,
            )
            &&& type_to_arrow(m.value) == Ok::<ArrowV, ArrowErrorV>(
                t->MapOf_0.data_type->Struct_0[1].data_type,
            )
            &&& !t->MapOf_0.data_type->Struct_0[0].nullable
            &&& t->MapOf_0.data_type->Struct_0[1].nullable == m.value_contains_null
        },
{
    lemma_type_parts(TypeV::Array(Box::new(a)));
    lemma_type_parts(TypeV::MapOf(Box::new(m)));
}

/// A list of any kind is read as an array of its element, a map as one with its key and its value in
/// their places, and a dictionary as its values.
pub proof fn law_lists_maps_and_dictionaries_from_arrow(
    kind: ListKind,
    f: ArrowFieldV,
    k: ArrowFieldV,
    v: ArrowFieldV,
    name: Seq<char>,
    nullable: bool,
    metadata: Map<Seq<char>, Seq<char>>,
    sorted: bool,
)
    ensures
        ({
            let list = type_from_arrow(ArrowV::Listed(kind, Box::new(f)));
            &&& list is Ok <==> type_from_arrow(f.data_type) is Ok
            &&& list matches Ok(t) ==> {
                &&& t matches TypeV::Array(_)
                &&& t->Array_0.label == "array"@
                &&& type_from_arrow(f.data_type) == Ok::<TypeV, ArrowErrorV>(t->Array_0.element)
                &&& t->Array_0.contains_null == f.nullable
            }
        }),
        ({
            let map = type_from_arrow(
                ArrowV::MapOf(
                    Box::new(
                        ArrowFieldV {
                            name,
                            data_type: ArrowV::Struct(seq![k, v]),
                            nullable,
                            metadata,
                        },
                    ),
                    sorted,
                ),
            );
            &&& map is Ok <==> type_from_arrow(k.data_type) is Ok && type_from_arrow(
                v.data_type,
            ) is Ok
            &&& map matches Ok(t) ==> {
                &&& t matches TypeV::MapOf(_)
                &&& t->MapOf_0.label == "map"@
                &&& type_from_arrow(k.data_type) == Ok::<TypeV, ArrowErrorV>(t->MapOf_0.key)
                &&& type_from_arrow(v.data_type) == Ok::<TypeV, ArrowErrorV>(t->MapOf_0.value)
                &&& t->MapOf_0.value_contains_null == v.nullable
            }
        }),
        type_from_arrow(
            ArrowV::Dictionary(Box::new(k.data_type), Box::new(v.data_type)),
        ) == type_from_arrow(v.data_type),
{
    reveal_with_fuel(type_from_arrow, 3);
    assert(seq![k, v][0] == k && seq![k, v][1] == v);
}

/// The metadata of a field in Arrow: each value as its text under its own key, and the Parquet field
/// id alone under the key that Arrow has for it.
pub proof fn law_metadata_in_arrow(m: Map<Seq<char>, MetaV>, k: Seq<char>)
    requires
        k != "parquet.field.id"@,
        k != "PARQUET:field_id"@,
    ensures
        metadata_to_arrow(m).contains_key(k) <==> m.contains_key(k),
        m.contains_key(k) ==> metadata_to_arrow(m)[k] == (match m[k] {
            MetaV::String(s) => s,
            v => meta_text(v),
        }),
        !metadata_to_arrow(m).contains_key("parquet.field.id"@),
        m.contains_key("parquet.field.id"@) ==> metadata_to_arrow(m).contains_key(
            "PARQUET:field_id"@,
        ) && metadata_to_arrow(m)["PARQUET:field_id"@] == meta_text(m["parquet.field.id"@]),
{
    lemma_id_keys_differ();
}

/// The metadata of a field from Arrow: each text as a string under its own key, and the Parquet field
/// id under the key that Delta fields have for it.
pub proof fn law_metadata_from_arrow(m: Map<Seq<char>, Seq<char>>, k: Seq<char>)
    requires
        k != "parquet.field.id"@,
        k != "PARQUET:field_id"@,
    ensures
        metadata_from_arrow(m).contains_key(k) <==> m.contains_key(k),
        m.contains_key(k) ==> metadata_from_arrow(m)[k] == MetaV::String(m[k]),
        !metadata_from_arrow(m).contains_key("PARQUET:field_id"@),
        m.contains_key("PARQUET:field_id"@) ==> metadata_from_arrow(m).contains_key(
            "parquet.field.id"@,
        ) && metadata_from_arrow(m)["parquet.field.id"@] == MetaV::String(m["PARQUET:field_id"@]),
{
    lemma_id_keys_differ();
}

/// The fields of a struct go to Arrow one by one and in order, each with its name, nullability, type
/// and metadata; a struct has a counterpart exactly where all the types of its fields have one.
pub proof fn law_fields_in_arrow(entries: Seq<EntryV>)
    ensures
        entries_to_arrow(entries) is Ok <==> forall|i: int|
            0 <= i < entries.len() ==> type_to_arrow((#[trigger] entries[i]).field.data_type) is Ok,
        entries_to_arrow(entries) matches Ok(fields) ==> {
            &&& fields.len() == entries.len()
            &&& forall|i: int|
                #![trigger fields[i]]
                0 <= i < fields.len() ==> {
                    &&& fields[i].name == entries[i].field.name
                    &&& fields[i].nullable == entries[i].field.nullable
                    &&& type_to_arrow(entries[i].field.data_type) == Ok::<ArrowV, ArrowErrorV>(
                        fields[i].data_type,
                    )
                    &&& fields[i].metadata == metadata_to_arrow(entries[i].field.metadata)
                }
        },
    decreases entries.len(),
{
    if entries.len() > 0 {
        let front = entries.drop_last();
        law_fields_in_arrow(front);
        let last = field_to_arrow(entries.last().field);
        assert(entries.last() == entries[entries.len() - 1]);
        if entries_to_arrow(entries) is Ok {
            assert forall|i: int| 0 <= i < entries.len() implies type_to_arrow(
                (#[trigger] entries[i]).field.data_type,
            ) is Ok by {
                if i < front.len() {
                    assert(front[i] == entries[i]);
                }
            }
            let fields = entries_to_arrow(entries)->Ok_0;
            let before = entries_to_arrow(front)->Ok_0;
            assert forall|i: int|
                #![trigger fields[i]]
                0 <= i < fields.len() implies fields[i].name == entries[i].field.name
                && fields[i].nullable == entries[i].field.nullable && type_to_arrow(
                entries[i].field.data_type,
            ) == Ok::<ArrowV, ArrowErrorV>(fields[i].data_type) && fields[i].metadata
                == metadata_to_arrow(entries[i].field.metadata) by {
                if i < front.len() {
                    assert(fields[i] == before[i]);
                    assert(front[i] == entries[i]);
                }
            }
        }
        if forall|i: int|
            0 <= i < entries.len() ==> type_to_arrow(
                (#[trigger] entries[i]).field.data_type,
            ) is Ok {
            assert forall|i: int| 0 <= i < front.len() implies type_to_arrow(
                (#[trigger] front[i]).field.data_type,
            ) is Ok by {
                assert(front[i] == entries[i]);
            }
        }
    }
}

/// The fields of an Arrow schema are read one by one and in order, each with its name, nullability,
/// type and metadata.
pub proof fn law_fields_from_arrow(fields: Seq<ArrowFieldV>)
    requires
        schema_from_arrow(fields) is Ok,
    ensures
        ({
            let s = schema_from_arrow(fields)->Ok_0;
            &&& s.entries.len() == fields.len()
            &&& forall|i: int|
                #![trigger s.entries[i]]
                0 <= i < fields.len() ==> {
                    &&& s.entries[i].key == fields[i].name
                    &&& s.entries[i].field.name == fields[i].name
                    &&& s.entries[i].field.nullable == fields[i].nullable
                    &&& type_from_arrow(fields[i].data_type) == Ok::<TypeV, ArrowErrorV>(
                        s.entries[i].field.data_type,
                    )
                    &&& s.entries[i].field.metadata == metadata_from_arrow(fields[i].metadata)
                }
        }),
{
    let results = fields_from_arrow(fields);
    lemma_fields_from_arrow(fields);
    crate::schema::struct_type::lemma_ok_len(results);
    let s = schema_from_arrow(fields)->Ok_0;
    assert forall|i: int| #![trigger s.entries[i]] 0 <= i < fields.len() implies s.entries[i].key
        == fields[i].name && s.entries[i].field.name == fields[i].name
        && s.entries[i].field.nullable == fields[i].nullable && type_from_arrow(fields[i].data_type)
        == Ok::<TypeV, ArrowErrorV>(s.entries[i].field.data_type) && s.entries[i].field.metadata
        == metadata_from_arrow(fields[i].metadata) by {
        assert(results[i] is Ok);
        assert(s.entries[i].field == results[i]->Ok_0);
        assert(field_from_arrow(fields[i]) is Ok);
    }
}

proof fn lemma_fields_from_arrow(fields: Seq<ArrowFieldV>)
    ensures
        fields_from_arrow(fields).len() == fields.len(),
        forall|i: int|
            0 <= i < fields.len() ==> #[trigger] fields_from_arrow(fields)[i] == (
            match field_from_arrow(fields[i]) {
                Ok(f) => Ok::<FieldV, ErrorV>(f),
                Err(e) => Err(ErrorV::Arrow(Box::new(e))),
            }),
    decreases fields.len(),
{
    if fields.len() > 0 {
        let front = fields.drop_last();
        lemma_fields_from_arrow(front);
        let all = fields_from_arrow(fields);
        assert forall|i: int| 0 <= i < fields.len() implies #[trigger] all[i] == (
        match field_from_arrow(fields[i]) {
            Ok(f) => Ok::<FieldV, ErrorV>(f),
            Err(e) => Err(ErrorV::Arrow(Box::new(e))),
        }) by {
            if i < front.len() {
                assert(all[i] == fields_from_arrow(front)[i]);
                assert(front[i] == fields[i]);
            }
        }
    }
}

/// A struct goes to a struct of its fields, and so does the unshredded variant; no other variant has a
/// counterpart. A struct is read as a struct.
pub proof fn law_structs_and_variants_in_arrow(s: StructV, fields: Seq<ArrowFieldV>)
    ensures
        type_to_arrow(TypeV::Struct(Box::new(s))) is Ok <==> entries_to_arrow(s.entries) is Ok,
        entries_to_arrow(s.entries) matches Ok(list) ==> type_to_arrow(TypeV::Struct(Box::new(s)))
            == Ok::<ArrowV, ArrowErrorV>(ArrowV::Struct(list)),
        !crate::schema::types::same_type(
            TypeV::Variant(Box::new(s)),
            TypeV::Variant(Box::new(crate::schema::data_type::unshredded())),
        ) ==> type_to_arrow(TypeV::Variant(Box::new(s))) is Err,
        crate::schema::types::same_type(
            TypeV::Variant(Box::new(s)),
            TypeV::Variant(Box::new(crate::schema::data_type::unshredded())),
        ) ==> (type_to_arrow(TypeV::Variant(Box::new(s))) is Ok <==> entries_to_arrow(s.entries) is Ok)
            && (entries_to_arrow(s.entries) matches Ok(list) ==> type_to_arrow(
            TypeV::Variant(Box::new(s)),
        ) == Ok::<ArrowV, ArrowErrorV>(ArrowV::Struct(list))),
        type_from_arrow(ArrowV::Struct(fields)) is Ok <==> schema_from_arrow(fields) is Ok,
        schema_from_arrow(fields) matches Ok(r) ==> type_from_arrow(ArrowV::Struct(fields)) == Ok::<
            TypeV,
            ArrowErrorV,
        >(TypeV::Struct(Box::new(r))),
{
}

/// What is said of what cannot be read from Arrow: a field with two different ids, a timestamp of
/// another unit or zone, and a type that tables do not have.
pub proof fn law_errors_from_arrow(
    f: ArrowFieldV,
    unit: TimeUnit,
    zone: Option<Seq<char>>,
    text: Seq<char>,
)
    ensures
        f.metadata.contains_key("PARQUET:field_id"@) && f.metadata.contains_key("parquet.field.id"@)
            && f.metadata["PARQUET:field_id"@] != f.metadata["parquet.field.id"@]
            ==> field_from_arrow(f) == Err::<FieldV, ArrowErrorV>(
            ArrowErrorV::SchemaError(
                "Field '"@ + f.name + "': conflicting parquet field IDs: '"@
                    + f.metadata["PARQUET:field_id"@] + "' ("@ + "PARQUET:field_id"@ + ") vs '"@
                    + f.metadata["parquet.field.id"@] + "' ("@ + "parquet.field.id"@ + ")"@,
            ),
        ),
        type_from_arrow(ArrowV::Timestamp(unit, zone)) matches Err(e) ==> e
            == ArrowErrorV::SchemaError(
            "Invalid data type for Delta Lake: "@ + (match zone {
                Some(z) => "Timestamp("@ + (match unit {
                    TimeUnit::Second => "s"@,
                    TimeUnit::Millisecond => "ms"@,
                    TimeUnit::Microsecond => "µs"@,
                    TimeUnit::Nanosecond => "ns"@,
                }) + ", "@ + quoted(z) + ")"@,
                None => "Timestamp("@ + (match unit {
                    TimeUnit::Second => "s"@,
                    TimeUnit::Millisecond => "ms"@,
                    TimeUnit::Microsecond => "µs"@,
                    TimeUnit::Nanosecond => "ns"@,
                }) + ")"@,
            }),
        ),
        type_from_arrow(ArrowV::Other(text)) == Err::<TypeV, ArrowErrorV>(
            ArrowErrorV::SchemaError("Invalid data type for Delta Lake: "@ + text),
        ),
{
}

/// A variant other than the unshredded one is refused.
pub proof fn law_shredded_variants_are_refused(s: StructV)
    requires
        !same_type(TypeV::Variant(Box::new(s)), TypeV::Variant(Box::new(unshredded()))),
    ensures
        type_to_arrow(TypeV::Variant(Box::new(s))) == Err::<ArrowV, ArrowErrorV>(
            ArrowErrorV::SchemaError(
                "Incorrect Variant Schema: "@ + type_text(TypeV::Variant(Box::new(s)))
                    + ". Only the unshredded variant schema is supported right now."@,
            ),
        ),
{
}

} // verus!
