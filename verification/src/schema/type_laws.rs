//! What holds of data types and metadata: their names, their widths, and their forms as JSON and text.
use vstd::prelude::*;

#[allow(unused_imports)]
use crate::error::ErrorV;
#[allow(unused_imports)]
use crate::json::{json_text, JsonV, NumberV};
#[allow(unused_imports)]
use crate::schema::data_type::{unshredded, variant_fields};
#[allow(unused_imports)]
use crate::schema::display::{field_text, members_text, type_text};
#[allow(unused_imports)]
use crate::schema::field::{extended, metadata_column_field, spec_type};
#[allow(unused_imports)]
use crate::schema::json_schema::{
    meta_of, read_array, read_field, read_field_list, read_fields, read_map, read_metadata,
    read_struct, read_type, unexpected_text,
};
#[allow(unused_imports)]
use crate::schema::json_write::{
    entries_json, field_json, meta_json, struct_json, type_json,
};
#[allow(unused_imports)]
use crate::schema::metadata::{
    meta_text, quoted, spec_debug_text, spec_named, spec_text, ColumnMetadataKey, MetaV,
    MetadataColumnSpec,
};
#[allow(unused_imports)]
use crate::schema::primitive::{
    comma_parts, decimal_error, decimal_named, digits_value, is_white, looks_decimal, named_primitive,
    primitive_named, primitive_text, stored_without_annotation, stats_compatible, trim_end,
    trim_start, trimmed, u8_value, valid_decimal, widens, DecimalType, PrimitiveType,
};
#[allow(unused_imports)]
use crate::schema::struct_type::{checked_struct, checked_struct_of_results, fields_of};
#[allow(unused_imports)]
use crate::schema::types::{
    lemma_type_parts, same_field, same_struct, same_type, ArrayV, EntryV, FieldV, MapV, StructV,
    TypeV,
};
#[allow(unused_imports)]
use crate::text::{bool_text, int_text, nat_text};

verus! {

/// The types that values of a type can be read as, one by one.
pub proof fn law_what_types_widen_to(a: PrimitiveType, b: PrimitiveType)
    ensures
        widens(a, b) == (match (a, b) {
            (PrimitiveType::Byte, PrimitiveType::Short) => true,
            (PrimitiveType::Byte, PrimitiveType::Integer) => true,
            (PrimitiveType::Byte, PrimitiveType::Long) => true,
            (PrimitiveType::Short, PrimitiveType::Integer) => true,
            (PrimitiveType::Short, PrimitiveType::Long) => true,
            (PrimitiveType::Integer, PrimitiveType::Long) => true,
            (PrimitiveType::Float16, PrimitiveType::Float) => true,
            (PrimitiveType::Float16, PrimitiveType::Double) => true,
            (PrimitiveType::Float, PrimitiveType::Double) => true,
            (PrimitiveType::Timestamp, PrimitiveType::TimestampNtz) => true,
            (PrimitiveType::TimestampNtz, PrimitiveType::Timestamp) => true,
            _ => false,
        }),
        stored_without_annotation(a, b) == (match (a, b) {
            (PrimitiveType::Integer, PrimitiveType::Date) => true,
            (PrimitiveType::Long, PrimitiveType::Timestamp) => true,
            (PrimitiveType::Long, PrimitiveType::TimestampNtz) => true,
            _ => false,
        }),
        stats_compatible(a, b) <==> a == b || widens(a, b) || stored_without_annotation(a, b),
{
}

/// The names of the types, one by one; each is read as the type that it is the name of.
pub proof fn law_names_of_types(p: PrimitiveType)
    ensures
        match p {
            PrimitiveType::String => primitive_text(p) == "string"@,
            PrimitiveType::Long => primitive_text(p) == "long"@,
            PrimitiveType::Integer => primitive_text(p) == "integer"@,
            PrimitiveType::Short => primitive_text(p) == "short"@,
            PrimitiveType::Byte => primitive_text(p) == "byte"@,
            PrimitiveType::Float16 => primitive_text(p) == "float16"@,
            PrimitiveType::Float => primitive_text(p) == "float"@,
            PrimitiveType::Double => primitive_text(p) == "double"@,
            PrimitiveType::Boolean => primitive_text(p) == "boolean"@,
            PrimitiveType::Binary => primitive_text(p) == "binary"@,
            PrimitiveType::Date => primitive_text(p) == "date"@,
            PrimitiveType::Timestamp => primitive_text(p) == "timestamp"@,
            PrimitiveType::TimestampNtz => primitive_text(p) == "timestamp_ntz"@,
            PrimitiveType::Decimal(d) => primitive_text(p) == "decimal("@ + nat_text(
                d.digits() as nat,
            ) + ","@ + nat_text(d.fraction_digits() as nat) + ")"@,
        },
        (p matches PrimitiveType::Decimal(d) ==> 1 <= d.digits() <= 38 && d.fraction_digits()
            <= d.digits()) ==> primitive_named(primitive_text(p)) == Ok::<PrimitiveType, Seq<char>>(
            p,
        ),
{
    if p matches PrimitiveType::Decimal(d) ==> 1 <= d.digits() <= 38 && d.fraction_digits()
        <= d.digits() {
        crate::schema::json_write::lemma_primitive_named(p);
    }
}

/// A decimal type has 1 to 38 digits, of which at most all stand behind the point.
pub proof fn law_decimal_types(precision: u8, scale: u8)
    ensures
        valid_decimal(precision, scale) <==> 1 <= precision <= 38 && 0 <= scale <= precision,
{
}

/// The kinds of metadata columns, one by one: their names, their types, and that none can be null.
pub proof fn law_kinds_of_metadata_columns(name: Seq<char>, s: MetadataColumnSpec)
    ensures
        spec_text(s) == (match s {
            MetadataColumnSpec::RowIndex => "row_index"@,
            MetadataColumnSpec::RowId => "row_id"@,
            MetadataColumnSpec::RowCommitVersion => "row_commit_version"@,
            MetadataColumnSpec::FilePath => "_file"@,
        }),
        metadata_column_field(name, s).name == name,
        metadata_column_field(name, s).data_type == TypeV::Primitive(
            match s {
                MetadataColumnSpec::RowIndex => PrimitiveType::Long,
                MetadataColumnSpec::RowId => PrimitiveType::Long,
                MetadataColumnSpec::RowCommitVersion => PrimitiveType::Long,
                MetadataColumnSpec::FilePath => PrimitiveType::String,
            },
        ),
        !metadata_column_field(name, s).nullable,
        metadata_column_field(name, s).metadata.dom() == set!["delta.metadataSpec"@],
        metadata_column_field(name, s).metadata["delta.metadataSpec"@] == MetaV::String(
            spec_text(s),
        ),
{
    assert(metadata_column_field(name, s).metadata.dom() =~= set!["delta.metadataSpec"@]);
}

/// The keys of metadata that have a meaning of their own, one by one.
pub proof fn law_keys_of_metadata(k: ColumnMetadataKey)
    ensures
        k.key() == (match k {
            ColumnMetadataKey::ColumnMappingId => "delta.columnMapping.id"@,
            ColumnMetadataKey::ColumnMappingPhysicalName => "delta.columnMapping.physicalName"@,
            ColumnMetadataKey::ParquetFieldId => "parquet.field.id"@,
            ColumnMetadataKey::GenerationExpression => "delta.generationExpression"@,
            ColumnMetadataKey::IdentityStart => "delta.identity.start"@,
            ColumnMetadataKey::IdentityStep => "delta.identity.step"@,
            ColumnMetadataKey::IdentityHighWaterMark => "delta.identity.highWaterMark"@,
            ColumnMetadataKey::IdentityAllowExplicitInsert => "delta.identity.allowExplicitInsert"@,
            ColumnMetadataKey::InternalColumn => "delta.isInternalColumn"@,
            ColumnMetadataKey::Invariants => "delta.invariants"@,
            ColumnMetadataKey::MetadataSpec => "delta.metadataSpec"@,
        }),
{
}

/// What metadata holds after pairs were added: for each key the last of its pairs, and what was there
/// before for a key without one.
pub proof fn law_added_metadata(
    m: Map<Seq<char>, MetaV>,
    pairs: Seq<(Seq<char>, MetaV)>,
    k: Seq<char>,
)
    ensures
        (forall|i: int| 0 <= i < pairs.len() ==> (#[trigger] pairs[i]).0 != k) ==> {
            &&& extended(m, pairs).contains_key(k) == m.contains_key(k)
            &&& m.contains_key(k) ==> extended(m, pairs)[k] == m[k]
        },
        forall|i: int|
            #![trigger pairs[i]]
            0 <= i < pairs.len() && pairs[i].0 == k && (forall|j: int|
                i < j < pairs.len() ==> (#[trigger] pairs[j]).0 != k) ==> extended(
                m,
                pairs,
            ).contains_key(k) && extended(m, pairs)[k] == pairs[i].1,
    decreases pairs.len(),
{
    if pairs.len() > 0 {
        let front = pairs.drop_last();
        law_added_metadata(m, front, k);
        assert(pairs.last() == pairs[pairs.len() - 1]);
        if forall|i: int| 0 <= i < pairs.len() ==> (#[trigger] pairs[i]).0 != k {
            assert forall|i: int| 0 <= i < front.len() implies (#[trigger] front[i]).0 != k by {
                assert(front[i] == pairs[i]);
            }
        }
        assert forall|i: int|
            #![trigger pairs[i]]
            0 <= i < pairs.len() && pairs[i].0 == k && (forall|j: int|
                i < j < pairs.len() ==> (#[trigger] pairs[j]).0 != k) implies extended(
            m,
            pairs,
        ).contains_key(k) && extended(m, pairs)[k] == pairs[i].1 by {
            if i < front.len() {
                assert(pairs[pairs.len() - 1].0 != k);
                assert(front[i] == pairs[i]);
                assert forall|j: int| i < j < front.len() implies (#[trigger] front[j]).0 != k by {
                    assert(front[j] == pairs[j]);
                }
            }
        }
    }
}

/// What JSON metadata values are read as: whole numbers of 64 bits, strings and booleans as such, and
/// everything else as it is.
pub proof fn law_metadata_values_from_json(j: JsonV)
    ensures
        match j {
            JsonV::Number(NumberV::Int(n)) => if i64::MIN <= n <= i64::MAX {
                meta_of(j) is Number && meta_of(j)->Number_0 == n
            } else {
                meta_of(j) == MetaV::Other(j)
            },
            JsonV::String(s) => meta_of(j) == MetaV::String(s),
            JsonV::Bool(b) => meta_of(j) == MetaV::Boolean(b),
            JsonV::Null => meta_of(j) == MetaV::Other(j),
            JsonV::Number(NumberV::Float(_)) => meta_of(j) == MetaV::Other(j),
            JsonV::Array(_) => meta_of(j) == MetaV::Other(j),
            JsonV::Object(_) => meta_of(j) == MetaV::Other(j),
        },
{
}

/// Metadata values as text: a string as it is, and anything else as JSON has it.
pub proof fn law_metadata_values_as_text(n: i64, s: Seq<char>)
    ensures
        meta_text(MetaV::String(s)) == s,
        meta_text(MetaV::Number(n)) == int_text(n as int),
        meta_text(MetaV::Boolean(true)) == "true"@,
        meta_text(MetaV::Boolean(false)) == "false"@,
{
}

/// The array, map and struct types that objects are read as: each member stands for its own part.
pub proof fn law_types_from_json(m: Map<Seq<char>, JsonV>)
    requires
        m.contains_key("type"@),
    ensures
        m["type"@] == JsonV::String("array"@) ==> {
            let r = read_type(JsonV::Object(m));
            &&& r is Ok <==> m.contains_key("elementType"@) && read_type(m["elementType"@]) is Ok
                && m.contains_key("containsNull"@) && m["containsNull"@] is Bool
            &&& r matches Ok(t) ==> {
                &&& t is Array
                &&& read_type(m["elementType"@]) == Ok::<TypeV, Seq<char>>(t->Array_0.element)
                &&& m["containsNull"@] == JsonV::Bool(t->Array_0.contains_null)
            }
        },
        m["type"@] == JsonV::String("map"@) ==> {
            let r = read_type(JsonV::Object(m));
            &&& r is Ok <==> m.contains_key("keyType"@) && read_type(m["keyType"@]) is Ok
                && m.contains_key("valueType"@) && read_type(m["valueType"@]) is Ok && (m.contains_key(
                "valueContainsNull"@,
            ) ==> m["valueContainsNull"@] is Bool)
            &&& r matches Ok(t) ==> {
                &&& t is MapOf
                &&& read_type(m["keyType"@]) == Ok::<TypeV, Seq<char>>(t->MapOf_0.key)
                &&& read_type(m["valueType"@]) == Ok::<TypeV, Seq<char>>(t->MapOf_0.value)
                &&& t->MapOf_0.value_contains_null == (m.contains_key("valueContainsNull"@)
                    ==> m["valueContainsNull"@] == JsonV::Bool(true))
            }
        },
        m["type"@] == JsonV::String("struct"@) ==> {
            let r = read_type(JsonV::Object(m));
            &&& r is Ok <==> m.contains_key("fields"@) && read_fields(m["fields"@]) is Ok
                && checked_struct(read_fields(m["fields"@])->Ok_0) is Ok
            &&& r matches Ok(t) ==> t is Struct && checked_struct(
                read_fields(m["fields"@])->Ok_0,
            ) == Ok::<StructV, ErrorV>(*t->Struct_0)
        },
{
    let j = JsonV::Object(m);
    reveal_strlit("array");
    reveal_strlit("struct");
    reveal_strlit("map");
    assert("array"@.len() == 5 && "struct"@.len() == 6 && "map"@.len() == 3);
    let a = read_array(j);
    let b = read_map(j);
    let c = read_struct(j);
}

/// The fields that JSON values are read as, one by one and in order.
pub proof fn law_fields_from_json(items: Seq<JsonV>)
    ensures
        read_fields(JsonV::Array(items)) is Ok <==> forall|i: int|
            0 <= i < items.len() ==> read_field(#[trigger] items[i]) is Ok,
        read_fields(JsonV::Array(items)) matches Ok(fields) ==> {
            &&& fields.len() == items.len()
            &&& forall|i: int|
                0 <= i < items.len() ==> read_field(items[i]) == Ok::<FieldV, Seq<char>>(
                    #[trigger] fields[i],
                )
        },
{
    lemma_field_list(items);
}

proof fn lemma_field_list(items: Seq<JsonV>)
    ensures
        read_field_list(items) is Ok <==> forall|i: int|
            0 <= i < items.len() ==> read_field(#[trigger] items[i]) is Ok,
        read_field_list(items) matches Ok(fields) ==> {
            &&& fields.len() == items.len()
            &&& forall|i: int|
                0 <= i < items.len() ==> read_field(items[i]) == Ok::<FieldV, Seq<char>>(
                    #[trigger] fields[i],
                )
        },
    decreases items.len(),
{
    if items.len() > 0 {
        let front = items.drop_last();
        lemma_field_list(front);
        assert(items.last() == items[items.len() - 1]);
        if read_field_list(items) is Ok {
            let before = read_field_list(front)->Ok_0;
            let fields = read_field_list(items)->Ok_0;
            assert forall|i: int| 0 <= i < items.len() implies read_field(items[i]) == Ok::<
                FieldV,
                Seq<char>,
            >(#[trigger] fields[i]) by {
                if i < front.len() {
                    assert(fields[i] == before[i]);
                    assert(front[i] == items[i]);
                }
            }
            assert forall|i: int| 0 <= i < items.len() implies read_field(
                #[trigger] items[i],
            ) is Ok by {
                assert(read_field(items[i]) == Ok::<FieldV, Seq<char>>(fields[i]));
            }
        }
        if forall|i: int| 0 <= i < items.len() ==> read_field(#[trigger] items[i]) is Ok {
            assert forall|i: int| 0 <= i < front.len() implies read_field(
                #[trigger] front[i],
            ) is Ok by {
                assert(front[i] == items[i]);
            }
        }
    }
}

/// The field that an object is read as: each of its four members stands for its own part, and none may
/// be missing.
pub proof fn law_field_from_json(m: Map<Seq<char>, JsonV>)
    ensures
        ({
            let r = read_field(JsonV::Object(m));
            &&& r is Ok <==> {
                &&& m.contains_key("name"@)
                &&& m["name"@] is String
                &&& m.contains_key("type"@)
                &&& read_type(m["type"@]) is Ok
                &&& m.contains_key("nullable"@)
                &&& m["nullable"@] is Bool
                &&& m.contains_key("metadata"@)
                &&& m["metadata"@] is Object
            }
            &&& r matches Ok(f) ==> {
                &&& m["name"@] == JsonV::String(f.name)
                &&& read_type(m["type"@]) == Ok::<TypeV, Seq<char>>(f.data_type)
                &&& m["nullable"@] == JsonV::Bool(f.nullable)
                &&& forall|k: Seq<char>| #[trigger]
                    f.metadata.contains_key(k) <==> m["metadata"@]->Object_0.contains_key(k)
                &&& forall|k: Seq<char>| #[trigger]
                    f.metadata.contains_key(k) ==> f.metadata[k] == meta_of(
                        m["metadata"@]->Object_0[k],
                    )
            }
        }),
{
}

/// What types and fields are written as: each part under its own name.
pub proof fn law_types_as_json(p: PrimitiveType, a: ArrayV, m: MapV, s: StructV, f: FieldV)
    ensures
        type_json(TypeV::Primitive(p)) == JsonV::String(primitive_text(p)),
        type_json(TypeV::Variant(Box::new(s))) == JsonV::String("variant"@),
        ({
            let j = type_json(TypeV::Array(Box::new(a)));
            &&& j is Object
            &&& j->Object_0.dom() == set!["type"@, "elementType"@, "containsNull"@]
            &&& j->Object_0["type"@] == JsonV::String(a.label)
            &&& j->Object_0["elementType"@] == type_json(a.element)
            &&& j->Object_0["containsNull"@] == JsonV::Bool(a.contains_null)
        }),
        ({
            let j = type_json(TypeV::MapOf(Box::new(m)));
            &&& j is Object
            &&& j->Object_0.dom() == set!["type"@, "keyType"@, "valueType"@, "valueContainsNull"@]
            &&& j->Object_0["type"@] == JsonV::String(m.label)
            &&& j->Object_0["keyType"@] == type_json(m.key)
            &&& j->Object_0["valueType"@] == type_json(m.value)
            &&& j->Object_0["valueContainsNull"@] == JsonV::Bool(m.value_contains_null)
        }),
        ({
            let j = type_json(TypeV::Struct(Box::new(s)));
            &&& j is Object
            &&& j->Object_0.dom() == set!["type"@, "fields"@]
            &&& j->Object_0["type"@] == JsonV::String(s.label)
            &&& j->Object_0["fields"@] is Array
            &&& j->Object_0["fields"@]->Array_0.len() == s.entries.len()
            &&& forall|i: int|
                0 <= i < s.entries.len() ==> #[trigger] j->Object_0["fields"@]->Array_0[i]
                    == field_json(s.entries[i].field)
        }),
        ({
            let j = field_json(f);
            &&& j is Object
            &&& j->Object_0.dom() == set!["name"@, "type"@, "nullable"@, "metadata"@]
            &&& j->Object_0["name"@] == JsonV::String(f.name)
            &&& j->Object_0["type"@] == type_json(f.data_type)
            &&& j->Object_0["nullable"@] == JsonV::Bool(f.nullable)
            &&& j->Object_0["metadata"@] is Object
            &&& forall|k: Seq<char>| #[trigger]
                j->Object_0["metadata"@]->Object_0.contains_key(k) <==> f.metadata.contains_key(k)
            &&& forall|k: Seq<char>| #[trigger]
                f.metadata.contains_key(k) ==> j->Object_0["metadata"@]->Object_0[k] == (
                match f.metadata[k] {
                    MetaV::Number(n) => JsonV::Number(NumberV::Int(n as int)),
                    MetaV::String(t) => JsonV::String(t),
                    MetaV::Boolean(b) => JsonV::Bool(b),
                    MetaV::Other(o) => o,
                })
        }),
{
    lemma_type_parts(TypeV::Array(Box::new(a)));
    lemma_type_parts(TypeV::MapOf(Box::new(m)));
    reveal_strlit("type");
    reveal_strlit("elementType");
    reveal_strlit("containsNull");
    reveal_strlit("keyType");
    reveal_strlit("valueType");
    reveal_strlit("valueContainsNull");
    reveal_strlit("fields");
    reveal_strlit("name");
    reveal_strlit("nullable");
    reveal_strlit("metadata");
    assert("type"@.len() == 4 && "elementType"@.len() == 11 && "containsNull"@.len() == 12);
    assert("keyType"@.len() == 7 && "valueType"@.len() == 9 && "valueContainsNull"@.len() == 17);
    assert("fields"@.len() == 6 && "name"@.len() == 4 && "nullable"@.len() == 8
        && "metadata"@.len() == 8);
    assert("type"@[0] == 't' && "name"@[0] == 'n');
    assert("nullable"@[0] == 'n' && "metadata"@[0] == 'm');
    let ja = type_json(TypeV::Array(Box::new(a)))->Object_0;
    assert(ja.dom() =~= set!["type"@, "elementType"@, "containsNull"@]);
    let jm = type_json(TypeV::MapOf(Box::new(m)))->Object_0;
    assert(jm.dom() =~= set!["type"@, "keyType"@, "valueType"@, "valueContainsNull"@]);
    let js = struct_json(s)->Object_0;
    assert(js.dom() =~= set!["type"@, "fields"@]);
    lemma_entries_json(s.entries);
    let jf = field_json(f)->Object_0;
    assert(jf.dom() =~= set!["name"@, "type"@, "nullable"@, "metadata"@]);
}

proof fn lemma_entries_json(entries: Seq<EntryV>)
    ensures
        entries_json(entries).len() == entries.len(),
        forall|i: int|
            0 <= i < entries.len() ==> #[trigger] entries_json(entries)[i] == field_json(
                entries[i].field,
            ),
    decreases entries.len(),
{
    if entries.len() > 0 {
        let front = entries.drop_last();
        lemma_entries_json(front);
        assert forall|i: int| 0 <= i < entries.len() implies #[trigger] entries_json(entries)[i]
            == field_json(entries[i].field) by {
            if i < front.len() {
                assert(entries_json(entries)[i] == entries_json(front)[i]);
                assert(front[i] == entries[i]);
            }
        }
    }
}

/// The texts of types on one line: each part in its own place.
pub proof fn law_texts_of_types(p: PrimitiveType, a: ArrayV, m: MapV, s: StructV)
    ensures
        type_text(TypeV::Primitive(p)) == primitive_text(p),
        type_text(TypeV::Variant(Box::new(s))) == "variant"@,
        type_text(TypeV::Array(Box::new(a))) == "array<"@ + type_text(a.element) + ">"@,
        type_text(TypeV::MapOf(Box::new(m))) == "map<"@ + type_text(m.key) + ", "@ + type_text(
            m.value,
        ) + ">"@,
        type_text(TypeV::Struct(Box::new(s))) == "struct<"@ + crate::text::joined(
            Seq::new(
                s.entries.len(),
                |i: int|
                    s.entries[i].field.name + ": "@ + type_text(s.entries[i].field.data_type),
            ),
            ", "@,
        ) + ">"@,
{
    lemma_type_parts(TypeV::Array(Box::new(a)));
    lemma_type_parts(TypeV::MapOf(Box::new(m)));
    lemma_members_text(s.entries);
}

proof fn lemma_members_text(entries: Seq<EntryV>)
    ensures
        members_text(entries) == crate::text::joined(
            Seq::new(
                entries.len(),
                |i: int| entries[i].field.name + ": "@ + type_text(entries[i].field.data_type),
            ),
            ", "@,
        ),
    decreases entries.len(),
{
    let parts = Seq::new(
        entries.len(),
        |i: int| entries[i].field.name + ": "@ + type_text(entries[i].field.data_type),
    );
    if entries.len() > 0 {
        let front = entries.drop_last();
        lemma_members_text(front);
        assert(parts.drop_last() =~= Seq::new(
            front.len(),
            |i: int| front[i].field.name + ": "@ + type_text(front[i].field.data_type),
        ));
        let t = type_text(entries.last().field.data_type);
        assert(members_text(entries) =~= crate::text::joined(parts, ", "@));
    } else {
        assert(members_text(entries) =~= crate::text::joined(parts, ", "@));
    }
}

/// Equality of types goes part by part.
pub proof fn law_equal_types(a: ArrayV, b: ArrayV, m: MapV, n: MapV, f: FieldV, g: FieldV)
    ensures
        same_type(TypeV::Array(Box::new(a)), TypeV::Array(Box::new(b))) <==> a.label == b.label
            && a.contains_null == b.contains_null && same_type(a.element, b.element),
        same_type(TypeV::MapOf(Box::new(m)), TypeV::MapOf(Box::new(n))) <==> m.label == n.label
            && m.value_contains_null == n.value_contains_null && same_type(m.key, n.key)
            && same_type(m.value, n.value),
        !same_type(TypeV::Array(Box::new(a)), TypeV::MapOf(Box::new(m))),
        same_field(f, g) ==> f.name == g.name && f.nullable == g.nullable && same_type(
            f.data_type,
            g.data_type,
        ) && f.metadata.dom() == g.metadata.dom(),
{
    lemma_type_parts(TypeV::Array(Box::new(a)));
    lemma_type_parts(TypeV::MapOf(Box::new(m)));
}

/// The variant type without shredding: two binary fields, neither of which can be null, `metadata`
/// before `value`.
pub proof fn law_unshredded_variant()
    ensures
        unshredded().entries.len() == 2,
        unshredded().entries[0].field == FieldV::plain(
            "metadata"@,
            TypeV::Primitive(PrimitiveType::Binary),
            false,
        ),
        unshredded().entries[1].field == FieldV::plain(
            "value"@,
            TypeV::Primitive(PrimitiveType::Binary),
            false,
        ),
{
}

/// No variant type is made of fields of which one is a metadata column.
pub proof fn law_variants_have_no_metadata_columns(fields: Seq<FieldV>, i: int)
    requires
        0 <= i < fields.len(),
        fields[i].metadata.contains_key("delta.metadataSpec"@),
    ensures
        checked_struct_of_results(variant_fields(fields)) is Err,
{
    crate::schema::struct_type::lemma_ok_len(variant_fields(fields));
    assert(variant_fields(fields)[i] is Err);
}

/// Whether a text is white space alone.
pub open spec fn all_white(s: Seq<char>) -> bool {
    forall|i: int| 0 <= i < s.len() ==> is_white(#[trigger] s[i])
}

proof fn lemma_trim_start(a: Seq<char>, s: Seq<char>)
    requires
        all_white(a),
        s.len() > 0 ==> !is_white(s[0]),
    ensures
        trim_start(a + s) == s,
    decreases a.len(),
{
    if a.len() == 0 {
        assert(a + s =~= s);
    } else {
        assert((a + s)[0] == a[0]);
        assert((a + s).skip(1) =~= a.skip(1) + s);
        assert forall|i: int| 0 <= i < a.skip(1).len() implies is_white(#[trigger] a.skip(1)[i]) by {
            assert(a.skip(1)[i] == a[i + 1]);
        }
        lemma_trim_start(a.skip(1), s);
    }
}

proof fn lemma_trim_end(s: Seq<char>, b: Seq<char>)
    requires
        all_white(b),
        s.len() > 0 ==> !is_white(s.last()),
    ensures
        trim_end(s + b) == s,
    decreases b.len(),
{
    if b.len() == 0 {
        assert(s + b =~= s);
    } else {
        assert((s + b).last() == b[b.len() - 1]);
        assert((s + b).drop_last() =~= s + b.drop_last());
        assert forall|i: int| 0 <= i < b.drop_last().len() implies is_white(
            #[trigger] b.drop_last()[i],
        ) by {
            assert(b.drop_last()[i] == b[i]);
        }
        lemma_trim_end(s, b.drop_last());
    }
}

/// Trimming takes away the white space at the two ends of a text, and nothing else.
pub proof fn law_trimmed_text(a: Seq<char>, s: Seq<char>, b: Seq<char>)
    requires
        all_white(a),
        all_white(b),
        s.len() > 0,
        !is_white(s[0]),
        !is_white(s.last()),
    ensures
        trimmed(a + s + b) == s,
{
    assert(a + s + b =~= a + (s + b));
    assert((s + b)[0] == s[0]);
    lemma_trim_start(a, s + b);
    lemma_trim_end(s, b);
}

proof fn lemma_digits_of(n: nat)
    ensures
        digits_value(nat_text(n)) == Some(n),
        nat_text(n).len() > 0,
        nat_text(n)[0] != '+',
{
    crate::schema::json_write::lemma_nat_text(n);
    assert('0' <= nat_text(n)[0] <= '9');
}

/// A number in decimal is read as what it is, with a plus sign in front or without one, and no number
/// above 255 is read.
pub proof fn law_small_numbers(n: nat)
    ensures
        n <= 255 ==> u8_value(nat_text(n)) == Some(n as u8) && u8_value(seq!['+'] + nat_text(n))
            == Some(n as u8),
        n > 255 ==> u8_value(nat_text(n)) is None && u8_value(seq!['+'] + nat_text(n)) is None,
        u8_value(Seq::empty()) is None,
{
    lemma_digits_of(n);
    let plus = seq!['+'] + nat_text(n);
    assert(plus.skip(1) =~= nat_text(n));
    assert(plus[0] == '+');
}

/// A text is split at its commas and nowhere else.
pub proof fn law_split_at_commas(s: Seq<char>, c: char)
    ensures
        comma_parts(Seq::empty()) == seq![Seq::<char>::empty()],
        comma_parts(s + seq![',']) == comma_parts(s) + seq![Seq::<char>::empty()],
        c != ',' ==> comma_parts(s + seq![c]) == comma_parts(s).drop_last() + seq![
            comma_parts(s).last() + seq![c],
        ],
{
    assert((s + seq![',']).drop_last() =~= s);
    assert((s + seq![c]).drop_last() =~= s);
    assert((s + seq![',']).last() == ',');
    assert((s + seq![c]).last() == c);
    assert(comma_parts(s + seq![',']) =~= comma_parts(s) + seq![Seq::<char>::empty()]);
    if c != ',' {
        assert(comma_parts(s).last().push(c) =~= comma_parts(s).last() + seq![c]);
        assert(comma_parts(s + seq![c]) =~= comma_parts(s).drop_last() + seq![
            comma_parts(s).last() + seq![c],
        ]);
    }
}

/// What a text of the shape of a decimal type is read as: two numbers with a comma between them, of
/// which the first is the number of digits and the second that of the digits behind the point.
pub proof fn law_decimal_types_from_text(name: Seq<char>, inner: Seq<char>)
    requires
        name == "decimal("@ + inner + seq![')'],
    ensures
        ({
            let parts = comma_parts(inner);
            let r = primitive_named(name);
            &&& r is Ok <==> {
                &&& parts.len() == 2
                &&& u8_value(trimmed(parts[0])) is Some
                &&& u8_value(trimmed(parts[1])) is Some
                &&& 1 <= u8_value(trimmed(parts[0]))->0 <= 38
                &&& u8_value(trimmed(parts[1]))->0 <= u8_value(trimmed(parts[0]))->0
            }
            &&& r matches Ok(p) ==> {
                &&& p is Decimal
                &&& u8_value(trimmed(parts[0])) == Some(p->Decimal_0.digits())
                &&& u8_value(trimmed(parts[1])) == Some(p->Decimal_0.fraction_digits())
            }
        }),
{
    lemma_decimal_name(name, inner);
    lemma_some_part(inner);
}

proof fn lemma_decimal_name(name: Seq<char>, inner: Seq<char>)
    requires
        name == "decimal("@ + inner + seq![')'],
    ensures
        named_primitive(name) is None,
        looks_decimal(name),
        name.subrange(8, name.len() - 1) == inner,
{
    reveal_strlit("decimal(");
    assert("decimal("@.len() == 8);
    assert(name.take(8) =~= "decimal("@);
    assert(name.last() == ')');
    assert(name.subrange(8, name.len() - 1) =~= inner);
    assert(name[0] == 'd' && name[1] == 'e');
    reveal_strlit("string");
    reveal_strlit("long");
    reveal_strlit("integer");
    reveal_strlit("short");
    reveal_strlit("byte");
    reveal_strlit("float16");
    reveal_strlit("float");
    reveal_strlit("double");
    reveal_strlit("boolean");
    reveal_strlit("binary");
    reveal_strlit("date");
    reveal_strlit("timestamp");
    reveal_strlit("timestamp_ntz");
    assert(named_primitive(name) is None) by {
        assert("string"@[0] == 's');
        assert("long"@[0] == 'l');
        assert("integer"@[0] == 'i');
        assert("short"@[0] == 's');
        assert("byte"@[0] == 'b');
        assert("float16"@[0] == 'f');
        assert("float"@[0] == 'f');
        assert("double"@[1] == 'o');
        assert("boolean"@[0] == 'b');
        assert("binary"@[0] == 'b');
        assert("date"@[1] == 'a');
        assert("timestamp"@[0] == 't');
        assert("timestamp_ntz"@[0] == 't');
    }
}

proof fn lemma_some_part(s: Seq<char>)
    ensures
        comma_parts(s).len() > 0,
    decreases s.len(),
{
    if s.len() > 0 {
        lemma_some_part(s.drop_last());
    }
}

/// A name that is none of a primitive type is not read as one.
pub proof fn law_other_names_are_refused(name: Seq<char>)
    ensures
        primitive_named(name) matches Ok(p) ==> if p is Decimal {
            name.len() >= 9 && name.take(8) == "decimal("@ && name.last() == ')'
        } else {
            name == primitive_text(p)
        },
{
}

/// The name of a field in files: its own one without column mapping; under column mapping the
/// physical name that its metadata holds, or its own one where there is none.
pub proof fn law_names_in_files(f: FieldV)
    ensures
        f.physical_name(crate::column_mapping::ColumnMappingMode::Disabled) == f.name,
        forall|mode: crate::column_mapping::ColumnMappingMode|
            !(mode is Disabled) ==> #[trigger] f.physical_name(mode) == (
            if f.metadata.contains_key("delta.columnMapping.physicalName"@)
                && f.metadata["delta.columnMapping.physicalName"@] is String {
                f.metadata["delta.columnMapping.physicalName"@]->String_0
            } else {
                f.name
            }),
{
}

/// The kind of a metadata column is that which its metadata names.
pub proof fn law_kind_of_metadata_column(f: FieldV, s: MetadataColumnSpec)
    ensures
        f.is_metadata_column() <==> f.metadata.contains_key("delta.metadataSpec"@),
        f.metadata_spec() == Some(s) <==> f.metadata.contains_key("delta.metadataSpec"@)
            && f.metadata["delta.metadataSpec"@] == MetaV::String(spec_text(s)),
{
    crate::schema::metadata::law_spec_text_round_trip(s);
}

/// The characters of white space.
pub proof fn law_white_space(c: char)
    ensures
        is_white(c) <==> {
            ||| c == ' ' || c == '\u{9}' || c == '\u{a}' || c == '\u{b}' || c == '\u{c}' || c == '\u{d}'
            ||| c == '\u{85}' || c == '\u{a0}' || c == '\u{1680}'
            ||| c == '\u{2000}' || c == '\u{2001}' || c == '\u{2002}' || c == '\u{2003}'
            ||| c == '\u{2004}' || c == '\u{2005}' || c == '\u{2006}' || c == '\u{2007}'
            ||| c == '\u{2008}' || c == '\u{2009}' || c == '\u{200a}'
            ||| c == '\u{2028}' || c == '\u{2029}' || c == '\u{202f}' || c == '\u{205f}'
            ||| c == '\u{3000}'
        },
{
}

/// When two primitive types, two structs or two variants are equal, and that types of two kinds never
/// are.
pub proof fn law_equal_kinds(
    p: PrimitiveType,
    q: PrimitiveType,
    s: StructV,
    r: StructV,
    a: TypeV,
    b: TypeV,
)
    ensures
        same_type(TypeV::Primitive(p), TypeV::Primitive(q)) <==> p == q,
        same_type(TypeV::Struct(Box::new(s)), TypeV::Struct(Box::new(r))) <==> same_struct(s, r),
        same_type(TypeV::Variant(Box::new(s)), TypeV::Variant(Box::new(r))) <==> same_struct(s, r),
        same_type(a, b) ==> {
            &&& a is Primitive <==> b is Primitive
            &&& a is Array <==> b is Array
            &&& a is MapOf <==> b is MapOf
            &&& a is Struct <==> b is Struct
            &&& a is Variant <==> b is Variant
        },
{
    let same = same_struct(s, r);
}

/// Fields are equal exactly where their names, types and metadata are and both or none can be null.
pub proof fn law_equal_fields(f: FieldV, g: FieldV)
    requires
        forall|k: Seq<char>| #[trigger] f.metadata.contains_key(k) ==> !(f.metadata[k] is Other),
    ensures
        same_field(f, g) <==> f.name == g.name && f.nullable == g.nullable && f.metadata
            == g.metadata && same_type(f.data_type, g.data_type),
{
    if same_field(f, g) {
        assert forall|k: Seq<char>| #[trigger] f.metadata.contains_key(k) implies f.metadata[k]
            == g.metadata[k] by {}
        assert(f.metadata =~= g.metadata);
    }
}

/// What is said of JSON that is no data type.
pub proof fn law_errors_of_types_from_json(j: JsonV)
    ensures
        !(j is String) && !(j is Object) ==> read_type(j) == Err::<TypeV, Seq<char>>(
            "Invalid data type: "@ + json_text(j),
        ),
        j matches JsonV::Object(m) ==> {
            &&& !m.contains_key("type"@) || !(m["type"@] is String) ==> read_type(j) == Err::<
                TypeV,
                Seq<char>,
            >("Invalid data type: "@ + json_text(j))
            &&& m.contains_key("type"@) && m["type"@] is String ==> {
                let kind = m["type"@]->String_0;
                &&& kind != "array"@ && kind != "struct"@ && kind != "map"@ ==> read_type(j)
                    == Err::<TypeV, Seq<char>>("Unknown complex type: '"@ + kind + "'"@)
            }
        },
{
}

/// What is said of numbers of digits that no decimal type has.
pub proof fn law_errors_of_decimals(precision: u8, scale: u8)
    requires
        !valid_decimal(precision, scale),
    ensures
        decimal_error(precision, scale) == (if 1 <= precision <= 38 {
            "scale must be in range 0.."@ + nat_text(precision as nat) + " inclusive, found: "@
                + nat_text(scale as nat) + "."@
        } else {
            "precision must be in range 1..38 inclusive, found: "@ + nat_text(precision as nat)
                + "."@
        }),
{
}

/// What is said of a name that is none of a primitive type.
pub proof fn law_errors_of_primitive_names(name: Seq<char>)
    ensures
        primitive_named(name) is Err && !(name.len() >= 9 && name.take(8) == "decimal("@ && name.last()
            == ')') ==> primitive_named(name) == Err::<PrimitiveType, Seq<char>>(
            "Unsupported Delta table type: '"@ + name + "'"@,
        ),
{
}

/// What is said of the text of a decimal type that is not read: the number of digits, that of the
/// digits behind the point, or more than these two.
pub proof fn law_errors_of_decimal_names(name: Seq<char>, inner: Seq<char>)
    requires
        name == "decimal("@ + inner + seq![')'],
    ensures
        ({
            let parts = comma_parts(inner);
            let r = primitive_named(name);
            &&& u8_value(trimmed(parts[0])) is None ==> r == Err::<PrimitiveType, Seq<char>>(
                "Invalid precision in decimal: "@ + name,
            )
            &&& u8_value(trimmed(parts[0])) is Some && (parts.len() < 2 || u8_value(
                trimmed(parts[1]),
            ) is None) ==> r == Err::<PrimitiveType, Seq<char>>(
                "Invalid scale in decimal: "@ + name,
            )
            &&& u8_value(trimmed(parts[0])) is Some && parts.len() > 2 && u8_value(
                trimmed(parts[1]),
            ) is Some ==> r == Err::<PrimitiveType, Seq<char>>(
                "Invalid decimal format (expected 2 parts): "@ + name,
            )
        }),
{
    lemma_decimal_name(name, inner);
}

/// Texts that are read as types: that of variants, and those of primitive types.
pub proof fn law_simple_types_from_json(s: Seq<char>)
    ensures
        read_type(JsonV::String("variant"@)) == Ok::<TypeV, Seq<char>>(
            TypeV::Variant(Box::new(unshredded())),
        ),
        s != "variant"@ ==> (read_type(JsonV::String(s)) is Ok <==> primitive_named(s) is Ok),
        s != "variant"@ && primitive_named(s) is Ok ==> read_type(JsonV::String(s)) == Ok::<
            TypeV,
            Seq<char>,
        >(TypeV::Primitive(primitive_named(s)->Ok_0)),
        s != "variant"@ && primitive_named(s) is Err ==> read_type(JsonV::String(s)) == Err::<
            TypeV,
            Seq<char>,
        >(primitive_named(s)->Err_0),
{
}

/// A field can be an array too: of its name, its type, whether it is nullable, and its metadata, in this
/// order.
pub proof fn law_field_from_json_array(items: Seq<JsonV>)
    ensures
        ({
            let r = read_field(JsonV::Array(items));
            &&& r is Ok <==> items.len() == 4 && items[0] is String && read_type(items[1]) is Ok
                && items[2] is Bool && items[3] is Object
            &&& r matches Ok(f) ==> {
                &&& items[0] == JsonV::String(f.name)
                &&& read_type(items[1]) == Ok::<TypeV, Seq<char>>(f.data_type)
                &&& items[2] == JsonV::Bool(f.nullable)
                &&& forall|k: Seq<char>| #[trigger]
                    f.metadata.contains_key(k) <==> items[3]->Object_0.contains_key(k)
                &&& forall|k: Seq<char>| #[trigger]
                    f.metadata.contains_key(k) ==> f.metadata[k] == meta_of(items[3]->Object_0[k])
            }
        }),
{
}

/// When JSON is a struct: an object with a text as its kind and with fields, or an array of the two.
pub proof fn law_structs_from_json(m: Map<Seq<char>, JsonV>, items: Seq<JsonV>)
    ensures
        ({
            let r = read_struct(JsonV::Object(m));
            &&& r is Ok <==> m.contains_key("type"@) && m["type"@] is String && m.contains_key(
                "fields"@,
            ) && read_fields(m["fields"@]) is Ok && checked_struct(
                read_fields(m["fields"@])->Ok_0,
            ) is Ok
            &&& r matches Ok(s) ==> checked_struct(read_fields(m["fields"@])->Ok_0) == Ok::<
                StructV,
                ErrorV,
            >(s)
        }),
        ({
            let r = read_struct(JsonV::Array(items));
            &&& r is Ok <==> items.len() == 2 && items[0] is String && read_fields(items[1]) is Ok
                && checked_struct(read_fields(items[1])->Ok_0) is Ok
            &&& r matches Ok(s) ==> checked_struct(read_fields(items[1])->Ok_0) == Ok::<
                StructV,
                ErrorV,
            >(s)
        }),
        forall|j: JsonV|
            !(j is Object) && !(j is Array) ==> (#[trigger] read_struct(j)) is Err && read_field(
                j,
            ) is Err,
        forall|j: JsonV| !(j is Array) ==> (#[trigger] read_fields(j)) is Err,
{
}

/// What is said of JSON that is no field or struct, with the value that stands there.
pub proof fn law_errors_of_other_json(j: JsonV)
    requires
        !(j is Object),
        !(j is Array),
    ensures
        ({
            let found = match j {
                JsonV::Bool(true) => "boolean `"@ + "true"@ + "`"@,
                JsonV::Bool(false) => "boolean `"@ + "false"@ + "`"@,
                JsonV::Number(NumberV::Int(n)) => "integer `"@ + int_text(n) + "`"@,
                JsonV::Number(NumberV::Float(text)) => "floating point `"@ + text + "`"@,
                JsonV::String(s) => "string "@ + quoted(s),
                _ => "null"@,
            };
            &&& read_field(j) == Err::<FieldV, Seq<char>>(
                "invalid type: "@ + found + ", expected "@ + "struct StructField"@,
            )
            &&& read_struct(j) == Err::<StructV, Seq<char>>(
                "invalid type: "@ + found + ", expected "@ + "struct StructTypeSerDeHelper"@,
            )
            &&& read_fields(j) == Err::<Seq<FieldV>, Seq<char>>(
                "invalid type: "@ + found + ", expected "@ + "a sequence"@,
            )
        }),
{
}

/// What is said of a field whose members are as they should be, but for one that is missing.
pub proof fn law_errors_of_missing_members(m: Map<Seq<char>, JsonV>)
    requires
        m.contains_key("name"@) ==> m["name"@] is String,
        m.contains_key("type"@) ==> read_type(m["type"@]) is Ok,
        m.contains_key("nullable"@) ==> m["nullable"@] is Bool,
        m.contains_key("metadata"@) ==> m["metadata"@] is Object,
    ensures
        read_field(JsonV::Object(m)) matches Err(e) ==> e == "missing field `"@ + (
        if !m.contains_key("name"@) {
            "name"@
        } else if !m.contains_key("type"@) {
            "type"@
        } else if !m.contains_key("nullable"@) {
            "nullable"@
        } else {
            "metadata"@
        }) + "`"@,
{
}

/// A metadata column in the fields of a variant is an error.
pub proof fn law_error_of_variants(fields: Seq<FieldV>, i: int)
    requires
        0 <= i < fields.len(),
        fields[i].metadata.contains_key("delta.metadataSpec"@),
    ensures
        variant_fields(fields).len() == fields.len(),
        variant_fields(fields)[i] == Err::<FieldV, ErrorV>(
            ErrorV::Schema("Metadata columns are not allowed in Variant types"@),
        ),
{
}

/// The other fields of a variant stay as they are.
pub proof fn law_fields_of_variants(fields: Seq<FieldV>, i: int)
    requires
        0 <= i < fields.len(),
        !fields[i].metadata.contains_key("delta.metadataSpec"@),
    ensures
        variant_fields(fields)[i] == Ok::<FieldV, ErrorV>(fields[i]),
{
}

/// What is said of a field with a member of another kind than it should be: of its metadata first, then
/// of its name, and then of whether it is nullable.
pub proof fn law_errors_of_members_of_other_kinds(m: Map<Seq<char>, JsonV>)
    ensures
        m.contains_key("metadata"@) && !(m["metadata"@] is Object) ==> read_field(JsonV::Object(m))
            == Err::<FieldV, Seq<char>>(
            "invalid type: "@ + unexpected_text(m["metadata"@]) + ", expected "@ + "a map"@,
        ),
        (m.contains_key("metadata"@) ==> m["metadata"@] is Object) && m.contains_key("name"@) && !(
        m["name"@] is String) ==> read_field(JsonV::Object(m)) == Err::<FieldV, Seq<char>>(
            "invalid type: "@ + unexpected_text(m["name"@]) + ", expected "@ + "a string"@,
        ),
        (m.contains_key("metadata"@) ==> m["metadata"@] is Object) && (m.contains_key("name"@)
            ==> m["name"@] is String) && m.contains_key("nullable"@) && !(m["nullable"@] is Bool)
            ==> read_field(JsonV::Object(m)) == Err::<FieldV, Seq<char>>(
            "invalid type: "@ + unexpected_text(m["nullable"@]) + ", expected "@ + "a boolean"@,
        ),
{
}

} // verus!
