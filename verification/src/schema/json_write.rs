//! Schemas written as JSON, and the law that they are read back as they were.
use vstd::prelude::*;

use crate::error::{DeltaResult, Error};
use crate::json::{
    json_array, json_bool, json_clone, json_number, json_object, json_string, json_to_text,
    no_members, put_member, read_json,
};
use crate::schema::metadata::{MetadataMap, MetadataValue};
use crate::schema::types::{DataType, StructField, StructType};
use crate::text::{flag_text, i64_text, owned};

#[allow(unused_imports)]
use crate::error::ErrorV;
#[allow(unused_imports)]
use crate::json::{
    json_read, json_text, json_view, json_views, members, no_json_members, JsonV, NumberV,
};
#[allow(unused_imports)]
use crate::schema::data_type::unshredded;
#[allow(unused_imports)]
use crate::schema::json_schema::{
    meta_of, read_array, read_field, read_field_list, read_map, read_struct, read_type,
};
#[allow(unused_imports)]
use crate::schema::metadata::{meta_view, MetaV};
#[allow(unused_imports)]
use crate::schema::primitive::{
    comma_parts, digits_value, is_white, named_primitive, primitive_named, primitive_text, trimmed,
    valid_decimal, DecimalType, PrimitiveType,
};
#[allow(unused_imports)]
use crate::schema::struct_type::{checked_struct, fields_of};
#[allow(unused_imports)]
use crate::schema::types::{lemma_struct_parts, lemma_type_parts, EntryV, FieldV, StructV, TypeV};
#[allow(unused_imports)]
use crate::text::{bool_text, digit_char, int_text, nat_text};
#[allow(unused_imports)]
use crate::text_map::{listing, map_of};

verus! {

/// A metadata value as JSON.
pub open spec fn meta_json(v: MetaV) -> JsonV {
    match v {
        MetaV::Number(n) => JsonV::Number(NumberV::Int(n as int)),
        MetaV::String(s) => JsonV::String(s),
        MetaV::Boolean(b) => JsonV::Bool(b),
        MetaV::Other(j) => j,
    }
}

/// A data type as JSON: a primitive type and the variant type by their names, any other as an
/// object.
pub open spec fn type_json(t: TypeV) -> JsonV
    decreases t,
{
    match t {
        TypeV::Primitive(p) => JsonV::String(primitive_text(p)),
        TypeV::Variant(_) => JsonV::String("variant"@),
        TypeV::Array(a) => JsonV::Object(
            no_json_members().insert("type"@, JsonV::String(a.label)).insert(
                "elementType"@,
                type_json(a.element),
            ).insert("containsNull"@, JsonV::Bool(a.contains_null)),
        ),
        TypeV::MapOf(m) => JsonV::Object(
            no_json_members().insert("type"@, JsonV::String(m.label)).insert(
                "keyType"@,
                type_json(m.key),
            ).insert("valueType"@, type_json(m.value)).insert(
                "valueContainsNull"@,
                JsonV::Bool(m.value_contains_null),
            ),
        ),
        TypeV::Struct(s) => struct_json(*s),
    }
}

/// A struct type as JSON.
pub open spec fn struct_json(s: StructV) -> JsonV
    decreases s,
{
    JsonV::Object(
        no_json_members().insert("type"@, JsonV::String(s.label)).insert(
            "fields"@,
            JsonV::Array(entries_json(s.entries)),
        ),
    )
}

/// The fields of a struct type as JSON.
pub open spec fn entries_json(entries: Seq<EntryV>) -> Seq<JsonV>
    decreases entries,
{
    if entries.len() == 0 {
        seq![]
    } else {
        entries_json(entries.drop_last()).push(field_json(entries.last().field))
    }
}

/// A field as JSON.
pub open spec fn field_json(f: FieldV) -> JsonV
    decreases f,
{
    JsonV::Object(
        no_json_members().insert("name"@, JsonV::String(f.name)).insert(
            "type"@,
            type_json(f.data_type),
        ).insert("nullable"@, JsonV::Bool(f.nullable)).insert(
            "metadata"@,
            JsonV::Object(f.metadata.map_values(|v: MetaV| meta_json(v))),
        ),
    )
}

/// A string as JSON text.
pub open spec fn string_text(s: Seq<char>) -> Seq<char> {
    json_text(JsonV::String(s))
}

/// A metadata value as JSON text.
pub open spec fn meta_json_text(v: MetaV) -> Seq<char> {
    match v {
        MetaV::Number(n) => int_text(n as int),
        MetaV::String(s) => string_text(s),
        MetaV::Boolean(b) => bool_text(b),
        MetaV::Other(j) => json_text(j),
    }
}

/// Metadata entries as JSON text.
pub open spec fn pairs_json_text(pairs: Seq<(Seq<char>, MetaV)>) -> Seq<char>
    decreases pairs.len(),
{
    if pairs.len() == 0 {
        seq![]
    } else {
        pairs_json_text(pairs.drop_last()) + (if pairs.len() > 1 {
            ","@
        } else {
            seq![]
        }) + string_text(pairs.last().0) + ":"@ + meta_json_text(pairs.last().1)
    }
}

/// A data type as JSON text.
pub open spec fn type_json_text(t: TypeV) -> Seq<char>
    decreases t,
{
    match t {
        TypeV::Primitive(p) => string_text(primitive_text(p)),
        TypeV::Variant(_) => string_text("variant"@),
        TypeV::Array(a) => "{\"type\":"@ + string_text(a.label) + ",\"elementType\":"@
            + type_json_text(a.element) + ",\"containsNull\":"@ + bool_text(a.contains_null) + "}"@,
        TypeV::MapOf(m) => "{\"type\":"@ + string_text(m.label) + ",\"keyType\":"@ + type_json_text(
            m.key,
        ) + ",\"valueType\":"@ + type_json_text(m.value) + ",\"valueContainsNull\":"@ + bool_text(
            m.value_contains_null,
        ) + "}"@,
        TypeV::Struct(s) => struct_json_text(*s),
    }
}

/// A struct type as JSON text.
pub open spec fn struct_json_text(s: StructV) -> Seq<char>
    decreases s,
{
    "{\"type\":"@ + string_text(s.label) + ",\"fields\":["@ + entries_json_text(s.entries) + "]}"@
}

/// The fields of a struct type as JSON text.
pub open spec fn entries_json_text(entries: Seq<EntryV>) -> Seq<char>
    decreases entries,
{
    if entries.len() == 0 {
        seq![]
    } else {
        entries_json_text(entries.drop_last()) + (if entries.len() > 1 {
            ","@
        } else {
            seq![]
        }) + field_json_text(entries.last().field)
    }
}

/// A field as JSON text.
pub open spec fn field_json_text(f: FieldV) -> Seq<char>
    decreases f,
{
    "{\"name\":"@ + string_text(f.name) + ",\"type\":"@ + type_json_text(f.data_type)
        + ",\"nullable\":"@ + bool_text(f.nullable) + ",\"metadata\":{"@ + pairs_json_text(
        listing(f.metadata),
    ) + "}}"@
}

/// Whether a data type can be read back from what it is written as: its labels are the usual ones,
/// its structs passed the checks, its variants are unshredded, and its metadata holds in each case
/// the most specific kind of value.
pub open spec fn readable_type(t: TypeV) -> bool
    decreases t,
{
    match t {
        TypeV::Primitive(PrimitiveType::Decimal(d)) => valid_decimal(
            d.digits(),
            d.fraction_digits(),
        ),
        TypeV::Primitive(_) => true,
        TypeV::Variant(s) => *s == unshredded(),
        TypeV::Array(a) => a.label == "array"@ && readable_type(a.element),
        TypeV::MapOf(m) => m.label == "map"@ && readable_type(m.key) && readable_type(m.value),
        TypeV::Struct(s) => readable_struct(*s),
    }
}

/// Whether a struct type can be read back.
pub open spec fn readable_struct(s: StructV) -> bool
    decreases s,
{
    checked_struct(fields_of(s)) == Ok::<StructV, ErrorV>(s) && readable_entries(s.entries)
}

/// Whether the fields of a struct type can be read back.
pub open spec fn readable_entries(entries: Seq<EntryV>) -> bool
    decreases entries,
{
    entries.len() > 0 ==> readable_entries(entries.drop_last()) && readable_field(
        entries.last().field,
    )
}

/// Whether a field can be read back.
pub open spec fn readable_field(f: FieldV) -> bool
    decreases f,
{
    &&& readable_type(f.data_type)
    &&& forall|k: Seq<char>| #[trigger]
        f.metadata.contains_key(k) ==> meta_of(meta_json(f.metadata[k])) == f.metadata[k]
}

proof fn lemma_digit(n: nat)
    requires
        n < 10,
    ensures
        '0' <= digit_char(n) <= '9',
        digit_char(n) as int - 48 == n,
{
}

/// A number in decimal has the value of its digits.
pub proof fn lemma_nat_text(n: nat)
    ensures
        nat_text(n).len() > 0,
        digits_value(nat_text(n)) == Some(n),
        forall|i: int| 0 <= i < nat_text(n).len() ==> '0' <= #[trigger] nat_text(n)[i] <= '9',
    decreases n,
{
    if n < 10 {
        lemma_digit(n);
        assert(nat_text(n).last() == digit_char(n));
    } else {
        lemma_nat_text(n / 10);
        lemma_digit(n % 10);
        assert(nat_text(n).drop_last() =~= nat_text(n / 10));
        assert(nat_text(n).last() == digit_char(n % 10));
    }
}

proof fn lemma_no_comma(s: Seq<char>)
    requires
        forall|i: int| 0 <= i < s.len() ==> #[trigger] s[i] != ',',
    ensures
        comma_parts(s) == seq![s],
    decreases s.len(),
{
    if s.len() == 0 {
        assert(s =~= seq![]);
    } else {
        lemma_no_comma(s.drop_last());
        assert(s.drop_last().push(s.last()) =~= s);
        assert(comma_parts(s) =~= seq![s]);
    }
}

proof fn lemma_one_comma(a: Seq<char>, b: Seq<char>)
    requires
        forall|i: int| 0 <= i < a.len() ==> #[trigger] a[i] != ',',
        forall|i: int| 0 <= i < b.len() ==> #[trigger] b[i] != ',',
    ensures
        comma_parts(a.push(',') + b) == seq![a, b],
    decreases b.len(),
{
    let s = a.push(',') + b;
    if b.len() == 0 {
        assert(s =~= a.push(','));
        assert(s.drop_last() =~= a);
        lemma_no_comma(a);
        assert(b =~= seq![]);
        assert(comma_parts(s) =~= seq![a, b]);
    } else {
        let c = b.drop_last();
        assert(s.drop_last() =~= a.push(',') + c);
        lemma_one_comma(a, c);
        assert(c.push(b.last()) =~= b);
        assert(comma_parts(s) =~= seq![a, b]);
    }
}

proof fn lemma_digits_trimmed(s: Seq<char>)
    requires
        s.len() > 0,
        forall|i: int| 0 <= i < s.len() ==> '0' <= #[trigger] s[i] <= '9',
    ensures
        trimmed(s) == s,
{
    assert(!is_white(s[0]));
    assert(!is_white(s.last()));
}

proof fn lemma_decimal_named(d: DecimalType)
    requires
        valid_decimal(d.digits(), d.fraction_digits()),
    ensures
        primitive_named(primitive_text(PrimitiveType::Decimal(d))) == Ok::<
            PrimitiveType,
            Seq<char>,
        >(PrimitiveType::Decimal(d)),
{
    let p = nat_text(d.digits() as nat);
    let s = nat_text(d.fraction_digits() as nat);
    let name = primitive_text(PrimitiveType::Decimal(d));
    lemma_nat_text(d.digits() as nat);
    lemma_nat_text(d.fraction_digits() as nat);
    reveal_strlit("decimal(");
    reveal_strlit(",");
    reveal_strlit(")");
    assert(name.len() == 8 + p.len() + 1 + s.len() + 1);
    assert(name.take(8) =~= "decimal("@);
    assert(name[0] == 'd' && name[1] == 'e');
    reveal_strlit("string");
    reveal_strlit("long");
    reveal_strlit("integer");
    reveal_strlit("short");
    reveal_strlit("byte");
    reveal_strlit("float16");
    reveal_strlit("float");
    reveal_strlit("double");
    reveal_strlit("boolean");
    reveal_strlit("binary");
    reveal_strlit("date");
    reveal_strlit("timestamp");
    reveal_strlit("timestamp_ntz");
    assert(named_primitive(name) is None) by {
        assert("string"@[0] == 's');
        assert("long"@[0] == 'l');
        assert("integer"@[0] == 'i');
        assert("short"@[0] == 's');
        assert("byte"@[0] == 'b');
        assert("float16"@[0] == 'f');
        assert("float"@[0] == 'f');
        assert("double"@[1] == 'o');
        assert("boolean"@[0] == 'b');
        assert("binary"@[0] == 'b');
        assert("date"@[1] == 'a');
        assert("timestamp"@[0] == 't');
        assert("timestamp_ntz"@[0] == 't');
    }
    assert(name.last() == ')');
    assert(name.subrange(8, name.len() - 1) =~= p.push(',') + s);
    lemma_one_comma(p, s);
    lemma_digits_trimmed(p);
    lemma_digits_trimmed(s);
    assert(p[0] != '+');
    assert(s[0] != '+');
    assert(DecimalType::of(d.digits(), d.fraction_digits()) == d);
}

/// The name of a primitive type is read as the type.
pub proof fn lemma_primitive_named(p: PrimitiveType)
    requires
        readable_type(TypeV::Primitive(p)),
    ensures
        primitive_named(primitive_text(p)) == Ok::<PrimitiveType, Seq<char>>(p),
        primitive_text(p) != "variant"@,
{
    reveal_strlit("variant");
    if let PrimitiveType::Decimal(d) = p {
        lemma_decimal_named(d);
        reveal_strlit("decimal(");
        assert(primitive_text(p)[0] == 'd');
        assert("variant"@[0] == 'v');
    } else {
        reveal_strlit("string");
        reveal_strlit("long");
        reveal_strlit("integer");
        reveal_strlit("short");
        reveal_strlit("byte");
        reveal_strlit("float16");
        reveal_strlit("float");
        reveal_strlit("double");
        reveal_strlit("boolean");
        reveal_strlit("binary");
        reveal_strlit("date");
        reveal_strlit("timestamp");
        reveal_strlit("timestamp_ntz");
        assert("string"@[0] == 's' && "string"@[1] == 't');
        assert("long"@[0] == 'l');
        assert("integer"@[0] == 'i');
        assert("short"@[0] == 's' && "short"@[1] == 'h');
        assert("byte"@[0] == 'b' && "byte"@[1] == 'y');
        assert("float16"@.len() == 7 && "float16"@[0] == 'f');
        assert("float"@.len() == 5 && "float"@[0] == 'f');
        assert("double"@[0] == 'd' && "double"@[1] == 'o');
        assert("boolean"@[0] == 'b' && "boolean"@[1] == 'o');
        assert("binary"@[0] == 'b' && "binary"@[1] == 'i');
        assert("date"@[0] == 'd' && "date"@[1] == 'a');
        assert("timestamp"@[0] == 't' && "timestamp"@.len() == 9);
        assert("timestamp_ntz"@[0] == 't' && "timestamp_ntz"@.len() == 13);
        assert("variant"@[0] == 'v');
    }
}

/// A data type is read back as it was written.
pub proof fn law_type_json_round_trip(t: TypeV)
    requires
        readable_type(t),
    ensures
        read_type(type_json(t)) == Ok::<TypeV, Seq<char>>(t),
    decreases t,
{
    lemma_type_parts(t);
    match t {
        TypeV::Primitive(p) => {
            lemma_primitive_named(p);
        },
        TypeV::Variant(s) => {},
        TypeV::Array(a) => {
            law_type_json_round_trip(a.element);
            reveal_strlit("type");
            reveal_strlit("elementType");
            reveal_strlit("containsNull");
            assert("type"@.len() == 4 && "elementType"@.len() == 11 && "containsNull"@.len() == 12);
            let j = type_json(t);
            assert(read_array(j) == Ok::<TypeV, Seq<char>>(t));
        },
        TypeV::MapOf(m) => {
            law_type_json_round_trip(m.key);
            law_type_json_round_trip(m.value);
            reveal_strlit("type");
            reveal_strlit("keyType");
            reveal_strlit("valueType");
            reveal_strlit("valueContainsNull");
            assert("type"@.len() == 4 && "keyType"@.len() == 7 && "valueType"@.len() == 9
                && "valueContainsNull"@.len() == 17);
            reveal_strlit("array");
            reveal_strlit("struct");
            reveal_strlit("map");
            assert("array"@.len() == 5 && "struct"@.len() == 6 && "map"@.len() == 3);
            let j = type_json(t);
            assert(read_map(j) == Ok::<TypeV, Seq<char>>(t));
        },
        TypeV::Struct(s) => {
            law_struct_json_round_trip(*s);
            reveal_strlit("type");
            reveal_strlit("fields");
            assert("type"@.len() == 4 && "fields"@.len() == 6);
            reveal_strlit("array");
            reveal_strlit("struct");
            assert("array"@.len() == 5 && "struct"@.len() == 6);
        },
    }
}

/// A struct type is read back as it was written.
pub proof fn law_struct_json_round_trip(s: StructV)
    requires
        readable_struct(s),
    ensures
        read_struct(struct_json(s)) == Ok::<StructV, Seq<char>>(s),
    decreases s,
{
    assert(decreases_to!(s => s.entries));
    lemma_entries_round_trip(s.entries);
    reveal_strlit("type");
    reveal_strlit("fields");
    assert("type"@.len() == 4 && "fields"@.len() == 6);
    let fields = Seq::new(s.entries.len(), |i: int| s.entries[i].field);
    assert(fields =~= fields_of(s));
}

proof fn lemma_entries_round_trip(entries: Seq<EntryV>)
    requires
        readable_entries(entries),
    ensures
        read_field_list(entries_json(entries)) == Ok::<Seq<FieldV>, Seq<char>>(
            Seq::new(entries.len(), |i: int| entries[i].field),
        ),
    decreases entries,
{
    let fields = Seq::new(entries.len(), |i: int| entries[i].field);
    if entries.len() == 0 {
        assert(fields =~= seq![]);
    } else {
        let front = entries.drop_last();
        lemma_entries_round_trip(front);
        law_field_json_round_trip(entries.last().field);
        assert(entries_json(entries).drop_last() =~= entries_json(front));
        assert(Seq::new(front.len(), |i: int| front[i].field).push(entries.last().field)
            =~= fields);
    }
}

/// A field is read back as it was written.
pub proof fn law_field_json_round_trip(f: FieldV)
    requires
        readable_field(f),
    ensures
        read_field(field_json(f)) == Ok::<FieldV, Seq<char>>(f),
    decreases f,
{
    assert(decreases_to!(f => f.data_type));
    law_type_json_round_trip(f.data_type);
    reveal_strlit("name");
    reveal_strlit("type");
    reveal_strlit("nullable");
    reveal_strlit("metadata");
    assert("name"@.len() == 4 && "type"@.len() == 4 && "nullable"@.len() == 8 && "metadata"@.len()
        == 8);
    assert("name"@[0] == 'n' && "type"@[0] == 't' && "nullable"@[0] == 'n' && "metadata"@[0]
        == 'm');
    let written = f.metadata.map_values(|v: MetaV| meta_json(v));
    assert(written.map_values(|v: JsonV| meta_of(v)) =~= f.metadata);
}

fn metadata_value_json(v: &MetadataValue) -> (r: serde_json::Value)
    ensures
        json_view(r) == meta_json(v@),
{
    match v {
        MetadataValue::Number(n) => json_number(*n),
        MetadataValue::String(s) => json_string(s.clone()),
        MetadataValue::Boolean(b) => json_bool(*b),
        MetadataValue::Other(j) => json_clone(j),
    }
}

fn metadata_json(m: &MetadataMap) -> (r: serde_json::Value)
    ensures
        json_view(r) == JsonV::Object(meta_view(m@).map_values(|v: MetaV| meta_json(v))),
{
    let n: usize = m.len();
    let ghost list = m.list();
    let ghost f = |v: MetadataValue| meta_json(v@);
    let mut object = no_members();
    let mut i: usize = 0;
    assert(list.take(0) =~= seq![]);
    assert(map_of(list.take(0)).map_values(f) =~= no_json_members());
    while i < n
        invariant
            i <= n,
            n == list.len(),
            list == m.list(),
            f == (|v: MetadataValue| meta_json(v@)),
            members(object) == map_of(list.take(i as int)).map_values(f),
        decreases n - i,
    {
        let (key, value) = m.entry(i);
        assert(list.take(i + 1).drop_last() =~= list.take(i as int));
        assert(list.take(i + 1).last() == list[i as int]);
        let ghost before = map_of(list.take(i as int));
        put_member(&mut object, key.clone(), metadata_value_json(value));
        assert(before.insert(key@, *value).map_values(f) =~= before.map_values(f).insert(
            key@,
            meta_json(value@),
        ));
        i = i + 1;
    }
    assert(list.take(n as int) =~= list);
    assert(m@.map_values(f) =~= meta_view(m@).map_values(|v: MetaV| meta_json(v)));
    json_object(object)
}

fn type_to_json(t: &DataType) -> (r: serde_json::Value)
    ensures
        json_view(r) == type_json(t@),
    decreases t@,
{
    proof {
        lemma_type_parts(t@);
    }
    match t {
        DataType::Primitive(p) => json_string(p.text()),
        DataType::Variant(_) => json_string(owned("variant")),
        DataType::Array(a) => {
            let mut m = no_members();
            put_member(&mut m, owned("type"), json_string(a.type_label.clone()));
            put_member(&mut m, owned("elementType"), type_to_json(&a.element_type));
            put_member(&mut m, owned("containsNull"), json_bool(a.contains_null));
            json_object(m)
        },
        DataType::MapOf(x) => {
            let mut m = no_members();
            put_member(&mut m, owned("type"), json_string(x.type_label.clone()));
            put_member(&mut m, owned("keyType"), type_to_json(&x.key_type));
            put_member(&mut m, owned("valueType"), type_to_json(&x.value_type));
            put_member(&mut m, owned("valueContainsNull"), json_bool(x.value_contains_null));
            json_object(m)
        },
        DataType::Struct(s) => struct_to_json(s),
    }
}

fn struct_to_json(s: &StructType) -> (r: serde_json::Value)
    ensures
        json_view(r) == struct_json(s@),
    decreases s@,
{
    let n: usize = s.num_fields();
    let ghost entries = s@.entries;
    let mut items: Vec<serde_json::Value> = Vec::new();
    let mut i: usize = 0;
    assert(json_views(items@) =~= seq![]);
    while i < n
        invariant
            i <= n,
            n == entries.len(),
            entries == s@.entries,
            json_views(items@) == entries_json(entries.take(i as int)),
        decreases n - i,
    {
        proof {
            lemma_struct_parts(s@, i as int);
            assert(entries.take(i + 1).drop_last() =~= entries.take(i as int));
            assert(entries.take(i + 1).last() == entries[i as int]);
        }
        if let Some(field) = s.field_at_index(i) {
            let ghost before = json_views(items@);
            let item = field_to_json(field);
            items.push(item);
            assert(json_views(items@) =~= before.push(json_view(item)));
        }
        i = i + 1;
    }
    assert(entries.take(n as int) =~= entries);
    let mut m = no_members();
    put_member(&mut m, owned("type"), json_string(s.type_label.clone()));
    put_member(&mut m, owned("fields"), json_array(items));
    json_object(m)
}

fn field_to_json(f: &StructField) -> (r: serde_json::Value)
    ensures
        json_view(r) == field_json(f@),
    decreases f@,
{
    assert(decreases_to!(f@ => f@.data_type));
    let mut m = no_members();
    put_member(&mut m, owned("name"), json_string(f.name.clone()));
    put_member(&mut m, owned("type"), type_to_json(&f.data_type));
    put_member(&mut m, owned("nullable"), json_bool(f.nullable));
    put_member(&mut m, owned("metadata"), metadata_json(&f.metadata));
    json_object(m)
}

fn push_string(text: &mut String, s: &str)
    ensures
        final(text)@ == old(text)@ + string_text(s@),
{
    let v = json_string(owned(s));
    text.push_str(json_to_text(&v).as_str());
}

fn push_metadata_value(text: &mut String, v: &MetadataValue)
    ensures
        final(text)@ == old(text)@ + meta_json_text(v@),
{
    match v {
        MetadataValue::Number(n) => {
            text.push_str(i64_text(*n).as_str());
        },
        MetadataValue::String(s) => {
            push_string(text, s.as_str());
        },
        MetadataValue::Boolean(b) => {
            text.push_str(flag_text(*b));
        },
        MetadataValue::Other(j) => {
            text.push_str(json_to_text(j).as_str());
        },
    }
}

fn push_metadata(text: &mut String, m: &MetadataMap)
    ensures
        final(text)@ == old(text)@ + pairs_json_text(listing(meta_view(m@))),
{
    let n: usize = m.len();
    let ghost pairs = listing(meta_view(m@));
    proof {
        let f = |v: MetadataValue| v@;
        crate::text_map::lemma_listing_mapped(m.list(), f);
        assert(meta_view(m@) == m@.map_values(f));
    }
    let mut i: usize = 0;
    while i < n
        invariant
            i <= n,
            n == pairs.len(),
            n == m.list().len(),
            forall|j: int| 0 <= j < n ==> #[trigger] pairs[j] == (m.list()[j].0, m.list()[j].1@),
            text@ == old(text)@ + pairs_json_text(pairs.take(i as int)),
        decreases n - i,
    {
        let ghost next = pairs.take(i + 1);
        assert(next.drop_last() =~= pairs.take(i as int));
        assert(next.last() == pairs[i as int]);
        if i > 0 {
            text.push_str(",");
        }
        let (key, value) = m.entry(i);
        push_string(text, key.as_str());
        text.push_str(":");
        push_metadata_value(text, value);
        assert(text@ =~= old(text)@ + pairs_json_text(next));
        i = i + 1;
    }
    assert(pairs.take(n as int) =~= pairs);
}

fn push_type_json(text: &mut String, t: &DataType)
    ensures
        final(text)@ == old(text)@ + type_json_text(t@),
    decreases t@,
{
    proof {
        lemma_type_parts(t@);
    }
    match t {
        DataType::Primitive(p) => {
            push_string(text, p.text().as_str());
        },
        DataType::Variant(_) => {
            push_string(text, "variant");
        },
        DataType::Array(a) => {
            text.push_str("{\"type\":");
            push_string(text, a.type_label.as_str());
            text.push_str(",\"elementType\":");
            push_type_json(text, &a.element_type);
            text.push_str(",\"containsNull\":");
            text.push_str(flag_text(a.contains_null));
            text.push_str("}");
        },
        DataType::MapOf(m) => {
            text.push_str("{\"type\":");
            push_string(text, m.type_label.as_str());
            text.push_str(",\"keyType\":");
            push_type_json(text, &m.key_type);
            text.push_str(",\"valueType\":");
            push_type_json(text, &m.value_type);
            text.push_str(",\"valueContainsNull\":");
            text.push_str(flag_text(m.value_contains_null));
            text.push_str("}");
        },
        DataType::Struct(s) => {
            push_struct_json(text, s);
        },
    }
    assert(text@ =~= old(text)@ + type_json_text(t@));
}

fn push_struct_json(text: &mut String, s: &StructType)
    ensures
        final(text)@ == old(text)@ + struct_json_text(s@),
    decreases s@,
{
    let n: usize = s.num_fields();
    let ghost entries = s@.entries;
    text.push_str("{\"type\":");
    push_string(text, s.type_label.as_str());
    text.push_str(",\"fields\":[");
    let ghost start = text@;
    let mut i: usize = 0;
    while i < n
        invariant
            i <= n,
            n == entries.len(),
            entries == s@.entries,
            text@ == start + entries_json_text(entries.take(i as int)),
        decreases n - i,
    {
        let ghost next = entries.take(i + 1);
        proof {
            lemma_struct_parts(s@, i as int);
            assert(next.drop_last() =~= entries.take(i as int));
            assert(next.last() == entries[i as int]);
        }
        if i > 0 {
            text.push_str(",");
        }
        if let Some(field) = s.field_at_index(i) {
            push_field_json(text, field);
        }
        assert(text@ =~= start + entries_json_text(next));
        i = i + 1;
    }
    assert(entries.take(n as int) =~= entries);
    text.push_str("]}");
    assert(text@ =~= old(text)@ + struct_json_text(s@));
}

fn push_field_json(text: &mut String, f: &StructField)
    ensures
        final(text)@ == old(text)@ + field_json_text(f@),
    decreases f@,
{
    assert(decreases_to!(f@ => f@.data_type));
    text.push_str("{\"name\":");
    push_string(text, f.name.as_str());
    text.push_str(",\"type\":");
    push_type_json(text, &f.data_type);
    text.push_str(",\"nullable\":");
    text.push_str(flag_text(f.nullable));
    text.push_str(",\"metadata\":{");
    push_metadata(text, &f.metadata);
    text.push_str("}}");
    assert(text@ =~= old(text)@ + field_json_text(f@));
}

/// The JSON value that a text stands for.
pub fn parse_json(text: &str) -> (r: DeltaResult<serde_json::Value>)
    ensures
        match r {
            Ok(v) => json_read(text@) == Ok::<JsonV, Seq<char>>(json_view(v)),
            Err(e) => e@ is Json && json_read(text@) == Err::<JsonV, Seq<char>>(e@.text()),
        },
{
    match read_json(text) {
        Ok(v) => Ok(v),
        Err(e) => Err(Error::Json(e)),
    }
}

impl DataType {
    /// The type as a JSON value.
    pub fn to_json(&self) -> (r: serde_json::Value)
        ensures
            json_view(r) == type_json(self@),
    {
        type_to_json(self)
    }

    /// The type as JSON text.
    pub fn to_json_text(&self) -> (r: String)
        ensures
            r@ == type_json_text(self@),
    {
        let mut r = String::new();
        push_type_json(&mut r, self);
        assert(r@ =~= type_json_text(self@));
        r
    }
}

impl StructField {
    /// The field as a JSON value.
    pub fn to_json(&self) -> (r: serde_json::Value)
        ensures
            json_view(r) == field_json(self@),
    {
        field_to_json(self)
    }

    /// The field as JSON text.
    pub fn to_json_text(&self) -> (r: String)
        ensures
            r@ == field_json_text(self@),
    {
        let mut r = String::new();
        push_field_json(&mut r, self);
        assert(r@ =~= field_json_text(self@));
        r
    }
}

impl StructType {
    /// The struct type as a JSON value.
    pub fn to_json(&self) -> (r: serde_json::Value)
        ensures
            json_view(r) == struct_json(self@),
    {
        struct_to_json(self)
    }

    /// The struct type as JSON text.
    pub fn to_json_text(&self) -> (r: String)
        ensures
            r@ == struct_json_text(self@),
    {
        let mut r = String::new();
        push_struct_json(&mut r, self);
        assert(r@ =~= struct_json_text(self@));
        r
    }
}

} // verus!
