//! Schemas as JSON: the values that they are read from, and those that they are written as.
use vstd::prelude::*;

use crate::error::{DeltaResult, Error};
use crate::json::{
    json_clone, json_ref, json_to_text, member, member_list, number_as_i64, number_is_float,
    number_text, JsonRef,
};
use crate::schema::metadata::{quoted_text, MetadataMap, MetadataValue};
use crate::schema::primitive::PrimitiveType;
use crate::schema::struct_type::checked_struct;
use crate::schema::types::{ArrayType, DataType, MapType, StructField, StructType};
use crate::text::{cat2, cat3, flag_text, owned, text_eq, usize_text};
use crate::text_map::TextMap;

#[allow(unused_imports)]
use crate::error::ErrorV;
#[allow(unused_imports)]
use crate::json::{json_text, json_view, json_views, members, JsonV, NumberV};
#[allow(unused_imports)]
use crate::schema::data_type::unshredded;
#[allow(unused_imports)]
use crate::schema::metadata::{meta_view, quoted, MetaV};
#[allow(unused_imports)]
use crate::schema::primitive::primitive_named;
#[allow(unused_imports)]
use crate::schema::struct_type::field_views;
#[allow(unused_imports)]
use crate::schema::types::{ArrayV, FieldV, MapV, StructV, TypeV};
#[allow(unused_imports)]
use crate::text::{bool_text, int_text, nat_text};

verus! {

/// What a value is, in an error about it.
pub open spec fn unexpected_text(j: JsonV) -> Seq<char> {
    match j {
        JsonV::Null => "null"@,
        JsonV::Bool(b) => "boolean `"@ + bool_text(b) + "`"@,
        JsonV::Number(NumberV::Int(n)) => "integer `"@ + int_text(n) + "`"@,
        JsonV::Number(NumberV::Float(text)) => "floating point `"@ + text + "`"@,
        JsonV::String(s) => "string "@ + quoted(s),
        JsonV::Array(_) => "sequence"@,
        JsonV::Object(_) => "map"@,
    }
}

/// The error for a value of the wrong type.
pub open spec fn invalid_type(j: JsonV, expected: Seq<char>) -> Seq<char> {
    "invalid type: "@ + unexpected_text(j) + ", expected "@ + expected
}

/// The error for an array of the wrong length.
pub open spec fn invalid_length(n: nat, expected: Seq<char>) -> Seq<char> {
    "invalid length "@ + nat_text(n) + ", expected "@ + expected
}

/// The error for a member that is not there.
pub open spec fn missing_member(name: Seq<char>) -> Seq<char> {
    "missing field `"@ + name + "`"@
}

/// A boolean, or the error that it is none.
pub open spec fn read_bool(j: JsonV) -> Result<bool, Seq<char>> {
    match j {
        JsonV::Bool(b) => Ok(b),
        _ => Err(invalid_type(j, "a boolean"@)),
    }
}

/// A string, or the error that it is none.
pub open spec fn read_string(j: JsonV) -> Result<Seq<char>, Seq<char>> {
    match j {
        JsonV::String(s) => Ok(s),
        _ => Err(invalid_type(j, "a string"@)),
    }
}

/// The metadata value that a JSON value stands for.
pub open spec fn meta_of(j: JsonV) -> MetaV {
    match j {
        JsonV::Number(NumberV::Int(n)) => if i64::MIN <= n <= i64::MAX {
            MetaV::Number(n as i64)
        } else {
            MetaV::Other(j)
        },
        JsonV::String(s) => MetaV::String(s),
        JsonV::Bool(b) => MetaV::Boolean(b),
        _ => MetaV::Other(j),
    }
}

/// Metadata, or the error that it is none.
pub open spec fn read_metadata(j: JsonV) -> Result<Map<Seq<char>, MetaV>, Seq<char>> {
    match j {
        JsonV::Object(m) => Ok(m.map_values(|v: JsonV| meta_of(v))),
        _ => Err(invalid_type(j, "a map"@)),
    }
}

/// The data type that a JSON value stands for: a string is the name of a primitive type or of the
/// variant type, an object is an array, struct or map type by its member `type`.
pub open spec fn read_type(j: JsonV) -> Result<TypeV, Seq<char>>
    decreases j, 1int,
{
    match j {
        JsonV::String(s) => if s == "variant"@ {
            Ok(TypeV::Variant(Box::new(unshredded())))
        } else {
            match primitive_named(s) {
                Ok(p) => Ok(TypeV::Primitive(p)),
                Err(e) => Err(e),
            }
        },
        JsonV::Object(m) => if m.contains_key("type"@) && m["type"@] is String {
            let kind = m["type"@]->String_0;
            if kind == "array"@ {
                read_array(j)
            } else if kind == "struct"@ {
                match read_struct(j) {
                    Ok(s) => Ok(TypeV::Struct(Box::new(s))),
                    Err(e) => Err(e),
                }
            } else if kind == "map"@ {
                read_map(j)
            } else {
                Err("Unknown complex type: '"@ + kind + "'"@)
            }
        } else {
            Err("Invalid data type: "@ + json_text(j))
        },
        _ => Err("Invalid data type: "@ + json_text(j)),
    }
}

/// The array type that an object of type `array` stands for.
pub open spec fn read_array(j: JsonV) -> Result<TypeV, Seq<char>>
    decreases j, 0int,
{
    match j {
        JsonV::Object(m) => {
            let nulls = "containsNull"@;
            let element = "elementType"@;
            if m.contains_key(nulls) && read_bool(m[nulls]) is Err {
                Err(read_bool(m[nulls])->Err_0)
            } else if m.contains_key(element) && read_type(m[element]) is Err {
                Err(read_type(m[element])->Err_0)
            } else if !m.contains_key(element) {
                Err(missing_member(element))
            } else if !m.contains_key(nulls) {
                Err(missing_member(nulls))
            } else {
                Ok(
                    TypeV::Array(
                        Box::new(
                            ArrayV {
                                label: "array"@,
                                element: read_type(m[element])->Ok_0,
                                contains_null: read_bool(m[nulls])->Ok_0,
                            },
                        ),
                    ),
                )
            }
        },
        _ => Err(seq![]),
    }
}

/// The map type that an object of type `map` stands for. Values can be null unless it says that
/// they cannot.
pub open spec fn read_map(j: JsonV) -> Result<TypeV, Seq<char>>
    decreases j, 0int,
{
    match j {
        JsonV::Object(m) => {
            let key = "keyType"@;
            let nulls = "valueContainsNull"@;
            let value = "valueType"@;
            if m.contains_key(key) && read_type(m[key]) is Err {
                Err(read_type(m[key])->Err_0)
            } else if m.contains_key(nulls) && read_bool(m[nulls]) is Err {
                Err(read_bool(m[nulls])->Err_0)
            } else if m.contains_key(value) && read_type(m[value]) is Err {
                Err(read_type(m[value])->Err_0)
            } else if !m.contains_key(key) {
                Err(missing_member(key))
            } else if !m.contains_key(value) {
                Err(missing_member(value))
            } else {
                Ok(
                    TypeV::MapOf(
                        Box::new(
                            MapV {
                                label: "map"@,
                                key: read_type(m[key])->Ok_0,
                                value: read_type(m[value])->Ok_0,
                                value_contains_null: if m.contains_key(nulls) {
                                    read_bool(m[nulls])->Ok_0
                                } else {
                                    true
                                },
                            },
                        ),
                    ),
                )
            }
        },
        _ => Err(seq![]),
    }
}

/// The struct type that a JSON value stands for: an object with members `type` and `fields`, or an
/// array of the two.
pub open spec fn read_struct(j: JsonV) -> Result<StructV, Seq<char>>
    decreases j, 0int,
{
    match j {
        JsonV::Object(m) => {
            let fields = "fields"@;
            let kind = "type"@;
            if m.contains_key(fields) && read_fields(m[fields]) is Err {
                Err(read_fields(m[fields])->Err_0)
            } else if m.contains_key(kind) && read_string(m[kind]) is Err {
                Err(read_string(m[kind])->Err_0)
            } else if !m.contains_key(kind) {
                Err(missing_member(kind))
            } else if !m.contains_key(fields) {
                Err(missing_member(fields))
            } else {
                built_struct(read_fields(m[fields])->Ok_0)
            }
        },
        JsonV::Array(items) => {
            let expected = "struct StructTypeSerDeHelper with 2 elements"@;
            if items.len() == 0 {
                Err(invalid_length(0, expected))
            } else if read_string(items[0]) is Err {
                Err(read_string(items[0])->Err_0)
            } else if items.len() == 1 {
                Err(invalid_length(1, expected))
            } else if read_fields(items[1]) is Err {
                Err(read_fields(items[1])->Err_0)
            } else if items.len() > 2 {
                Err(invalid_length(items.len(), "fewer elements in array"@))
            } else {
                built_struct(read_fields(items[1])->Ok_0)
            }
        },
        _ => Err(invalid_type(j, "struct StructTypeSerDeHelper"@)),
    }
}

/// The struct of fields that were read, or the text of what is wrong with them.
pub open spec fn built_struct(fields: Seq<FieldV>) -> Result<StructV, Seq<char>> {
    match checked_struct(fields) {
        Ok(s) => Ok(s),
        Err(e) => Err(e.text()),
    }
}

/// The fields that an array stands for, or the first error.
pub open spec fn read_fields(j: JsonV) -> Result<Seq<FieldV>, Seq<char>>
    decreases j, 1int,
{
    match j {
        JsonV::Array(items) => read_field_list(items),
        _ => Err(invalid_type(j, "a sequence"@)),
    }
}

/// The fields that a list of values stands for, or the first error.
pub open spec fn read_field_list(items: Seq<JsonV>) -> Result<Seq<FieldV>, Seq<char>>
    decreases items, 0int,
{
    if items.len() == 0 {
        Ok(seq![])
    } else {
        match read_field_list(items.drop_last()) {
            Err(e) => Err(e),
            Ok(fields) => match read_field(items.last()) {
                Err(e) => Err(e),
                Ok(field) => Ok(fields.push(field)),
            },
        }
    }
}

/// The field that a JSON value stands for: an object with members `name`, `type`, `nullable` and
/// `metadata`, or an array of the four.
pub open spec fn read_field(j: JsonV) -> Result<FieldV, Seq<char>>
    decreases j, 1int,
{
    match j {
        JsonV::Object(m) => {
            let metadata = "metadata"@;
            let name = "name"@;
            let nullable = "nullable"@;
            let kind = "type"@;
            if m.contains_key(metadata) && read_metadata(m[metadata]) is Err {
                Err(read_metadata(m[metadata])->Err_0)
            } else if m.contains_key(name) && read_string(m[name]) is Err {
                Err(read_string(m[name])->Err_0)
            } else if m.contains_key(nullable) && read_bool(m[nullable]) is Err {
                Err(read_bool(m[nullable])->Err_0)
            } else if m.contains_key(kind) && read_type(m[kind]) is Err {
                Err(read_type(m[kind])->Err_0)
            } else if !m.contains_key(name) {
                Err(missing_member(name))
            } else if !m.contains_key(kind) {
                Err(missing_member(kind))
            } else if !m.contains_key(nullable) {
                Err(missing_member(nullable))
            } else if !m.contains_key(metadata) {
                Err(missing_member(metadata))
            } else {
                Ok(
                    FieldV {
                        name: read_string(m[name])->Ok_0,
                        data_type: read_type(m[kind])->Ok_0,
                        nullable: read_bool(m[nullable])->Ok_0,
                        metadata: read_metadata(m[metadata])->Ok_0,
                    },
                )
            }
        },
        JsonV::Array(items) => {
            let expected = "struct StructField with 4 elements"@;
            if items.len() == 0 {
                Err(invalid_length(0, expected))
            } else if read_string(items[0]) is Err {
                Err(read_string(items[0])->Err_0)
            } else if items.len() == 1 {
                Err(invalid_length(1, expected))
            } else if read_type(items[1]) is Err {
                Err(read_type(items[1])->Err_0)
            } else if items.len() == 2 {
                Err(invalid_length(2, expected))
            } else if read_bool(items[2]) is Err {
                Err(read_bool(items[2])->Err_0)
            } else if items.len() == 3 {
                Err(invalid_length(3, expected))
            } else if read_metadata(items[3]) is Err {
                Err(read_metadata(items[3])->Err_0)
            } else if items.len() > 4 {
                Err(invalid_length(items.len(), "fewer elements in array"@))
            } else {
                Ok(
                    FieldV {
                        name: read_string(items[0])->Ok_0,
                        data_type: read_type(items[1])->Ok_0,
                        nullable: read_bool(items[2])->Ok_0,
                        metadata: read_metadata(items[3])->Ok_0,
                    },
                )
            }
        },
        _ => Err(invalid_type(j, "struct StructField"@)),
    }
}

proof fn lemma_member_smaller(j: JsonV, name: Seq<char>)
    requires
        j is Object,
        j->Object_0.contains_key(name),
    ensures
        decreases_to!(j => j->Object_0[name]),
{
}

fn unexpected(v: &serde_json::Value) -> (r: String)
    ensures
        r@ == unexpected_text(json_view(*v)),
{
    match json_ref(v) {
        JsonRef::Null => owned("null"),
        JsonRef::Bool(b) => cat3("boolean `", flag_text(b), "`"),
        JsonRef::Number(n) => if number_is_float(n) {
            cat3("floating point `", number_text(n).as_str(), "`")
        } else {
            cat3("integer `", number_text(n).as_str(), "`")
        },
        JsonRef::String(s) => cat2("string ", quoted_text(s.as_str()).as_str()),
        JsonRef::Array(_) => owned("sequence"),
        JsonRef::Object(_) => owned("map"),
    }
}

fn wrong_type(v: &serde_json::Value, expected: &str) -> (r: Error)
    ensures
        r@ == ErrorV::Json(invalid_type(json_view(*v), expected@)),
{
    let mut text = cat3("invalid type: ", unexpected(v).as_str(), ", expected ");
    text.push_str(expected);
    Error::Json(text)
}

fn wrong_length(n: usize, expected: &str) -> (r: Error)
    ensures
        r@ == ErrorV::Json(invalid_length(n as nat, expected@)),
{
    let mut text = cat3("invalid length ", usize_text(n).as_str(), ", expected ");
    text.push_str(expected);
    Error::Json(text)
}

fn missing(name: &str) -> (r: Error)
    ensures
        r@ == ErrorV::Json(missing_member(name@)),
{
    Error::Json(cat3("missing field `", name, "`"))
}

fn bool_from(v: &serde_json::Value) -> (r: DeltaResult<bool>)
    ensures
        match r {
            Ok(b) => read_bool(json_view(*v)) == Ok::<bool, Seq<char>>(b),
            Err(e) => e@ is Json && read_bool(json_view(*v)) == Err::<bool, Seq<char>>(e@.text()),
        },
{
    match json_ref(v) {
        JsonRef::Bool(b) => Ok(b),
        _ => Err(wrong_type(v, "a boolean")),
    }
}

fn string_from(v: &serde_json::Value) -> (r: DeltaResult<String>)
    ensures
        match r {
            Ok(s) => read_string(json_view(*v)) == Ok::<Seq<char>, Seq<char>>(s@),
            Err(e) => e@ is Json && read_string(json_view(*v)) == Err::<Seq<char>, Seq<char>>(
                e@.text(),
            ),
        },
{
    match json_ref(v) {
        JsonRef::String(s) => Ok(s.clone()),
        _ => Err(wrong_type(v, "a string")),
    }
}

fn metadata_value_from(v: &serde_json::Value) -> (r: MetadataValue)
    ensures
        r@ == meta_of(json_view(*v)),
{
    match json_ref(v) {
        JsonRef::Number(n) => match number_as_i64(n) {
            Some(i) => MetadataValue::Number(i),
            None => MetadataValue::Other(json_clone(v)),
        },
        JsonRef::String(s) => MetadataValue::String(s.clone()),
        JsonRef::Bool(b) => MetadataValue::Boolean(b),
        _ => MetadataValue::Other(json_clone(v)),
    }
}

fn metadata_from(v: &serde_json::Value) -> (r: DeltaResult<MetadataMap>)
    ensures
        match r {
            Ok(m) => read_metadata(json_view(*v)) == Ok::<Map<Seq<char>, MetaV>, Seq<char>>(
                meta_view(m@),
            ),
            Err(e) => e@ is Json && read_metadata(json_view(*v)) == Err::<
                Map<Seq<char>, MetaV>,
                Seq<char>,
            >(e@.text()),
        },
{
    match json_ref(v) {
        JsonRef::Object(m) => {
            let list = member_list(m);
            let mut r: MetadataMap = TextMap::new();
            let mut i: usize = 0;
            while i < list.len()
                invariant
                    i <= list@.len(),
                    forall|j: int|
                        0 <= j < list@.len() ==> members(*m).contains_key(
                            (#[trigger] list@[j]).0@,
                        ) && json_view(*list@[j].1) == members(*m)[list@[j].0@],
                    forall|k: Seq<char>| #[trigger]
                        r@.contains_key(k) <==> exists|j: int|
                            0 <= j < i && (#[trigger] list@[j]).0@ == k,
                    forall|k: Seq<char>| #[trigger]
                        r@.contains_key(k) ==> r@[k]@ == meta_of(members(*m)[k]),
                decreases list@.len() - i,
            {
                let (key, value) = list[i];
                let ghost before = r@;
                r.insert(key.clone(), metadata_value_from(value));
                proof {
                    assert(list@[i as int].0@ == key@);
                    assert forall|k: Seq<char>| #[trigger] r@.contains_key(k) implies exists|
                        j: int,
                    |
                        0 <= j < i + 1 && (#[trigger] list@[j]).0@ == k by {
                        if k == key@ {
                            assert(list@[i as int].0@ == k);
                        } else {
                            assert(before.contains_key(k));
                        }
                    }
                    assert forall|k: Seq<char>|
                        (exists|j: int| 0 <= j < i + 1 && (#[trigger] list@[j]).0@ == k) implies #[trigger] r@.contains_key(k) by {
                        let j = choose|j: int| 0 <= j < i + 1 && (#[trigger] list@[j]).0@ == k;
                        if j < i {
                            assert(before.contains_key(k));
                        }
                    }
                }
                i = i + 1;
            }
            proof {
                let expected = members(*m).map_values(|x: JsonV| meta_of(x));
                assert forall|k: Seq<char>| meta_view(r@).contains_key(k)
                    == expected.contains_key(k) by {
                    if members(*m).contains_key(k) {
                        let j = choose|j: int| 0 <= j < list@.len() && (#[trigger] list@[j]).0@ == k;
                        assert(list@[j].0@ == k);
                        assert(r@.contains_key(k));
                    }
                    if r@.contains_key(k) {
                        let j = choose|j: int| 0 <= j < i && (#[trigger] list@[j]).0@ == k;
                        assert(members(*m).contains_key(list@[j].0@));
                    }
                }
                assert(meta_view(r@) =~= expected);
            }
            Ok(r)
        },
        _ => Err(wrong_type(v, "a map")),
    }
}

fn type_from(v: &serde_json::Value) -> (r: DeltaResult<DataType>)
    ensures
        match r {
            Ok(t) => read_type(json_view(*v)) == Ok::<TypeV, Seq<char>>(t@),
            Err(e) => e@ is Json && read_type(json_view(*v)) == Err::<TypeV, Seq<char>>(e@.text()),
        },
    decreases json_view(*v), 1int, 0int,
{
    match json_ref(v) {
        JsonRef::String(s) => {
            if text_eq(s.as_str(), "variant") {
                return Ok(DataType::unshredded_variant());
            }
            match PrimitiveType::parse(s.as_str()) {
                Ok(p) => Ok(DataType::Primitive(p)),
                Err(e) => Err(e),
            }
        },
        JsonRef::Object(m) => {
            if let Some(kind) = member(m, "type") {
                if let JsonRef::String(kind) = json_ref(kind) {
                    if text_eq(kind.as_str(), "array") {
                        return array_from(v, m);
                    } else if text_eq(kind.as_str(), "struct") {
                        return match struct_from(v) {
                            Ok(s) => Ok(DataType::Struct(Box::new(s))),
                            Err(e) => Err(e),
                        };
                    } else if text_eq(kind.as_str(), "map") {
                        return map_from(v, m);
                    }
                    return Err(Error::Json(cat3("Unknown complex type: '", kind.as_str(), "'")));
                }
            }
            Err(Error::Json(cat2("Invalid data type: ", json_to_text(v).as_str())))
        },
        _ => Err(Error::Json(cat2("Invalid data type: ", json_to_text(v).as_str()))),
    }
}

fn optional_type(
    v: &serde_json::Value,
    m: &serde_json::Map<String, serde_json::Value>,
    name: &str,
) -> (r: DeltaResult<Option<DataType>>)
    requires
        json_view(*v) == JsonV::Object(members(*m)),
    ensures
        match r {
            Ok(Some(t)) => members(*m).contains_key(name@) && read_type(members(*m)[name@]) == Ok::<
                TypeV,
                Seq<char>,
            >(t@),
            Ok(None) => !members(*m).contains_key(name@),
            Err(e) => members(*m).contains_key(name@) && e@ is Json && read_type(
                members(*m)[name@],
            ) == Err::<TypeV, Seq<char>>(e@.text()),
        },
    decreases json_view(*v), 0int, 0int,
{
    match member(m, name) {
        Some(x) => {
            proof {
                lemma_member_smaller(json_view(*v), name@);
            }
            match type_from(x) {
                Ok(t) => Ok(Some(t)),
                Err(e) => Err(e),
            }
        },
        None => Ok(None),
    }
}

fn optional_bool(m: &serde_json::Map<String, serde_json::Value>, name: &str) -> (r: DeltaResult<
    Option<bool>,
>)
    ensures
        match r {
            Ok(Some(b)) => members(*m).contains_key(name@) && read_bool(members(*m)[name@]) == Ok::<
                bool,
                Seq<char>,
            >(b),
            Ok(None) => !members(*m).contains_key(name@),
            Err(e) => members(*m).contains_key(name@) && e@ is Json && read_bool(
                members(*m)[name@],
            ) == Err::<bool, Seq<char>>(e@.text()),
        },
{
    match member(m, name) {
        Some(x) => match bool_from(x) {
            Ok(b) => Ok(Some(b)),
            Err(e) => Err(e),
        },
        None => Ok(None),
    }
}

fn optional_string(m: &serde_json::Map<String, serde_json::Value>, name: &str) -> (r: DeltaResult<
    Option<String>,
>)
    ensures
        match r {
            Ok(Some(s)) => members(*m).contains_key(name@) && read_string(members(*m)[name@])
                == Ok::<Seq<char>, Seq<char>>(s@),
            Ok(None) => !members(*m).contains_key(name@),
            Err(e) => members(*m).contains_key(name@) && e@ is Json && read_string(
                members(*m)[name@],
            ) == Err::<Seq<char>, Seq<char>>(e@.text()),
        },
{
    match member(m, name) {
        Some(x) => match string_from(x) {
            Ok(s) => Ok(Some(s)),
            Err(e) => Err(e),
        },
        None => Ok(None),
    }
}

fn array_from(v: &serde_json::Value, m: &serde_json::Map<String, serde_json::Value>) -> (r:
    DeltaResult<DataType>)
    requires
        json_view(*v) == JsonV::Object(members(*m)),
    ensures
        match r {
            Ok(t) => read_array(json_view(*v)) == Ok::<TypeV, Seq<char>>(t@),
            Err(e) => e@ is Json && read_array(json_view(*v)) == Err::<TypeV, Seq<char>>(e@.text()),
        },
    decreases json_view(*v), 0int, 1int,
{
    let nulls = match optional_bool(m, "containsNull") {
        Ok(b) => b,
        Err(e) => {
            return Err(e);
        },
    };
    let element = match optional_type(v, m, "elementType") {
        Ok(t) => t,
        Err(e) => {
            return Err(e);
        },
    };
    match (element, nulls) {
        (None, _) => Err(missing("elementType")),
        (_, None) => Err(missing("containsNull")),
        (Some(element_type), Some(contains_null)) => Ok(
            DataType::Array(Box::new(ArrayType::new(element_type, contains_null))),
        ),
    }
}

fn map_from(v: &serde_json::Value, m: &serde_json::Map<String, serde_json::Value>) -> (r:
    DeltaResult<DataType>)
    requires
        json_view(*v) == JsonV::Object(members(*m)),
    ensures
        match r {
            Ok(t) => read_map(json_view(*v)) == Ok::<TypeV, Seq<char>>(t@),
            Err(e) => e@ is Json && read_map(json_view(*v)) == Err::<TypeV, Seq<char>>(e@.text()),
        },
    decreases json_view(*v), 0int, 1int,
{
    let key = match optional_type(v, m, "keyType") {
        Ok(t) => t,
        Err(e) => {
            return Err(e);
        },
    };
    let nulls = match optional_bool(m, "valueContainsNull") {
        Ok(b) => b,
        Err(e) => {
            return Err(e);
        },
    };
    let value = match optional_type(v, m, "valueType") {
        Ok(t) => t,
        Err(e) => {
            return Err(e);
        },
    };
    match (key, value) {
        (None, _) => Err(missing("keyType")),
        (_, None) => Err(missing("valueType")),
        (Some(key_type), Some(value_type)) => {
            let value_contains_null = match nulls {
                Some(b) => b,
                None => true,
            };
            Ok(DataType::MapOf(Box::new(MapType::new(key_type, value_type, value_contains_null))))
        },
    }
}

fn build_struct(fields: Vec<StructField>) -> (r: DeltaResult<StructType>)
    ensures
        match r {
            Ok(s) => built_struct(field_views(fields@)) == Ok::<StructV, Seq<char>>(s@),
            Err(e) => e@ is Json && built_struct(field_views(fields@)) == Err::<
                StructV,
                Seq<char>,
            >(e@.text()),
        },
{
    match StructType::try_new(fields) {
        Ok(s) => Ok(s),
        Err(e) => Err(Error::Json(owned(e.text()))),
    }
}

fn struct_from(v: &serde_json::Value) -> (r: DeltaResult<StructType>)
    ensures
        match r {
            Ok(s) => read_struct(json_view(*v)) == Ok::<StructV, Seq<char>>(s@),
            Err(e) => e@ is Json && read_struct(json_view(*v)) == Err::<StructV, Seq<char>>(
                e@.text(),
            ),
        },
    decreases json_view(*v), 0int, 1int,
{
    match json_ref(v) {
        JsonRef::Object(m) => {
            let fields = match member(m, "fields") {
                Some(x) => {
                    proof {
                        lemma_member_smaller(json_view(*v), "fields"@);
                    }
                    match fields_from(x) {
                        Ok(fields) => Some(fields),
                        Err(e) => {
                            return Err(e);
                        },
                    }
                },
                None => None,
            };
            let kind = match optional_string(m, "type") {
                Ok(s) => s,
                Err(e) => {
                    return Err(e);
                },
            };
            match (kind, fields) {
                (None, _) => Err(missing("type")),
                (_, None) => Err(missing("fields")),
                (Some(_), Some(fields)) => build_struct(fields),
            }
        },
        JsonRef::Array(items) => {
            let ghost views = json_views(items@);
            let n: usize = items.len();
            if n == 0 {
                return Err(wrong_length(0, "struct StructTypeSerDeHelper with 2 elements"));
            }
            assert(views[0] == json_view(items@[0]));
            if let Err(e) = string_from(&items[0]) {
                return Err(e);
            }
            if n == 1 {
                return Err(wrong_length(1, "struct StructTypeSerDeHelper with 2 elements"));
            }
            proof {
                assert(views[1] == json_view(items@[1]));
                assert(decreases_to!(json_view(*v) => views));
                assert(decreases_to!(views => views[1]));
            }
            let fields = match fields_from(&items[1]) {
                Ok(fields) => fields,
                Err(e) => {
                    return Err(e);
                },
            };
            if n > 2 {
                return Err(wrong_length(n, "fewer elements in array"));
            }
            build_struct(fields)
        },
        _ => Err(wrong_type(v, "struct StructTypeSerDeHelper")),
    }
}

proof fn lemma_field_list_fails(items: Seq<JsonV>, n: int)
    requires
        0 <= n <= items.len(),
        read_field_list(items.take(n)) is Err,
    ensures
        read_field_list(items) == read_field_list(items.take(n)),
    decreases items.len(),
{
    if n == items.len() {
        assert(items.take(n) =~= items);
    } else {
        assert(items.drop_last().take(n) =~= items.take(n));
        lemma_field_list_fails(items.drop_last(), n);
    }
}

fn fields_from(v: &serde_json::Value) -> (r: DeltaResult<Vec<StructField>>)
    ensures
        match r {
            Ok(fields) => read_fields(json_view(*v)) == Ok::<Seq<FieldV>, Seq<char>>(
                field_views(fields@),
            ),
            Err(e) => e@ is Json && read_fields(json_view(*v)) == Err::<Seq<FieldV>, Seq<char>>(
                e@.text(),
            ),
        },
    decreases json_view(*v), 1int, 0int,
{
    match json_ref(v) {
        JsonRef::Array(items) => {
            let ghost views = json_views(items@);
            let mut fields: Vec<StructField> = Vec::new();
            let mut i: usize = 0;
            assert(views.take(0) =~= seq![]);
            assert(field_views(fields@) =~= seq![]);
            while i < items.len()
                invariant
                    i <= items@.len(),
                    views == json_views(items@),
                    json_view(*v) == JsonV::Array(views),
                    read_field_list(views.take(i as int)) == Ok::<Seq<FieldV>, Seq<char>>(
                        field_views(fields@),
                    ),
                decreases items@.len() - i,
            {
                proof {
                    assert(views.take(i + 1).drop_last() =~= views.take(i as int));
                    assert(views.take(i + 1).last() == json_view(items@[i as int]));
                    assert(decreases_to!(json_view(*v) => views));
                    assert(decreases_to!(views => views[i as int]));
                }
                match field_from(&items[i]) {
                    Ok(field) => {
                        let ghost before = field_views(fields@);
                        fields.push(field);
                        assert(field_views(fields@) =~= before.push(field@));
                    },
                    Err(e) => {
                        proof {
                            lemma_field_list_fails(views, i + 1);
                        }
                        return Err(e);
                    },
                }
                i = i + 1;
            }
            assert(views.take(i as int) =~= views);
            Ok(fields)
        },
        _ => Err(wrong_type(v, "a sequence")),
    }
}

fn field_from(v: &serde_json::Value) -> (r: DeltaResult<StructField>)
    ensures
        match r {
            Ok(f) => read_field(json_view(*v)) == Ok::<FieldV, Seq<char>>(f@),
            Err(e) => e@ is Json && read_field(json_view(*v)) == Err::<FieldV, Seq<char>>(e@.text()),
        },
    decreases json_view(*v), 1int, 0int,
{
    match json_ref(v) {
        JsonRef::Object(m) => {
            let metadata = match member(m, "metadata") {
                Some(x) => match metadata_from(x) {
                    Ok(metadata) => Some(metadata),
                    Err(e) => {
                        return Err(e);
                    },
                },
                None => None,
            };
            let name = match optional_string(m, "name") {
                Ok(s) => s,
                Err(e) => {
                    return Err(e);
                },
            };
            let nullable = match optional_bool(m, "nullable") {
                Ok(b) => b,
                Err(e) => {
                    return Err(e);
                },
            };
            let data_type = match optional_type(v, m, "type") {
                Ok(t) => t,
                Err(e) => {
                    return Err(e);
                },
            };
            match (name, data_type, nullable, metadata) {
                (None, _, _, _) => Err(missing("name")),
                (_, None, _, _) => Err(missing("type")),
                (_, _, None, _) => Err(missing("nullable")),
                (_, _, _, None) => Err(missing("metadata")),
                (Some(name), Some(data_type), Some(nullable), Some(metadata)) => Ok(
                    StructField { name, data_type, nullable, metadata },
                ),
            }
        },
        JsonRef::Array(items) => {
            let ghost views = json_views(items@);
            let n: usize = items.len();
            proof {
                assert(decreases_to!(json_view(*v) => views));
            }
            if n == 0 {
                return Err(wrong_length(0, "struct StructField with 4 elements"));
            }
            assert(views[0] == json_view(items@[0]));
            let name = match string_from(&items[0]) {
                Ok(s) => s,
                Err(e) => {
                    return Err(e);
                },
            };
            if n == 1 {
                return Err(wrong_length(1, "struct StructField with 4 elements"));
            }
            proof {
                assert(views[1] == json_view(items@[1]));
                assert(decreases_to!(views => views[1]));
            }
            let data_type = match type_from(&items[1]) {
                Ok(t) => t,
                Err(e) => {
                    return Err(e);
                },
            };
            if n == 2 {
                return Err(wrong_length(2, "struct StructField with 4 elements"));
            }
            assert(views[2] == json_view(items@[2]));
            let nullable = match bool_from(&items[2]) {
                Ok(b) => b,
                Err(e) => {
                    return Err(e);
                },
            };
            if n == 3 {
                return Err(wrong_length(3, "struct StructField with 4 elements"));
            }
            assert(views[3] == json_view(items@[3]));
            let metadata = match metadata_from(&items[3]) {
                Ok(metadata) => metadata,
                Err(e) => {
                    return Err(e);
                },
            };
            if n > 4 {
                return Err(wrong_length(n, "fewer elements in array"));
            }
            Ok(StructField { name, data_type, nullable, metadata })
        },
        _ => Err(wrong_type(v, "struct StructField")),
    }
}

impl DataType {
    /// The data type that a JSON value stands for.
    pub fn from_json(v: &serde_json::Value) -> (r: DeltaResult<Self>)
        ensures
            match r {
                Ok(t) => read_type(json_view(*v)) == Ok::<TypeV, Seq<char>>(t@),
                Err(e) => e@ is Json && read_type(json_view(*v)) == Err::<TypeV, Seq<char>>(
                    e@.text(),
                ),
            },
    {
        type_from(v)
    }
}

impl StructField {
    /// The field that a JSON value stands for.
    pub fn from_json(v: &serde_json::Value) -> (r: DeltaResult<Self>)
        ensures
            match r {
                Ok(f) => read_field(json_view(*v)) == Ok::<FieldV, Seq<char>>(f@),
                Err(e) => e@ is Json && read_field(json_view(*v)) == Err::<FieldV, Seq<char>>(
                    e@.text(),
                ),
            },
    {
        field_from(v)
    }
}

impl StructType {
    /// The struct type that a JSON value stands for.
    pub fn from_json(v: &serde_json::Value) -> (r: DeltaResult<Self>)
        ensures
            match r {
                Ok(s) => read_struct(json_view(*v)) == Ok::<StructV, Seq<char>>(s@),
                Err(e) => e@ is Json && read_struct(json_view(*v)) == Err::<StructV, Seq<char>>(
                    e@.text(),
                ),
            },
    {
        struct_from(v)
    }
}

} // verus!
