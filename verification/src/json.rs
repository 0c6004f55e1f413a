//! JSON values, as `serde_json` holds them.
use vstd::prelude::*;

#[allow(unused_imports)]
use crate::text::{bool_text, int_text};

verus! {

/// `serde_json::Value`: a JSON value.
#[verifier::external_type_specification]
#[verifier::external_body]
pub struct ExJsonValue(serde_json::Value);

/// `serde_json::Number`: a JSON number.
#[verifier::external_type_specification]
#[verifier::external_body]
pub struct ExJsonNumber(serde_json::Number);

/// `serde_json::Map`: the members of a JSON object.
#[verifier::external_type_specification]
#[verifier::external_body]
#[verifier::reject_recursive_types(K)]
#[verifier::reject_recursive_types(V)]
pub struct ExJsonMap<K, V>(serde_json::Map<K, V>);

/// The model of a JSON number: an integer, or the text of a number that is held as a float.
pub enum NumberV {
    Int(int),
    Float(Seq<char>),
}

/// The model of a JSON value.
pub enum JsonV {
    Null,
    Bool(bool),
    Number(NumberV),
    String(Seq<char>),
    Array(Seq<JsonV>),
    Object(Map<Seq<char>, JsonV>),
}

/// What a JSON number holds.
pub uninterp spec fn number_view(n: serde_json::Number) -> NumberV;

/// What a JSON value holds.
pub uninterp spec fn json_view(v: serde_json::Value) -> JsonV;

/// The members of a JSON object.
pub uninterp spec fn members(m: serde_json::Map<String, serde_json::Value>) -> Map<
    Seq<char>,
    JsonV,
>;

/// The JSON values of a list.
pub open spec fn json_views(items: Seq<serde_json::Value>) -> Seq<JsonV> {
    Seq::new(items.len(), |i: int| json_view(items[i]))
}

/// The members of the object without members.
pub open spec fn no_json_members() -> Map<Seq<char>, JsonV> {
    Map::empty()
}

/// What `==` of `serde_json::Value` gives.
pub uninterp spec fn json_equal(a: JsonV, b: JsonV) -> bool;

/// The compact text that `serde_json` writes for a value.
pub uninterp spec fn json_text(v: JsonV) -> Seq<char>;

/// The text that `Debug` of `serde_json::Value` gives.
pub uninterp spec fn json_debug_text(v: JsonV) -> Seq<char>;

/// What `serde_json` reads from a text: a value, or the text of its error.
pub uninterp spec fn json_read(text: Seq<char>) -> Result<JsonV, Seq<char>>;

/// A JSON value in the order and the form in which it is written.
pub enum JsonTree {
    Bool(bool),
    Int(int),
    /// A value as `serde_json` writes it
    Value(JsonV),
    Array(Seq<JsonTree>),
    Object(Seq<MemberTree>),
}

/// A member of an object in the form in which it is written.
pub struct MemberTree {
    pub key: Seq<char>,
    pub key_text: Seq<char>,
    pub value: JsonTree,
}

/// The text of a JSON value, without white space.
pub open spec fn tree_text(t: JsonTree) -> Seq<char>
    decreases t,
{
    match t {
        JsonTree::Bool(b) => bool_text(b),
        JsonTree::Int(i) => int_text(i),
        JsonTree::Value(v) => json_text(v),
        JsonTree::Array(items) => "["@ + items_text(items) + "]"@,
        JsonTree::Object(list) => "{"@ + members_text(list) + "}"@,
    }
}

/// The text between the brackets of an array.
pub open spec fn items_text(items: Seq<JsonTree>) -> Seq<char>
    decreases items,
{
    if items.len() == 0 {
        seq![]
    } else {
        items_text(items.drop_last()) + (if items.len() > 1 {
            ","@
        } else {
            seq![]
        }) + tree_text(items.last())
    }
}

/// The text between the braces of an object.
pub open spec fn members_text(list: Seq<MemberTree>) -> Seq<char>
    decreases list,
{
    if list.len() == 0 {
        seq![]
    } else {
        members_text(list.drop_last()) + (if list.len() > 1 {
            ","@
        } else {
            seq![]
        }) + list.last().key_text + ":"@ + tree_text(list.last().value)
    }
}

/// The value that is written.
pub open spec fn tree_value(t: JsonTree) -> JsonV
    decreases t,
{
    match t {
        JsonTree::Bool(b) => JsonV::Bool(b),
        JsonTree::Int(i) => JsonV::Number(NumberV::Int(i)),
        JsonTree::Value(v) => v,
        JsonTree::Array(items) => JsonV::Array(item_values(items)),
        JsonTree::Object(list) => JsonV::Object(member_values(list)),
    }
}

/// The values of an array.
pub open spec fn item_values(items: Seq<JsonTree>) -> Seq<JsonV>
    decreases items,
{
    if items.len() == 0 {
        seq![]
    } else {
        item_values(items.drop_last()).push(tree_value(items.last()))
    }
}

/// The members of an object: of those with the same name, the last.
pub open spec fn member_values(list: Seq<MemberTree>) -> Map<Seq<char>, JsonV>
    decreases list,
{
    if list.len() == 0 {
        no_json_members()
    } else {
        member_values(list.drop_last()).insert(list.last().key, tree_value(list.last().value))
    }
}

/// Whether a character stands for itself in a JSON string.
pub open spec fn is_plain_char(c: char) -> bool {
    c >= ' ' && c != '"' && c != '\\'
}

/// Whether a text is a JSON string: as `serde_json` writes it, or in quotes where no character
/// needs an escape.
pub open spec fn spells_string(text: Seq<char>, s: Seq<char>) -> bool {
    ||| text == json_text(JsonV::String(s))
    ||| text == seq!['"'] + s + seq!['"'] && forall|i: int|
        0 <= i < s.len() ==> is_plain_char(#[trigger] s[i])
}

/// Whether a value is nested at most `n` levels deep, its objects have finitely many members, and
/// its numbers are integers that `serde_json` holds as such.
pub open spec fn value_within(v: JsonV, n: nat) -> bool
    decreases n,
{
    match v {
        JsonV::Null | JsonV::Bool(_) | JsonV::String(_) => true,
        JsonV::Number(NumberV::Int(i)) => i64::MIN <= i <= u64::MAX,
        JsonV::Number(NumberV::Float(_)) => false,
        JsonV::Array(items) => n > 0 && forall|i: int|
            0 <= i < items.len() ==> value_within(#[trigger] items[i], (n - 1) as nat),
        JsonV::Object(m) => n > 0 && m.dom().finite() && forall|k: Seq<char>| #[trigger]
            m.contains_key(k) ==> value_within(m[k], (n - 1) as nat),
    }
}

/// Whether what is written is nested at most `n` levels deep, its numbers are integers that
/// `serde_json` holds as such, and the members of its objects have names that are well spelled.
pub open spec fn tree_within(t: JsonTree, n: nat) -> bool
    decreases n, 0nat,
{
    match t {
        JsonTree::Bool(_) => true,
        JsonTree::Int(i) => i64::MIN <= i <= u64::MAX,
        JsonTree::Value(v) => value_within(v, n),
        JsonTree::Array(items) => n > 0 && items_within(items, (n - 1) as nat),
        JsonTree::Object(list) => n > 0 && members_within(list, (n - 1) as nat),
    }
}

/// Whether the items of an array are nested at most `n` levels deep, and so on.
pub open spec fn items_within(items: Seq<JsonTree>, n: nat) -> bool
    decreases n, items.len() + 1,
{
    items.len() > 0 ==> items_within(items.drop_last(), n) && tree_within(items.last(), n)
}

/// Whether the members of an object are nested at most `n` levels deep, and so on.
pub open spec fn members_within(list: Seq<MemberTree>, n: nat) -> bool
    decreases n, list.len() + 1,
{
    list.len() > 0 ==> {
        &&& members_within(list.drop_last(), n)
        &&& spells_string(list.last().key_text, list.last().key)
        &&& tree_within(list.last().value, n)
    }
}

/// A JSON value taken apart by one level.
pub enum JsonRef<'a> {
    Null,
    Bool(bool),
    Number(&'a serde_json::Number),
    String(&'a String),
    Array(&'a Vec<serde_json::Value>),
    Object(&'a serde_json::Map<String, serde_json::Value>),
}

/// The variants of `serde_json::Value`: tells which one a value is, and lends what it holds.
#[verifier::external_body]
pub(crate) fn json_ref(v: &serde_json::Value) -> (r: JsonRef<'_>)
    ensures
        match r {
            JsonRef::Null => json_view(*v) is Null,
            JsonRef::Bool(b) => json_view(*v) == JsonV::Bool(b),
            JsonRef::Number(n) => json_view(*v) == JsonV::Number(number_view(*n)),
            JsonRef::String(s) => json_view(*v) == JsonV::String(s@),
            JsonRef::Array(items) => json_view(*v) == JsonV::Array(json_views(items@)),
            JsonRef::Object(m) => json_view(*v) == JsonV::Object(members(*m)),
        },
{
    match v {
        serde_json::Value::Null => JsonRef::Null,
        serde_json::Value::Bool(b) => JsonRef::Bool(*b),
        serde_json::Value::Number(n) => JsonRef::Number(n),
        serde_json::Value::String(s) => JsonRef::String(s),
        serde_json::Value::Array(items) => JsonRef::Array(items),
        serde_json::Value::Object(m) => JsonRef::Object(m),
    }
}

/// `serde_json::Number::as_i64`: the number, where it is an integer of 64 bits with sign.
#[verifier::external_body]
pub(crate) fn number_as_i64(n: &serde_json::Number) -> (r: Option<i64>)
    ensures
        r == match number_view(*n) {
            NumberV::Int(i) => if i64::MIN <= i <= i64::MAX {
                Some(i as i64)
            } else {
                None
            },
            NumberV::Float(_) => None,
        },
{
    n.as_i64()
}

/// `Display` of `serde_json::Number`: an integer in decimal, or the text of the float.
#[verifier::external_body]
pub(crate) fn number_text(n: &serde_json::Number) -> (r: String)
    ensures
        r@ == match number_view(*n) {
            NumberV::Int(i) => crate::text::int_text(i),
            NumberV::Float(text) => text,
        },
{
    n.to_string()
}

/// `serde_json::Number::is_f64`: whether the number is held as a float.
#[verifier::external_body]
pub(crate) fn number_is_float(n: &serde_json::Number) -> (r: bool)
    ensures
        r == (number_view(*n) is Float),
{
    n.is_f64()
}

/// `serde_json::Map::get`: the member of a name.
#[verifier::external_body]
pub(crate) fn member<'a>(
    m: &'a serde_json::Map<String, serde_json::Value>,
    name: &str,
) -> (r: Option<&'a serde_json::Value>)
    ensures
        match r {
            Some(v) => members(*m).contains_key(name@) && json_view(*v) == members(*m)[name@],
            None => !members(*m).contains_key(name@),
        },
{
    m.get(name)
}

/// `serde_json::Map::iter`: the names and values of all members, each name once.
#[verifier::external_body]
pub(crate) fn member_list<'a>(m: &'a serde_json::Map<String, serde_json::Value>) -> (r: Vec<
    (&'a String, &'a serde_json::Value),
>)
    ensures
        forall|i: int|
            0 <= i < r@.len() ==> members(*m).contains_key((#[trigger] r@[i]).0@) && json_view(
                *r@[i].1,
            ) == members(*m)[r@[i].0@],
        forall|k: Seq<char>| #[trigger]
            members(*m).contains_key(k) ==> exists|i: int|
                0 <= i < r@.len() && (#[trigger] r@[i]).0@ == k,
        forall|i: int, j: int|
            0 <= i < j < r@.len() ==> (#[trigger] r@[i]).0@ != (#[trigger] r@[j]).0@,
{
    m.iter().collect()
}

/// `serde_json::Map::new`: no members.
#[verifier::external_body]
pub(crate) fn no_members() -> (r: serde_json::Map<String, serde_json::Value>)
    ensures
        members(r) == no_json_members(),
{
    serde_json::Map::new()
}

/// `serde_json::Map::insert`: gives a name a value, in place of the one that it had.
#[verifier::external_body]
pub(crate) fn put_member(
    m: &mut serde_json::Map<String, serde_json::Value>,
    name: String,
    v: serde_json::Value,
)
    ensures
        members(*final(m)) == members(*old(m)).insert(name@, json_view(v)),
{
    m.insert(name, v);
}

/// The object variant of `serde_json::Value`.
#[verifier::external_body]
pub(crate) fn json_object(m: serde_json::Map<String, serde_json::Value>) -> (r: serde_json::Value)
    ensures
        json_view(r) == JsonV::Object(members(m)),
{
    serde_json::Value::Object(m)
}

/// The array variant of `serde_json::Value`.
#[verifier::external_body]
pub(crate) fn json_array(items: Vec<serde_json::Value>) -> (r: serde_json::Value)
    ensures
        json_view(r) == JsonV::Array(json_views(items@)),
{
    serde_json::Value::Array(items)
}

/// The string variant of `serde_json::Value`.
#[verifier::external_body]
pub(crate) fn json_string(s: String) -> (r: serde_json::Value)
    ensures
        json_view(r) == JsonV::String(s@),
{
    serde_json::Value::String(s)
}

/// The boolean variant of `serde_json::Value`.
#[verifier::external_body]
pub(crate) fn json_bool(b: bool) -> (r: serde_json::Value)
    ensures
        json_view(r) == JsonV::Bool(b),
{
    serde_json::Value::Bool(b)
}

/// `From<i64>` of `serde_json::Value`: a number that is an integer.
#[verifier::external_body]
pub(crate) fn json_number(n: i64) -> (r: serde_json::Value)
    ensures
        json_view(r) == JsonV::Number(NumberV::Int(n as int)),
{
    serde_json::Value::from(n)
}

/// `Clone` of `serde_json::Value`: a value that holds the same.
#[verifier::external_body]
pub(crate) fn json_clone(v: &serde_json::Value) -> (r: serde_json::Value)
    ensures
        json_view(r) == json_view(*v),
{
    v.clone()
}

/// `==` of `serde_json::Value`, by the name of its result.
#[verifier::external_body]
pub(crate) fn json_eq(a: &serde_json::Value, b: &serde_json::Value) -> (r: bool)
    ensures
        r == json_equal(json_view(*a), json_view(*b)),
{
    a == b
}

/// `Display` of `serde_json::Value`, by the name of its result.
#[verifier::external_body]
pub(crate) fn json_to_text(v: &serde_json::Value) -> (r: String)
    ensures
        r@ == json_text(json_view(*v)),
{
    v.to_string()
}

/// `Debug` of `serde_json::Value`, by the name of its result.
#[verifier::external_body]
pub(crate) fn json_to_debug_text(v: &serde_json::Value) -> (r: String)
    ensures
        r@ == json_debug_text(json_view(*v)),
{
    format!("{v:?}")
}

/// `serde_json::from_str`, by the name of its result: the value that a text stands for, or the
/// text of the error. Text that is well formed and nested at most 127 levels deep is read as what
/// it says; of members with the same name the last one counts. That is not claimed of floats, which
/// can lose their last digit.
#[verifier::external_body]
pub(crate) fn read_json(text: &str) -> (r: Result<serde_json::Value, String>)
    ensures
        match r {
            Ok(v) => json_read(text@) == Ok::<JsonV, Seq<char>>(json_view(v)),
            Err(e) => json_read(text@) == Err::<JsonV, Seq<char>>(e@),
        },
        forall|t: JsonTree|
            text@ == #[trigger] tree_text(t) && tree_within(t, 127) ==> r is Ok && json_view(r->Ok_0)
                == tree_value(t),
{
    serde_json::from_str::<serde_json::Value>(text).map_err(|e| e.to_string())
}

} // verus!
