//! Schemas read from JSON text, and why what was written is read back as it was.
use vstd::prelude::*;

use crate::error::{DeltaResult, Error};
use crate::json::read_json;
use crate::schema::types::{DataType, StructField, StructType};

#[allow(unused_imports)]
use crate::error::ErrorV;
#[allow(unused_imports)]
use crate::json::{
    is_plain_char, item_values, items_text, items_within, json_read, json_view, member_values,
    members_text, members_within, no_json_members, spells_string, tree_text, tree_value,
    tree_within, value_within, JsonTree, JsonV, MemberTree,
};
#[allow(unused_imports)]
use crate::schema::json_schema::{read_field, read_struct, read_type};
#[allow(unused_imports)]
use crate::schema::json_write::{
    entries_json, entries_json_text, field_json, field_json_text, law_field_json_round_trip,
    law_struct_json_round_trip, law_type_json_round_trip, meta_json, meta_json_text,
    pairs_json_text, readable_field, readable_struct, readable_type, string_text, struct_json,
    struct_json_text, type_json, type_json_text,
};
#[allow(unused_imports)]
use crate::schema::metadata::MetaV;
#[allow(unused_imports)]
use crate::schema::primitive::primitive_text;
#[allow(unused_imports)]
use crate::schema::types::{lemma_type_parts, EntryV, FieldV, StructV, TypeV};
#[allow(unused_imports)]
use crate::text::bool_text;
#[allow(unused_imports)]
use crate::text_map::{lemma_listing, lemma_map_of, listing, map_of};

verus! {

/// A member whose name needs no escape.
pub open spec fn plain_member(key: Seq<char>, value: JsonTree) -> MemberTree {
    MemberTree { key, key_text: seq!['"'] + key + seq!['"'], value }
}

/// A string as it is written.
pub open spec fn string_tree(s: Seq<char>) -> JsonTree {
    JsonTree::Value(JsonV::String(s))
}

/// A metadata value as it is written.
pub open spec fn meta_tree(v: MetaV) -> JsonTree {
    match v {
        MetaV::Number(n) => JsonTree::Int(n as int),
        MetaV::String(s) => string_tree(s),
        MetaV::Boolean(b) => JsonTree::Bool(b),
        MetaV::Other(j) => JsonTree::Value(j),
    }
}

/// Metadata entries as they are written.
pub open spec fn pair_trees(pairs: Seq<(Seq<char>, MetaV)>) -> Seq<MemberTree> {
    Seq::new(
        pairs.len(),
        |i: int|
            MemberTree {
                key: pairs[i].0,
                key_text: string_text(pairs[i].0),
                value: meta_tree(pairs[i].1),
            },
    )
}

/// A data type as it is written.
pub open spec fn type_tree(t: TypeV) -> JsonTree
    decreases t,
{
    match t {
        TypeV::Primitive(p) => string_tree(primitive_text(p)),
        TypeV::Variant(_) => string_tree("variant"@),
        TypeV::Array(a) => array_tree(a.label, type_tree(a.element), a.contains_null),
        TypeV::MapOf(m) => map_tree(
            m.label,
            type_tree(m.key),
            type_tree(m.value),
            m.value_contains_null,
        ),
        TypeV::Struct(s) => struct_tree(*s),
    }
}

/// A struct type as it is written.
pub open spec fn struct_tree(s: StructV) -> JsonTree
    decreases s,
{
    JsonTree::Object(
        seq![
            plain_member("type"@, string_tree(s.label)),
            plain_member("fields"@, JsonTree::Array(entry_trees(s.entries))),
        ],
    )
}

/// The fields of a struct type as they are written.
pub open spec fn entry_trees(entries: Seq<EntryV>) -> Seq<JsonTree>
    decreases entries,
{
    if entries.len() == 0 {
        seq![]
    } else {
        entry_trees(entries.drop_last()).push(field_tree(entries.last().field))
    }
}

/// A field as it is written.
pub open spec fn field_tree(f: FieldV) -> JsonTree
    decreases f,
{
    named_tree(f.name, type_tree(f.data_type), f.nullable, pair_trees(listing(f.metadata)))
}

/// The text of an object of two members.
proof fn lemma_two_members(list: Seq<MemberTree>)
    requires
        list.len() == 2,
    ensures
        members_text(list) == list[0].key_text + ":"@ + tree_text(list[0].value) + ","@
            + list[1].key_text + ":"@ + tree_text(list[1].value),
        member_values(list) == no_json_members().insert(
            list[0].key,
            tree_value(list[0].value),
        ).insert(list[1].key, tree_value(list[1].value)),
{
    let one = list.drop_last();
    assert(one.drop_last() =~= Seq::<MemberTree>::empty());
    assert(members_text(one.drop_last()) =~= seq![]);
    assert(members_text(one) =~= list[0].key_text + ":"@ + tree_text(list[0].value));
    assert(member_values(one.drop_last()) == no_json_members());
    assert(member_values(one) == no_json_members().insert(
        list[0].key,
        tree_value(list[0].value),
    ));
}

/// The text of an object of three members.
proof fn lemma_three_members(list: Seq<MemberTree>)
    requires
        list.len() == 3,
    ensures
        members_text(list) == list[0].key_text + ":"@ + tree_text(list[0].value) + ","@
            + list[1].key_text + ":"@ + tree_text(list[1].value) + ","@ + list[2].key_text + ":"@
            + tree_text(list[2].value),
        member_values(list) == no_json_members().insert(
            list[0].key,
            tree_value(list[0].value),
        ).insert(list[1].key, tree_value(list[1].value)).insert(
            list[2].key,
            tree_value(list[2].value),
        ),
{
    lemma_two_members(list.drop_last());
}

/// The text of an object of four members.
proof fn lemma_four_members(list: Seq<MemberTree>)
    requires
        list.len() == 4,
    ensures
        members_text(list) == list[0].key_text + ":"@ + tree_text(list[0].value) + ","@
            + list[1].key_text + ":"@ + tree_text(list[1].value) + ","@ + list[2].key_text + ":"@
            + tree_text(list[2].value) + ","@ + list[3].key_text + ":"@ + tree_text(
            list[3].value,
        ),
        member_values(list) == no_json_members().insert(
            list[0].key,
            tree_value(list[0].value),
        ).insert(list[1].key, tree_value(list[1].value)).insert(
            list[2].key,
            tree_value(list[2].value),
        ).insert(list[3].key, tree_value(list[3].value)),
{
    lemma_three_members(list.drop_last());
}

/// Metadata is written as its tree says.
proof fn lemma_pairs(pairs: Seq<(Seq<char>, MetaV)>)
    ensures
        members_text(pair_trees(pairs)) == pairs_json_text(pairs),
        member_values(pair_trees(pairs)) == map_of(pairs).map_values(|v: MetaV| meta_json(v)),
    decreases pairs.len(),
{
    let trees = pair_trees(pairs);
    let f = |v: MetaV| meta_json(v);
    if pairs.len() == 0 {
        assert(members_text(trees) =~= pairs_json_text(pairs));
        assert(member_values(trees) =~= map_of(pairs).map_values(f));
    } else {
        let front = pairs.drop_last();
        lemma_pairs(front);
        assert(trees.drop_last() =~= pair_trees(front));
        let last = pairs.last();
        assert(tree_text(meta_tree(last.1)) == meta_json_text(last.1));
        assert(tree_value(meta_tree(last.1)) == meta_json(last.1));
        assert(members_text(trees) =~= pairs_json_text(pairs));
        assert(map_of(pairs).map_values(f) =~= map_of(front).map_values(f).insert(
            last.0,
            meta_json(last.1),
        ));
    }
}

/// The tree of an array type, given that of its elements.
pub open spec fn array_tree(label: Seq<char>, element: JsonTree, contains_null: bool) -> JsonTree {
    JsonTree::Object(
        seq![
            plain_member("type"@, string_tree(label)),
            plain_member("elementType"@, element),
            plain_member("containsNull"@, JsonTree::Bool(contains_null)),
        ],
    )
}

/// The tree of a map type, given those of its keys and values.
pub open spec fn map_tree(
    label: Seq<char>,
    key: JsonTree,
    value: JsonTree,
    value_contains_null: bool,
) -> JsonTree {
    JsonTree::Object(
        seq![
            plain_member("type"@, string_tree(label)),
            plain_member("keyType"@, key),
            plain_member("valueType"@, value),
            plain_member("valueContainsNull"@, JsonTree::Bool(value_contains_null)),
        ],
    )
}

/// An array type is written as its tree says.
proof fn lemma_array_tree(label: Seq<char>, element: JsonTree, contains_null: bool)
    ensures
        tree_text(array_tree(label, element, contains_null)) == "{\"type\":"@ + string_text(label)
            + ",\"elementType\":"@ + tree_text(element) + ",\"containsNull\":"@ + bool_text(
            contains_null,
        ) + "}"@,
        tree_value(array_tree(label, element, contains_null)) == JsonV::Object(
            no_json_members().insert("type"@, JsonV::String(label)).insert(
                "elementType"@,
                tree_value(element),
            ).insert("containsNull"@, JsonV::Bool(contains_null)),
        ),
{
    let list = array_tree(label, element, contains_null)->Object_0;
    lemma_three_members(list);
    reveal_strlit("{");
    reveal_strlit(":");
    reveal_strlit(",");
    reveal_strlit("type");
    reveal_strlit("elementType");
    reveal_strlit("containsNull");
    reveal_strlit("{\"type\":");
    reveal_strlit(",\"elementType\":");
    reveal_strlit(",\"containsNull\":");
    assert("{"@ + list[0].key_text + ":"@ =~= "{\"type\":"@);
    assert(","@ + list[1].key_text + ":"@ =~= ",\"elementType\":"@);
    assert(","@ + list[2].key_text + ":"@ =~= ",\"containsNull\":"@);
    assert(tree_text(array_tree(label, element, contains_null)) =~= ("{"@ + list[0].key_text
        + ":"@) + tree_text(list[0].value) + (","@ + list[1].key_text + ":"@) + tree_text(
        list[1].value,
    ) + (","@ + list[2].key_text + ":"@) + tree_text(list[2].value) + "}"@);
}

/// A map type is written as its tree says.
proof fn lemma_map_tree(
    label: Seq<char>,
    key: JsonTree,
    value: JsonTree,
    value_contains_null: bool,
)
    ensures
        tree_text(map_tree(label, key, value, value_contains_null)) == "{\"type\":"@ + string_text(
            label,
        ) + ",\"keyType\":"@ + tree_text(key) + ",\"valueType\":"@ + tree_text(value)
            + ",\"valueContainsNull\":"@ + bool_text(value_contains_null) + "}"@,
        tree_value(map_tree(label, key, value, value_contains_null)) == JsonV::Object(
            no_json_members().insert("type"@, JsonV::String(label)).insert(
                "keyType"@,
                tree_value(key),
            ).insert("valueType"@, tree_value(value)).insert(
                "valueContainsNull"@,
                JsonV::Bool(value_contains_null),
            ),
        ),
{
    let list = map_tree(label, key, value, value_contains_null)->Object_0;
    lemma_four_members(list);
    reveal_strlit("{");
    reveal_strlit(":");
    reveal_strlit(",");
    reveal_strlit("type");
    reveal_strlit("keyType");
    reveal_strlit("valueType");
    reveal_strlit("valueContainsNull");
    reveal_strlit("{\"type\":");
    reveal_strlit(",\"keyType\":");
    reveal_strlit(",\"valueType\":");
    reveal_strlit(",\"valueContainsNull\":");
    assert("{"@ + list[0].key_text + ":"@ =~= "{\"type\":"@);
    assert(","@ + list[1].key_text + ":"@ =~= ",\"keyType\":"@);
    assert(","@ + list[2].key_text + ":"@ =~= ",\"valueType\":"@);
    assert(","@ + list[3].key_text + ":"@ =~= ",\"valueContainsNull\":"@);
    lemma_four_members_text(list);
}

/// A data type is written as its tree says.
proof fn lemma_type_tree(t: TypeV)
    requires
        all_finite(t),
    ensures
        tree_text(type_tree(t)) == type_json_text(t),
        tree_value(type_tree(t)) == type_json(t),
    decreases t,
{
    lemma_type_parts(t);
    match t {
        TypeV::Primitive(_) => {},
        TypeV::Variant(_) => {},
        TypeV::Array(a) => {
            lemma_type_tree(a.element);
            lemma_array_tree(a.label, type_tree(a.element), a.contains_null);
            assert(type_tree(t) == array_tree(a.label, type_tree(a.element), a.contains_null));
        },
        TypeV::MapOf(m) => {
            lemma_type_tree(m.key);
            lemma_type_tree(m.value);
            lemma_map_tree(m.label, type_tree(m.key), type_tree(m.value), m.value_contains_null);
            assert(type_tree(t) == map_tree(
                m.label,
                type_tree(m.key),
                type_tree(m.value),
                m.value_contains_null,
            ));
        },
        TypeV::Struct(s) => {
            lemma_struct_tree(*s);
        },
    }
}

/// A struct type is written as its tree says.
proof fn lemma_struct_tree(s: StructV)
    requires
        all_finite_entries(s.entries),
    ensures
        tree_text(struct_tree(s)) == struct_json_text(s),
        tree_value(struct_tree(s)) == struct_json(s),
    decreases s,
{
    assert(decreases_to!(s => s.entries));
    lemma_entry_trees(s.entries);
    let list = struct_tree(s)->Object_0;
    lemma_two_members(list);
    reveal_strlit("{");
    reveal_strlit("}");
    reveal_strlit(":");
    reveal_strlit(",");
    reveal_strlit("[");
    reveal_strlit("]");
    reveal_strlit("]}");
    reveal_strlit("type");
    reveal_strlit("fields");
    reveal_strlit("{\"type\":");
    reveal_strlit(",\"fields\":[");
    assert("{"@ + list[0].key_text + ":"@ =~= "{\"type\":"@);
    assert(","@ + list[1].key_text + ":"@ + "["@ =~= ",\"fields\":["@);
    assert("]"@ + "}"@ =~= "]}"@);
    assert(tree_text(list[1].value) == "["@ + items_text(entry_trees(s.entries)) + "]"@);
    assert(tree_text(struct_tree(s)) =~= ("{"@ + list[0].key_text + ":"@) + tree_text(
        list[0].value,
    ) + (","@ + list[1].key_text + ":"@ + "["@) + items_text(entry_trees(s.entries)) + ("]"@
        + "}"@));
    assert(tree_value(list[1].value) == JsonV::Array(item_values(entry_trees(s.entries))));
}

/// The fields of a struct type are written as their trees say.
proof fn lemma_entry_trees(entries: Seq<EntryV>)
    requires
        all_finite_entries(entries),
    ensures
        items_text(entry_trees(entries)) == entries_json_text(entries),
        item_values(entry_trees(entries)) == entries_json(entries),
    decreases entries,
{
    let trees = entry_trees(entries);
    if entries.len() > 0 {
        let front = entries.drop_last();
        lemma_entry_trees(front);
        lemma_field_tree(entries.last().field);
        assert(trees.drop_last() =~= entry_trees(front));
        assert(trees.last() == field_tree(entries.last().field));
        lemma_entry_tree_count(front);
    }
}

proof fn lemma_entry_tree_count(entries: Seq<EntryV>)
    ensures
        entry_trees(entries).len() == entries.len(),
    decreases entries.len(),
{
    if entries.len() > 0 {
        lemma_entry_tree_count(entries.drop_last());
    }
}

/// The tree of a field, given those of its type and its metadata.
pub open spec fn named_tree(
    name: Seq<char>,
    data_type: JsonTree,
    nullable: bool,
    metadata: Seq<MemberTree>,
) -> JsonTree {
    JsonTree::Object(
        seq![
            plain_member("name"@, string_tree(name)),
            plain_member("type"@, data_type),
            plain_member("nullable"@, JsonTree::Bool(nullable)),
            plain_member("metadata"@, JsonTree::Object(metadata)),
        ],
    )
}

/// A field is written as its tree says, given its type and its metadata.
proof fn lemma_named_tree(
    name: Seq<char>,
    data_type: JsonTree,
    nullable: bool,
    metadata: Seq<MemberTree>,
)
    ensures
        tree_text(named_tree(name, data_type, nullable, metadata)) == "{\"name\":"@ + string_text(
            name,
        ) + ",\"type\":"@ + tree_text(data_type) + ",\"nullable\":"@ + bool_text(nullable)
            + ",\"metadata\":{"@ + members_text(metadata) + "}}"@,
        tree_value(named_tree(name, data_type, nullable, metadata)) == JsonV::Object(
            no_json_members().insert("name"@, JsonV::String(name)).insert(
                "type"@,
                tree_value(data_type),
            ).insert("nullable"@, JsonV::Bool(nullable)).insert(
                "metadata"@,
                JsonV::Object(member_values(metadata)),
            ),
        ),
{
    let tree = named_tree(name, data_type, nullable, metadata);
    let list = tree->Object_0;
    lemma_four_members(list);
    assert("{"@ + list[0].key_text + ":"@ =~= "{\"name\":"@) by {
        reveal_strlit("{");
        reveal_strlit(":");
        reveal_strlit("name");
        reveal_strlit("{\"name\":");
    }
    assert(","@ + list[1].key_text + ":"@ =~= ",\"type\":"@) by {
        reveal_strlit(",");
        reveal_strlit(":");
        reveal_strlit("type");
        reveal_strlit(",\"type\":");
    }
    assert(","@ + list[2].key_text + ":"@ =~= ",\"nullable\":"@) by {
        reveal_strlit(",");
        reveal_strlit(":");
        reveal_strlit("nullable");
        reveal_strlit(",\"nullable\":");
    }
    assert(","@ + list[3].key_text + ":"@ + "{"@ =~= ",\"metadata\":{"@) by {
        reveal_strlit(",");
        reveal_strlit(":");
        reveal_strlit("{");
        reveal_strlit("metadata");
        reveal_strlit(",\"metadata\":{");
    }
    assert("}"@ + "}"@ =~= "}}"@) by {
        reveal_strlit("}");
        reveal_strlit("}}");
    }
    assert(tree_text(list[3].value) == "{"@ + members_text(metadata) + "}"@);
    assert(tree_value(list[3].value) == JsonV::Object(member_values(metadata)));
    lemma_four_members_text(list);
    let head = ("{"@ + list[0].key_text + ":"@) + tree_text(list[0].value) + (","@
        + list[1].key_text + ":"@) + tree_text(list[1].value) + (","@ + list[2].key_text + ":"@)
        + tree_text(list[2].value);
    lemma_regroup(head, ","@ + list[3].key_text + ":"@, "{"@, members_text(metadata), "}"@);
}

/// How pieces of text are grouped makes no difference.
proof fn lemma_regroup(
    a: Seq<char>,
    b: Seq<char>,
    open: Seq<char>,
    inner: Seq<char>,
    close: Seq<char>,
)
    ensures
        a + b + (open + inner + close) + close == a + (b + open) + inner + (close + close),
{
    assert(a + b + (open + inner + close) + close =~= a + (b + open) + inner + (close + close));
}

/// The text of an object of four members, grouped by its members.
proof fn lemma_four_members_text(list: Seq<MemberTree>)
    requires
        list.len() == 4,
    ensures
        tree_text(JsonTree::Object(list)) == ("{"@ + list[0].key_text + ":"@) + tree_text(
            list[0].value,
        ) + (","@ + list[1].key_text + ":"@) + tree_text(list[1].value) + (","@ + list[2].key_text
            + ":"@) + tree_text(list[2].value) + (","@ + list[3].key_text + ":"@) + tree_text(
            list[3].value,
        ) + "}"@,
{
    let values = Seq::new(4, |i: int| tree_text(list[i].value));
    let one = list[0].key_text + ":"@ + values[0];
    let two = one + ","@ + list[1].key_text + ":"@ + values[1];
    let three = two + ","@ + list[2].key_text + ":"@ + values[2];
    lemma_four_members(list);
    assert("{"@ + one =~= ("{"@ + list[0].key_text + ":"@) + values[0]);
    lemma_append_member("{"@, one, list[1].key_text, values[1]);
    lemma_append_member("{"@, two, list[2].key_text, values[2]);
    lemma_append_member("{"@, three, list[3].key_text, values[3]);
}

/// A member behind others, grouped by itself.
proof fn lemma_append_member(
    open: Seq<char>,
    before: Seq<char>,
    key: Seq<char>,
    value: Seq<char>,
)
    ensures
        open + (before + ","@ + key + ":"@ + value) == (open + before) + (","@ + key + ":"@)
            + value,
{
    assert(open + (before + ","@ + key + ":"@ + value) =~= (open + before) + (","@ + key + ":"@)
        + value);
}

/// A field is written as its tree says.
proof fn lemma_field_tree(f: FieldV)
    requires
        all_finite_field(f),
    ensures
        tree_text(field_tree(f)) == field_json_text(f),
        tree_value(field_tree(f)) == field_json(f),
    decreases f,
{
    assert(decreases_to!(f => f.data_type));
    lemma_type_tree(f.data_type);
    lemma_listing(f.metadata);
    let pairs = listing(f.metadata);
    lemma_pairs(pairs);
    lemma_named_tree(f.name, type_tree(f.data_type), f.nullable, pair_trees(pairs));
}

/// Whether all the metadata of a type is finite.
pub open spec fn all_finite(t: TypeV) -> bool
    decreases t,
{
    match t {
        TypeV::Primitive(_) => true,
        TypeV::Variant(_) => true,
        TypeV::Array(a) => all_finite(a.element),
        TypeV::MapOf(m) => all_finite(m.key) && all_finite(m.value),
        TypeV::Struct(s) => all_finite_entries(s.entries),
    }
}

/// Whether all the metadata of fields is finite.
pub open spec fn all_finite_entries(entries: Seq<EntryV>) -> bool
    decreases entries,
{
    entries.len() > 0 ==> all_finite_entries(entries.drop_last()) && all_finite_field(
        entries.last().field,
    )
}

/// Whether all the metadata of a field is finite.
pub open spec fn all_finite_field(f: FieldV) -> bool
    decreases f,
{
    f.metadata.dom().finite() && all_finite(f.data_type)
}

/// Whether a data type is nested at most `n` levels deep as JSON, and no float is in its metadata.
pub open spec fn type_fits(t: TypeV, n: int) -> bool
    decreases t,
{
    match t {
        TypeV::Primitive(_) => true,
        TypeV::Variant(_) => true,
        TypeV::Array(a) => n >= 1 && type_fits(a.element, n - 1),
        TypeV::MapOf(m) => n >= 1 && type_fits(m.key, n - 1) && type_fits(m.value, n - 1),
        TypeV::Struct(s) => struct_fits(*s, n),
    }
}

/// Whether a struct type is nested at most `n` levels deep as JSON, and so on.
pub open spec fn struct_fits(s: StructV, n: int) -> bool
    decreases s,
{
    n >= 2 && entries_fit(s.entries, n - 2)
}

/// Whether fields are nested at most `n` levels deep as JSON, and so on.
pub open spec fn entries_fit(entries: Seq<EntryV>, n: int) -> bool
    decreases entries,
{
    entries.len() > 0 ==> entries_fit(entries.drop_last(), n) && field_fits(
        entries.last().field,
        n,
    )
}

/// Whether a field is nested at most `n` levels deep as JSON, and so on.
pub open spec fn field_fits(f: FieldV, n: int) -> bool
    decreases f,
{
    &&& n >= 2
    &&& type_fits(f.data_type, n - 1)
    &&& forall|k: Seq<char>| #[trigger]
        f.metadata.contains_key(k) ==> metadata_fits(f.metadata[k], (n - 2) as nat)
}

/// Whether a metadata value is nested at most `n` levels deep, and holds no float.
pub open spec fn metadata_fits(v: MetaV, n: nat) -> bool {
    v matches MetaV::Other(j) ==> value_within(j, n)
}

/// Names of letters need no escape.
proof fn lemma_plain_name(key: Seq<char>)
    requires
        forall|i: int|
            0 <= i < key.len() ==> 'a' <= #[trigger] key[i] <= 'z' || 'A' <= key[i] <= 'Z',
    ensures
        forall|v: JsonTree| spells_string((#[trigger] plain_member(key, v)).key_text, key),
{
    assert forall|i: int| 0 <= i < key.len() implies is_plain_char(#[trigger] key[i]) by {}
}

/// The names of members are plain.
proof fn lemma_names()
    ensures
        forall|v: JsonTree| spells_string((#[trigger] plain_member("name"@, v)).key_text, "name"@),
        forall|v: JsonTree| spells_string((#[trigger] plain_member("type"@, v)).key_text, "type"@),
        forall|v: JsonTree|
            spells_string((#[trigger] plain_member("nullable"@, v)).key_text, "nullable"@),
        forall|v: JsonTree|
            spells_string((#[trigger] plain_member("metadata"@, v)).key_text, "metadata"@),
        forall|v: JsonTree|
            spells_string((#[trigger] plain_member("fields"@, v)).key_text, "fields"@),
        forall|v: JsonTree|
            spells_string((#[trigger] plain_member("elementType"@, v)).key_text, "elementType"@),
        forall|v: JsonTree|
            spells_string((#[trigger] plain_member("containsNull"@, v)).key_text, "containsNull"@),
        forall|v: JsonTree|
            spells_string((#[trigger] plain_member("keyType"@, v)).key_text, "keyType"@),
        forall|v: JsonTree|
            spells_string((#[trigger] plain_member("valueType"@, v)).key_text, "valueType"@),
        forall|v: JsonTree|
            spells_string(
                (#[trigger] plain_member("valueContainsNull"@, v)).key_text,
                "valueContainsNull"@,
            ),
{
    reveal_strlit("name");
    reveal_strlit("type");
    reveal_strlit("nullable");
    reveal_strlit("metadata");
    reveal_strlit("fields");
    reveal_strlit("elementType");
    reveal_strlit("containsNull");
    reveal_strlit("keyType");
    reveal_strlit("valueType");
    reveal_strlit("valueContainsNull");
    lemma_plain_name("name"@);
    lemma_plain_name("type"@);
    lemma_plain_name("nullable"@);
    lemma_plain_name("metadata"@);
    lemma_plain_name("fields"@);
    lemma_plain_name("elementType"@);
    lemma_plain_name("containsNull"@);
    lemma_plain_name("keyType"@);
    lemma_plain_name("valueType"@);
    lemma_plain_name("valueContainsNull"@);
}

/// One more member stays within the depth.
proof fn lemma_member_within(list: Seq<MemberTree>, m: MemberTree, n: nat)
    requires
        members_within(list, n),
        spells_string(m.key_text, m.key),
        tree_within(m.value, n),
    ensures
        members_within(list.push(m), n),
{
    assert(list.push(m).drop_last() =~= list);
}

/// What is written of metadata stays within the depth.
proof fn lemma_pairs_within(pairs: Seq<(Seq<char>, MetaV)>, n: nat)
    requires
        forall|i: int| 0 <= i < pairs.len() ==> metadata_fits((#[trigger] pairs[i]).1, n),
    ensures
        members_within(pair_trees(pairs), n),
    decreases pairs.len(),
{
    let trees = pair_trees(pairs);
    if pairs.len() > 0 {
        let front = pairs.drop_last();
        assert forall|i: int| 0 <= i < front.len() implies metadata_fits(
            (#[trigger] front[i]).1,
            n,
        ) by {
            assert(front[i] == pairs[i]);
        }
        lemma_pairs_within(front, n);
        let last = pairs.last();
        assert(pairs[pairs.len() - 1] == last);
        assert(metadata_fits(last.1, n));
        assert(trees =~= pair_trees(front).push(trees.last()));
        lemma_member_within(pair_trees(front), trees.last(), n);
    }
}

/// What is written of a data type stays within the depth.
proof fn lemma_type_within(t: TypeV, n: int)
    requires
        0 <= n,
        all_finite(t),
        type_fits(t, n),
    ensures
        tree_within(type_tree(t), n as nat),
    decreases t,
{
    lemma_type_parts(t);
    match t {
        TypeV::Primitive(_) => {},
        TypeV::Variant(_) => {},
        TypeV::Array(a) => {
            lemma_names();
            lemma_type_within(a.element, n - 1);
            let d = (n - 1) as nat;
            let list = type_tree(t)->Object_0;
            let none = Seq::<MemberTree>::empty();
            lemma_member_within(none, list[0], d);
            lemma_member_within(none.push(list[0]), list[1], d);
            lemma_member_within(none.push(list[0]).push(list[1]), list[2], d);
            assert(list =~= none.push(list[0]).push(list[1]).push(list[2]));
        },
        TypeV::MapOf(m) => {
            lemma_names();
            lemma_type_within(m.key, n - 1);
            lemma_type_within(m.value, n - 1);
            let d = (n - 1) as nat;
            let list = type_tree(t)->Object_0;
            let none = Seq::<MemberTree>::empty();
            lemma_member_within(none, list[0], d);
            lemma_member_within(none.push(list[0]), list[1], d);
            lemma_member_within(none.push(list[0]).push(list[1]), list[2], d);
            lemma_member_within(none.push(list[0]).push(list[1]).push(list[2]), list[3], d);
            assert(list =~= none.push(list[0]).push(list[1]).push(list[2]).push(list[3]));
        },
        TypeV::Struct(s) => {
            lemma_struct_within(*s, n);
        },
    }
}

/// What is written of a struct type stays within the depth.
proof fn lemma_struct_within(s: StructV, n: int)
    requires
        0 <= n,
        all_finite_entries(s.entries),
        struct_fits(s, n),
    ensures
        tree_within(struct_tree(s), n as nat),
    decreases s,
{
    assert(decreases_to!(s => s.entries));
    lemma_names();
    lemma_entries_within(s.entries, n - 2);
    let d = (n - 1) as nat;
    let list = struct_tree(s)->Object_0;
    let none = Seq::<MemberTree>::empty();
    lemma_member_within(none, list[0], d);
    assert(tree_within(list[1].value, d));
    lemma_member_within(none.push(list[0]), list[1], d);
    assert(list =~= none.push(list[0]).push(list[1]));
}

/// What is written of fields stays within the depth.
proof fn lemma_entries_within(entries: Seq<EntryV>, n: int)
    requires
        0 <= n,
        all_finite_entries(entries),
        entries_fit(entries, n),
    ensures
        items_within(entry_trees(entries), n as nat),
    decreases entries,
{
    if entries.len() > 0 {
        let front = entries.drop_last();
        lemma_entries_within(front, n);
        lemma_field_within(entries.last().field, n);
        let trees = entry_trees(entries);
        assert(trees.drop_last() =~= entry_trees(front));
        assert(trees.last() == field_tree(entries.last().field));
    }
}

/// What is written of a field stays within the depth.
proof fn lemma_field_within(f: FieldV, n: int)
    requires
        0 <= n,
        all_finite_field(f),
        field_fits(f, n),
    ensures
        tree_within(field_tree(f), n as nat),
    decreases f,
{
    assert(decreases_to!(f => f.data_type));
    lemma_names();
    lemma_type_within(f.data_type, n - 1);
    lemma_listing(f.metadata);
    let pairs = listing(f.metadata);
    lemma_map_of(pairs);
    assert forall|i: int| 0 <= i < pairs.len() implies metadata_fits(
        (#[trigger] pairs[i]).1,
        (n - 2) as nat,
    ) by {
        assert(f.metadata.contains_key(pairs[i].0));
    }
    lemma_pairs_within(pairs, (n - 2) as nat);
    let d = (n - 1) as nat;
    let list = field_tree(f)->Object_0;
    let none = Seq::<MemberTree>::empty();
    lemma_member_within(none, list[0], d);
    lemma_member_within(none.push(list[0]), list[1], d);
    lemma_member_within(none.push(list[0]).push(list[1]), list[2], d);
    assert(tree_within(list[3].value, d));
    lemma_member_within(none.push(list[0]).push(list[1]).push(list[2]), list[3], d);
    assert(list =~= none.push(list[0]).push(list[1]).push(list[2]).push(list[3]));
}

/// Whether the text of a data type is read back as the data type: it can be told from its JSON
/// value, and is not nested too deep.
pub open spec fn type_survives(t: TypeV) -> bool {
    readable_type(t) && all_finite(t) && type_fits(t, 127)
}

/// Whether the text of a struct type is read back as the struct type.
pub open spec fn struct_survives(s: StructV) -> bool {
    readable_struct(s) && all_finite_entries(s.entries) && struct_fits(s, 127)
}

/// Whether the text of a field is read back as the field.
pub open spec fn field_survives(f: FieldV) -> bool {
    readable_field(f) && all_finite_field(f) && field_fits(f, 127)
}

impl DataType {
    /// The data type that a JSON text stands for. The text of a data type is read back as it was.
    ///
    /// The text is read as a JSON value first: of members with the same name the last one counts,
    /// and what is wrong with the value is told without its place in the text.
    pub fn from_json_text(text: &str) -> (r: DeltaResult<Self>)
        ensures
            match json_read(text@) {
                Ok(v) => match r {
                    Ok(t) => read_type(v) == Ok::<TypeV, Seq<char>>(t@),
                    Err(e) => e@ is Json && read_type(v) == Err::<TypeV, Seq<char>>(e@.text()),
                },
                Err(e) => r matches Err(x) && x@ == ErrorV::Json(e),
            },
            forall|j: JsonTree|
                text@ == #[trigger] tree_text(j) && tree_within(j, 127) ==> match r {
                    Ok(t) => read_type(tree_value(j)) == Ok::<TypeV, Seq<char>>(t@),
                    Err(e) => e@ is Json && read_type(tree_value(j)) == Err::<TypeV, Seq<char>>(e@.text()),
                },
            forall|t: TypeV|
                text@ == #[trigger] type_json_text(t) && type_survives(t) ==> r is Ok && r->Ok_0@
                    == t,
    {
        let read = read_json(text);
        proof {
            assert forall|t: TypeV| text@ == #[trigger] type_json_text(t) && type_survives(
                t,
            ) implies read is Ok && json_view(read->Ok_0) == type_json(t) && read_type(
                type_json(t),
            ) == Ok::<TypeV, Seq<char>>(t) by {
                lemma_type_tree(t);
                lemma_type_within(t, 127);
                law_type_json_round_trip(t);
                assert(text@ == tree_text(type_tree(t)));
            }
        }
        match read {
            Ok(v) => DataType::from_json(&v),
            Err(e) => Err(Error::Json(e)),
        }
    }
}

impl StructType {
    /// The struct type that a JSON text stands for. The text of a struct type is read back as it
    /// was.
    ///
    /// The text is read as a JSON value first: of members with the same name the last one counts,
    /// and what is wrong with the value is told without its place in the text.
    pub fn from_json_text(text: &str) -> (r: DeltaResult<Self>)
        ensures
            match json_read(text@) {
                Ok(v) => match r {
                    Ok(s) => read_struct(v) == Ok::<StructV, Seq<char>>(s@),
                    Err(e) => e@ is Json && read_struct(v) == Err::<StructV, Seq<char>>(e@.text()),
                },
                Err(e) => r matches Err(x) && x@ == ErrorV::Json(e),
            },
            forall|j: JsonTree|
                text@ == #[trigger] tree_text(j) && tree_within(j, 127) ==> match r {
                    Ok(s) => read_struct(tree_value(j)) == Ok::<StructV, Seq<char>>(s@),
                    Err(e) => e@ is Json && read_struct(tree_value(j)) == Err::<StructV, Seq<char>>(e@.text()),
                },
            forall|s: StructV|
                text@ == #[trigger] struct_json_text(s) && struct_survives(s) ==> r is Ok
                    && r->Ok_0@ == s,
    {
        let read = read_json(text);
        proof {
            assert forall|s: StructV| text@ == #[trigger] struct_json_text(s) && struct_survives(
                s,
            ) implies read is Ok && json_view(read->Ok_0) == struct_json(s) && read_struct(
                struct_json(s),
            ) == Ok::<StructV, Seq<char>>(s) by {
                lemma_struct_tree(s);
                lemma_struct_within(s, 127);
                law_struct_json_round_trip(s);
                assert(text@ == tree_text(struct_tree(s)));
            }
        }
        match read {
            Ok(v) => StructType::from_json(&v),
            Err(e) => Err(Error::Json(e)),
        }
    }
}

impl StructField {
    /// The field that a JSON text stands for. The text of a field is read back as it was.
    ///
    /// The text is read as a JSON value first: of members with the same name the last one counts,
    /// and what is wrong with the value is told without its place in the text.
    pub fn from_json_text(text: &str) -> (r: DeltaResult<Self>)
        ensures
            match json_read(text@) {
                Ok(v) => match r {
                    Ok(f) => read_field(v) == Ok::<FieldV, Seq<char>>(f@),
                    Err(e) => e@ is Json && read_field(v) == Err::<FieldV, Seq<char>>(e@.text()),
                },
                Err(e) => r matches Err(x) && x@ == ErrorV::Json(e),
            },
            forall|j: JsonTree|
                text@ == #[trigger] tree_text(j) && tree_within(j, 127) ==> match r {
                    Ok(f) => read_field(tree_value(j)) == Ok::<FieldV, Seq<char>>(f@),
                    Err(e) => e@ is Json && read_field(tree_value(j)) == Err::<FieldV, Seq<char>>(e@.text()),
                },
            forall|f: FieldV|
                text@ == #[trigger] field_json_text(f) && field_survives(f) ==> r is Ok
                    && r->Ok_0@ == f,
    {
        let read = read_json(text);
        proof {
            assert forall|f: FieldV| text@ == #[trigger] field_json_text(f) && field_survives(
                f,
            ) implies read is Ok && json_view(read->Ok_0) == field_json(f) && read_field(
                field_json(f),
            ) == Ok::<FieldV, Seq<char>>(f) by {
                lemma_field_tree(f);
                lemma_field_within(f, 127);
                law_field_json_round_trip(f);
                assert(text@ == tree_text(field_tree(f)));
            }
        }
        match read {
            Ok(v) => StructField::from_json(&v),
            Err(e) => Err(Error::Json(e)),
        }
    }
}

} // verus!
