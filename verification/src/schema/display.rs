//! The texts of data types, fields and schemas.
use vstd::prelude::*;

use crate::schema::metadata::MetadataMap;
use crate::schema::types::{DataType, StructField, StructType};
use crate::text::flag_text;

#[allow(unused_imports)]
use crate::schema::metadata::{meta_debug_text, meta_view, MetaV, MetadataValue};
#[allow(unused_imports)]
use crate::schema::primitive::primitive_text;
#[allow(unused_imports)]
use crate::schema::types::{
    lemma_struct_parts, lemma_type_parts, ArrayV, EntryV, FieldV, MapV, StructV, TypeV,
};
#[allow(unused_imports)]
use crate::text::bool_text;
#[allow(unused_imports)]
use crate::text_map::listing;

verus! {

/// The text of a data type on one line.
pub open spec fn type_text(t: TypeV) -> Seq<char>
    decreases t,
{
    match t {
        TypeV::Primitive(p) => primitive_text(p),
        TypeV::Array(a) => "array<"@ + type_text(a.element) + ">"@,
        TypeV::Struct(s) => "struct<"@ + members_text(s.entries) + ">"@,
        TypeV::MapOf(m) => "map<"@ + type_text(m.key) + ", "@ + type_text(m.value) + ">"@,
        TypeV::Variant(_) => "variant"@,
    }
}

/// The names and types of fields, with commas between them.
pub open spec fn members_text(entries: Seq<EntryV>) -> Seq<char>
    decreases entries,
{
    if entries.len() == 0 {
        seq![]
    } else {
        members_text(entries.drop_last()) + (if entries.len() > 1 {
            ", "@
        } else {
            seq![]
        }) + entries.last().field.name + ": "@ + type_text(entries.last().field.data_type)
    }
}

/// Metadata entries with commas between them.
pub open spec fn pairs_text(pairs: Seq<(Seq<char>, MetaV)>) -> Seq<char>
    decreases pairs.len(),
{
    if pairs.len() == 0 {
        seq![]
    } else {
        pairs_text(pairs.drop_last()) + (if pairs.len() > 1 {
            ", "@
        } else {
            seq![]
        }) + pairs.last().0 + ": "@ + meta_debug_text(pairs.last().1)
    }
}

/// The text of a field on one line.
pub open spec fn field_text(f: FieldV) -> Seq<char> {
    f.name + ": "@ + type_text(f.data_type) + " (is nullable: "@ + bool_text(f.nullable)
        + ", metadata: {"@ + pairs_text(listing(f.metadata)) + "})"@
}

/// What stands in front of a line of a tree: for each level above it a bar, where that level goes
/// on, and for its own level a branch.
pub open spec fn indent_text(levels: Seq<bool>) -> Seq<char> {
    if levels.len() == 0 {
        seq![]
    } else {
        bars_text(levels.drop_last()) + if levels.last() {
            "└─"@
        } else {
            "├─"@
        }
    }
}

/// The bars of the levels above a line.
pub open spec fn bars_text(levels: Seq<bool>) -> Seq<char>
    decreases levels.len(),
{
    if levels.len() == 0 {
        seq![]
    } else {
        bars_text(levels.drop_last()) + if levels.last() {
            "   "@
        } else {
            "│  "@
        }
    }
}

/// The lines of the first fields of a struct with `total` fields.
pub open spec fn rows_text(entries: Seq<EntryV>, total: int, levels: Seq<bool>) -> Seq<char>
    decreases entries, 0int,
{
    if entries.len() == 0 {
        seq![]
    } else {
        let level = levels.push(entries.len() == total);
        rows_text(entries.drop_last(), total, levels) + indent_text(level) + field_text(
            entries.last().field,
        ) + "\n"@ + below_text(entries.last().field.data_type, level)
    }
}

/// The lines of what a data type is made of.
pub open spec fn below_text(t: TypeV, levels: Seq<bool>) -> Seq<char>
    decreases t, 0int,
{
    match t {
        TypeV::Struct(s) => rows_text(s.entries, s.entries.len() as int, levels),
        TypeV::Array(a) => part_lines("array_element: "@, a.element, levels.push(true)),
        TypeV::MapOf(m) => part_lines("map_key: "@, m.key, levels.push(false)) + part_lines(
            "map_value: "@,
            m.value,
            levels.push(true),
        ),
        _ => seq![],
    }
}

/// The line of a part of a data type, and the lines of what the part is made of.
pub open spec fn part_lines(label: Seq<char>, t: TypeV, levels: Seq<bool>) -> Seq<char>
    decreases t, 1int,
{
    indent_text(levels) + label + type_text(t) + "\n"@ + below_text(t, levels)
}

/// The text of a struct type as a tree, one line for each field.
pub open spec fn tree_text(s: StructV) -> Seq<char> {
    s.label + ":\n"@ + rows_text(s.entries, s.entries.len() as int, seq![])
}

fn push_type(text: &mut String, t: &DataType)
    ensures
        final(text)@ == old(text)@ + type_text(t@),
    decreases t@,
{
    proof {
        lemma_type_parts(t@);
    }
    match t {
        DataType::Primitive(p) => {
            text.push_str(p.text().as_str());
        },
        DataType::Array(a) => {
            text.push_str("array<");
            push_type(text, &a.element_type);
            text.push_str(">");
        },
        DataType::Struct(s) => {
            text.push_str("struct<");
            push_members(text, s);
            text.push_str(">");
        },
        DataType::MapOf(m) => {
            text.push_str("map<");
            push_type(text, &m.key_type);
            text.push_str(", ");
            push_type(text, &m.value_type);
            text.push_str(">");
        },
        DataType::Variant(_) => {
            text.push_str("variant");
        },
    }
    assert(text@ =~= old(text)@ + type_text(t@));
}

fn push_members(text: &mut String, s: &StructType)
    ensures
        final(text)@ == old(text)@ + members_text(s@.entries),
    decreases s@,
{
    let n: usize = s.num_fields();
    let ghost entries = s@.entries;
    let mut i: usize = 0;
    while i < n
        invariant
            i <= n,
            n == entries.len(),
            entries == s@.entries,
            text@ == old(text)@ + members_text(entries.take(i as int)),
        decreases n - i,
    {
        let ghost next = entries.take(i + 1);
        proof {
            assert(next.drop_last() =~= entries.take(i as int));
            lemma_struct_parts(s@, i as int);
        }
        if i > 0 {
            text.push_str(", ");
        }
        if let Some(field) = s.field_at_index(i) {
            text.push_str(field.name.as_str());
            text.push_str(": ");
            push_type(text, &field.data_type);
        }
        assert(text@ =~= old(text)@ + members_text(next));
        i = i + 1;
    }
    assert(entries.take(n as int) =~= entries);
}

fn push_metadata(text: &mut String, m: &MetadataMap)
    ensures
        final(text)@ == old(text)@ + pairs_text(listing(meta_view(m@))),
{
    let n: usize = m.len();
    let ghost pairs = listing(meta_view(m@));
    proof {
        let f = |v: MetadataValue| v@;
        crate::text_map::lemma_listing_mapped(m.list(), f);
        assert(meta_view(m@) == m@.map_values(f));
    }
    let mut i: usize = 0;
    while i < n
        invariant
            i <= n,
            n == pairs.len(),
            n == m.list().len(),
            forall|j: int| 0 <= j < n ==> #[trigger] pairs[j] == (m.list()[j].0, m.list()[j].1@),
            text@ == old(text)@ + pairs_text(pairs.take(i as int)),
        decreases n - i,
    {
        let ghost next = pairs.take(i + 1);
        assert(next.drop_last() =~= pairs.take(i as int));
        assert(next.last() == pairs[i as int]);
        if i > 0 {
            text.push_str(", ");
        }
        let (key, value) = m.entry(i);
        text.push_str(key.as_str());
        text.push_str(": ");
        text.push_str(value.debug_text().as_str());
        assert(text@ =~= old(text)@ + pairs_text(next));
        i = i + 1;
    }
    assert(pairs.take(n as int) =~= pairs);
}

fn push_field(text: &mut String, f: &StructField)
    ensures
        final(text)@ == old(text)@ + field_text(f@),
{
    text.push_str(f.name.as_str());
    text.push_str(": ");
    push_type(text, &f.data_type);
    text.push_str(" (is nullable: ");
    text.push_str(flag_text(f.nullable));
    text.push_str(", metadata: {");
    push_metadata(text, &f.metadata);
    text.push_str("})");
    assert(text@ =~= old(text)@ + field_text(f@));
}

/// Writes what stands in front of a line.
fn write_indent(text: &mut String, levels: &Vec<bool>)
    ensures
        final(text)@ == old(text)@ + indent_text(levels@),
{
    let n: usize = levels.len();
    let mut i: usize = 0;
    while i < n
        invariant
            i <= n,
            n == levels@.len(),
            i < n || n == 0 ==> text@ == old(text)@ + bars_text(levels@.take(i as int)),
            i == n ==> text@ == old(text)@ + indent_text(levels@),
        decreases n - i,
    {
        assert(levels@.take(i + 1).drop_last() =~= levels@.take(i as int));
        if i + 1 == n {
            assert(levels@.drop_last() =~= levels@.take(i as int));
            text.push_str(
                if levels[i] {
                    "└─"
                } else {
                    "├─"
                },
            );
            assert(text@ =~= old(text)@ + indent_text(levels@));
        } else {
            text.push_str(
                if levels[i] {
                    "   "
                } else {
                    "│  "
                },
            );
            assert(text@ =~= old(text)@ + bars_text(levels@.take(i + 1)));
        }
        i = i + 1;
    }
    assert(text@ =~= old(text)@ + indent_text(levels@));
}

/// Writes the lines of the fields of a struct type.
fn write_struct_type(text: &mut String, s: &StructType, levels: &mut Vec<bool>)
    ensures
        final(levels)@ == old(levels)@,
        final(text)@ == old(text)@ + rows_text(s@.entries, s@.entries.len() as int, old(levels)@),
    decreases s@, 0int,
{
    let n: usize = s.num_fields();
    let ghost entries = s@.entries;
    let mut i: usize = 0;
    while i < n
        invariant
            i <= n,
            n == entries.len(),
            entries == s@.entries,
            levels@ == old(levels)@,
            text@ == old(text)@ + rows_text(entries.take(i as int), n as int, levels@),
        decreases n - i,
    {
        let ghost next = entries.take(i + 1);
        let ghost start = levels@;
        proof {
            assert(next.drop_last() =~= entries.take(i as int));
            lemma_struct_parts(s@, i as int);
        }
        levels.push(i + 1 == n);
        let ghost level = levels@;
        if let Some(field) = s.field_at_index(i) {
            write_indent(text, levels);
            push_field(text, field);
            text.push_str("\n");
            fmt_recursive(text, &field.data_type, levels);
        }
        assert(level == start.push(next.len() == n));
        let _ = levels.pop();
        assert(levels@ =~= start);
        assert(text@ =~= old(text)@ + rows_text(next, n as int, start));
        i = i + 1;
    }
    assert(entries.take(n as int) =~= entries);
}

/// Writes the line of a part of a data type, and the lines of what the part is made of.
fn write_part(text: &mut String, label: &str, t: &DataType, levels: &mut Vec<bool>, is_last: bool)
    ensures
        final(levels)@ == old(levels)@,
        final(text)@ == old(text)@ + part_lines(label@, t@, old(levels)@.push(is_last)),
    decreases t@, 1int,
{
    let ghost start = levels@;
    levels.push(is_last);
    write_indent(text, levels);
    text.push_str(label);
    push_type(text, t);
    text.push_str("\n");
    fmt_recursive(text, t, levels);
    let _ = levels.pop();
    assert(levels@ =~= start);
    assert(text@ =~= old(text)@ + part_lines(label@, t@, start.push(is_last)));
}

/// Writes the lines of what a data type is made of.
fn fmt_recursive(text: &mut String, t: &DataType, levels: &mut Vec<bool>)
    ensures
        final(levels)@ == old(levels)@,
        final(text)@ == old(text)@ + below_text(t@, old(levels)@),
    decreases t@, 0int,
{
    proof {
        lemma_type_parts(t@);
    }
    let ghost start = levels@;
    match t {
        DataType::Struct(inner) => {
            write_struct_type(text, inner, levels);
        },
        DataType::Array(inner) => {
            write_part(text, "array_element: ", &inner.element_type, levels, true);
        },
        DataType::MapOf(inner) => {
            write_part(text, "map_key: ", &inner.key_type, levels, false);
            write_part(text, "map_value: ", &inner.value_type, levels, true);
        },
        _ => {},
    }
    assert(text@ =~= old(text)@ + below_text(t@, start));
}

impl DataType {
    /// The text of the type on one line.
    pub fn text(&self) -> (r: String)
        ensures
            r@ == type_text(self@),
    {
        let mut r = String::new();
        push_type(&mut r, self);
        assert(r@ =~= type_text(self@));
        r
    }
}

impl StructField {
    /// The text of the field on one line.
    pub fn text(&self) -> (r: String)
        ensures
            r@ == field_text(self@),
    {
        let mut r = String::new();
        push_field(&mut r, self);
        assert(r@ =~= field_text(self@));
        r
    }
}

impl StructType {
    /// The text of the struct type as a tree, one line for each field.
    pub fn text(&self) -> (r: String)
        ensures
            r@ == tree_text(self@),
    {
        let mut r = self.type_label.clone();
        r.push_str(":\n");
        let mut levels: Vec<bool> = Vec::new();
        write_struct_type(&mut r, self, &mut levels);
        assert(r@ =~= tree_text(self@));
        r
    }
}

/// A struct is shown as its name and a tree below it.
pub proof fn law_tree_of_struct(s: StructV)
    ensures
        tree_text(s) == s.label + ":\n"@ + rows_text(s.entries, s.entries.len() as int, seq![]),
        rows_text(Seq::empty(), 0, seq![]) == Seq::<char>::empty(),
{
}

/// Each field stands on a line of its own behind those before it, with what is below it. Its line starts
/// with a bar for each level above that goes on, and a corner where it is the last one.
pub proof fn law_lines_of_fields(x: Seq<EntryV>, e: EntryV, total: int, levels: Seq<bool>)
    ensures
        ({
            let last = x.len() + 1 == total;
            rows_text(x + seq![e], total, levels) == rows_text(x, total, levels) + (bars_text(levels)
                + (if last {
                "└─"@
            } else {
                "├─"@
            })) + field_text(e.field) + "\n"@ + below_text(e.field.data_type, levels.push(last))
        }),
{
    assert((x + seq![e]).drop_last() =~= x);
    assert((x + seq![e]).last() == e);
    let last = x.len() + 1 == total;
    assert(levels.push(last).drop_last() =~= levels);
    let below = below_text(e.field.data_type, levels.push(last));
}

/// What starts a line: three characters for each level, a bar where the level goes on.
pub proof fn law_starts_of_lines(levels: Seq<bool>)
    ensures
        bars_text(Seq::empty()) == Seq::<char>::empty(),
        bars_text(levels.push(true)) == bars_text(levels) + "   "@,
        bars_text(levels.push(false)) == bars_text(levels) + "│  "@,
{
    assert(levels.push(true).drop_last() =~= levels);
    assert(levels.push(false).drop_last() =~= levels);
}

/// Below a field stand the fields of its struct, the elements of its array, or the keys and then the
/// values of its map; nothing stands below other types.
pub proof fn law_lines_below_a_field(s: StructV, a: ArrayV, m: MapV, levels: Seq<bool>)
    ensures
        below_text(TypeV::Struct(Box::new(s)), levels) == rows_text(
            s.entries,
            s.entries.len() as int,
            levels,
        ),
        below_text(TypeV::Array(Box::new(a)), levels) == (bars_text(levels) + "└─"@)
            + "array_element: "@ + type_text(a.element) + "\n"@ + below_text(
            a.element,
            levels.push(true),
        ),
        below_text(TypeV::MapOf(Box::new(m)), levels) == ((bars_text(levels) + "├─"@) + "map_key: "@
            + type_text(m.key) + "\n"@ + below_text(m.key, levels.push(false))) + ((bars_text(levels)
            + "└─"@) + "map_value: "@ + type_text(m.value) + "\n"@ + below_text(
            m.value,
            levels.push(true),
        )),
        forall|p: crate::schema::primitive::PrimitiveType| #[trigger]
            below_text(TypeV::Primitive(p), levels) == Seq::<char>::empty(),
        below_text(TypeV::Variant(Box::new(s)), levels) == Seq::<char>::empty(),
{
    assert(levels.push(true).drop_last() =~= levels);
    assert(levels.push(false).drop_last() =~= levels);
    let rows = rows_text(s.entries, s.entries.len() as int, levels);
    let element = part_lines("array_element: "@, a.element, levels.push(true));
    let key = part_lines("map_key: "@, m.key, levels.push(false));
    let value = part_lines("map_value: "@, m.value, levels.push(true));
}

/// The text of a field: its name and its type, whether it is nullable, and its metadata in the order of
/// the keys.
pub proof fn law_text_of_fields(f: FieldV, pairs: Seq<(Seq<char>, MetaV)>, p: (Seq<char>, MetaV))
    ensures
        field_text(f) == f.name + ": "@ + type_text(f.data_type) + " (is nullable: "@ + (
        if f.nullable {
            "true"@
        } else {
            "false"@
        }) + ", metadata: {"@ + pairs_text(listing(f.metadata)) + "})"@,
        pairs_text(Seq::empty()) == Seq::<char>::empty(),
        pairs_text(pairs + seq![p]) == pairs_text(pairs) + (if pairs.len() > 0 {
            ", "@
        } else {
            seq![]
        }) + p.0 + ": "@ + meta_debug_text(p.1),
{
    assert((pairs + seq![p]).drop_last() =~= pairs);
    assert((pairs + seq![p]).last() == p);
}

} // verus!
