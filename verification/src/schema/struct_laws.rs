//! What holds of struct types: how they are built, changed and looked through.
use vstd::prelude::*;

#[allow(unused_imports)]
use crate::column_name::column_text;
#[allow(unused_imports)]
use crate::error::ErrorV;
#[allow(unused_imports)]
use crate::schema::edit::{
    inserted_after, inserted_before, kept, removed, replaced, with_entries,
};
#[allow(unused_imports)]
use crate::schema::metadata::MetadataColumnSpec;
#[allow(unused_imports)]
use crate::schema::struct_type::{
    any_holds_metadata_column, checked_struct, checked_struct_of_results, field_error, field_named,
    first_error, holds_metadata_column, lemma_ok_len, lowercase, lowered_names, ok_fields, ok_len,
    projection, put_all, special_fields, struct_of, type_holds_metadata_column, unchecked_struct,
};
#[allow(unused_imports)]
use crate::schema::types::{
    distinct_keys, entry_positions, has_key, key_index, lemma_type_parts, put, valid_struct, ArrayV,
    EntryV, FieldV, MapV, StructV, TypeV,
};
#[allow(unused_imports)]
use crate::schema::walk::{
    any_has_invariants, column_fields, count_entries, count_fields, field_has_invariants,
    field_leaves, leaf_columns, type_has_invariants, walk, LeafV,
};
#[allow(unused_imports)]
use crate::table_features::{any_holds_float16, holds_float16};

verus! {

proof fn lemma_no_first_error(fields: Seq<FieldV>, lowered: Seq<Seq<char>>, n: int)
    requires
        0 <= n <= fields.len(),
    ensures
        first_error(fields, lowered, n) is None <==> forall|i: int|
            0 <= i < n ==> #[trigger] field_error(fields, lowered, i) is None,
    decreases n,
{
    if n > 0 {
        lemma_no_first_error(fields, lowered, n - 1);
    }
}

/// Fields make a struct exactly where no two names are the same up to case, no two metadata columns
/// are of the same kind, and no field with parts is a metadata column or has one below it. The struct
/// then holds the fields as they are, in their order, each under its name.
pub proof fn law_when_fields_make_a_struct(fields: Seq<FieldV>)
    ensures
        checked_struct(fields) is Ok <==> {
            &&& forall|i: int, j: int|
                0 <= i < j < fields.len() ==> lowercase((#[trigger] fields[i]).name) != lowercase(
                    (#[trigger] fields[j]).name,
                )
            &&& forall|i: int, j: int|
                0 <= i < j < fields.len() && (#[trigger] fields[i]).metadata_spec() is Some
                    ==> fields[i].metadata_spec() != (#[trigger] fields[j]).metadata_spec()
            &&& forall|i: int|
                0 <= i < fields.len() && !((#[trigger] fields[i]).data_type is Primitive)
                    ==> !holds_metadata_column(fields[i])
        },
        checked_struct(fields) matches Ok(s) ==> {
            &&& s.label == "struct"@
            &&& s.entries.len() == fields.len()
            &&& forall|i: int|
                0 <= i < fields.len() ==> (#[trigger] s.entries[i]).field == fields[i]
                    && s.entries[i].key == fields[i].name
        },
{
    let lowered = lowered_names(fields);
    lemma_no_first_error(fields, lowered, fields.len() as int);
    if checked_struct(fields) is Ok {
        assert forall|i: int, j: int| 0 <= i < j < fields.len() implies lowercase(
            (#[trigger] fields[i]).name,
        ) != lowercase((#[trigger] fields[j]).name) by {
            assert(field_error(fields, lowered, j) is None);
            assert(lowered[i] == lowercase(fields[i].name));
        }
        assert forall|i: int, j: int|
            0 <= i < j < fields.len() && (#[trigger] fields[i]).metadata_spec() is Some implies fields[i].metadata_spec()
            != (#[trigger] fields[j]).metadata_spec() by {
            assert(field_error(fields, lowered, j) is None);
        }
        assert forall|i: int|
            0 <= i < fields.len() && !((#[trigger] fields[i]).data_type is Primitive) implies !holds_metadata_column(
            fields[i],
        ) by {
            assert(field_error(fields, lowered, i) is None);
        }
    } else {
        let i = choose|i: int|
            0 <= i < fields.len() && #[trigger] field_error(fields, lowered, i) is Some;
        if !(fields[i].data_type is Primitive) && holds_metadata_column(fields[i]) {
        } else if fields[i].metadata_spec() is Some && exists|j: int|
            0 <= j < i && (#[trigger] fields[j]).metadata_spec() == fields[i].metadata_spec() {
            let j = choose|j: int|
                0 <= j < i && (#[trigger] fields[j]).metadata_spec() == fields[i].metadata_spec();
            assert(fields[j].metadata_spec() is Some);
        } else {
            let j = choose|j: int| 0 <= j < i && #[trigger] lowered[j] == lowered[i];
            assert(lowercase(fields[j].name) == lowercase(fields[i].name));
        }
    }
}

proof fn lemma_any_holds_metadata_column(entries: Seq<EntryV>)
    ensures
        any_holds_metadata_column(entries) <==> exists|i: int|
            0 <= i < entries.len() && holds_metadata_column((#[trigger] entries[i]).field),
    decreases entries.len(),
{
    if entries.len() > 0 {
        let front = entries.drop_last();
        lemma_any_holds_metadata_column(front);
        assert(entries[entries.len() - 1] == entries.last());
        if any_holds_metadata_column(front) {
            let i = choose|i: int|
                0 <= i < front.len() && holds_metadata_column((#[trigger] front[i]).field);
            assert(entries[i] == front[i]);
        }
        if exists|i: int|
            0 <= i < entries.len() && holds_metadata_column((#[trigger] entries[i]).field) {
            let i = choose|i: int|
                0 <= i < entries.len() && holds_metadata_column((#[trigger] entries[i]).field);
            if i < front.len() {
                assert(front[i] == entries[i]);
            }
        }
    }
}

/// A metadata column is in a type exactly where it is in one of its parts: the element of an array,
/// the key or the value of a map, a field of a struct or of a variant, or below such a field.
pub proof fn law_where_metadata_columns_are(a: ArrayV, m: MapV, s: StructV, f: FieldV)
    ensures
        type_holds_metadata_column(TypeV::Array(Box::new(a))) == type_holds_metadata_column(
            a.element,
        ),
        type_holds_metadata_column(TypeV::MapOf(Box::new(m))) == (type_holds_metadata_column(m.key)
            || type_holds_metadata_column(m.value)),
        type_holds_metadata_column(TypeV::Struct(Box::new(s))) == exists|i: int|
            0 <= i < s.entries.len() && holds_metadata_column((#[trigger] s.entries[i]).field),
        type_holds_metadata_column(TypeV::Variant(Box::new(s))) == exists|i: int|
            0 <= i < s.entries.len() && holds_metadata_column((#[trigger] s.entries[i]).field),
        holds_metadata_column(f) == (f.metadata.contains_key("delta.metadataSpec"@)
            || type_holds_metadata_column(f.data_type)),
{
    lemma_type_parts(TypeV::Array(Box::new(a)));
    lemma_type_parts(TypeV::MapOf(Box::new(m)));
    lemma_any_holds_metadata_column(s.entries);
}

proof fn lemma_any_has_invariants(entries: Seq<EntryV>)
    ensures
        any_has_invariants(entries) <==> exists|i: int|
            0 <= i < entries.len() && field_has_invariants((#[trigger] entries[i]).field),
    decreases entries.len(),
{
    if entries.len() > 0 {
        let front = entries.drop_last();
        lemma_any_has_invariants(front);
        assert(entries[entries.len() - 1] == entries.last());
        if any_has_invariants(front) {
            let i = choose|i: int|
                0 <= i < front.len() && field_has_invariants((#[trigger] front[i]).field);
            assert(entries[i] == front[i]);
        }
        if exists|i: int|
            0 <= i < entries.len() && field_has_invariants((#[trigger] entries[i]).field) {
            let i = choose|i: int|
                0 <= i < entries.len() && field_has_invariants((#[trigger] entries[i]).field);
            if i < front.len() {
                assert(front[i] == entries[i]);
            }
        }
    }
}

/// Invariants are in a schema exactly where a field has them in its metadata, at whatever level: in the
/// element of an array, the key or the value of a map, or a field of a struct.
pub proof fn law_where_invariants_are(a: ArrayV, m: MapV, s: StructV, f: FieldV)
    ensures
        type_has_invariants(TypeV::Array(Box::new(a))) == type_has_invariants(a.element),
        type_has_invariants(TypeV::MapOf(Box::new(m))) == (type_has_invariants(m.key)
            || type_has_invariants(m.value)),
        type_has_invariants(TypeV::Struct(Box::new(s))) == any_has_invariants(s.entries),
        any_has_invariants(s.entries) == exists|i: int|
            0 <= i < s.entries.len() && field_has_invariants((#[trigger] s.entries[i]).field),
        field_has_invariants(f) == (f.metadata.contains_key("delta.invariants"@)
            || type_has_invariants(f.data_type)),
{
    lemma_type_parts(TypeV::Array(Box::new(a)));
    lemma_type_parts(TypeV::MapOf(Box::new(m)));
    lemma_any_has_invariants(s.entries);
}

proof fn lemma_any_holds_float16(entries: Seq<EntryV>)
    ensures
        any_holds_float16(entries) <==> exists|i: int|
            0 <= i < entries.len() && holds_float16((#[trigger] entries[i]).field.data_type),
    decreases entries.len(),
{
    if entries.len() > 0 {
        let front = entries.drop_last();
        lemma_any_holds_float16(front);
        assert(entries[entries.len() - 1] == entries.last());
        if any_holds_float16(front) {
            let i = choose|i: int|
                0 <= i < front.len() && holds_float16((#[trigger] front[i]).field.data_type);
            assert(entries[i] == front[i]);
        }
        if exists|i: int|
            0 <= i < entries.len() && holds_float16((#[trigger] entries[i]).field.data_type) {
            let i = choose|i: int|
                0 <= i < entries.len() && holds_float16((#[trigger] entries[i]).field.data_type);
            if i < front.len() {
                assert(front[i] == entries[i]);
            }
        }
    }
}

/// Half-precision numbers are in a schema exactly where one of its columns is of that type, at whatever
/// level: in the element of an array, the key or the value of a map, or a field of a struct.
pub proof fn law_where_float16_is(
    p: crate::schema::primitive::PrimitiveType,
    a: ArrayV,
    m: MapV,
    s: StructV,
)
    ensures
        holds_float16(TypeV::Primitive(p)) == (p
            == crate::schema::primitive::PrimitiveType::Float16),
        holds_float16(TypeV::Array(Box::new(a))) == holds_float16(a.element),
        holds_float16(TypeV::MapOf(Box::new(m))) == (holds_float16(m.key) || holds_float16(
            m.value,
        )),
        holds_float16(TypeV::Struct(Box::new(s))) == any_holds_float16(s.entries),
        any_holds_float16(s.entries) == exists|i: int|
            0 <= i < s.entries.len() && holds_float16((#[trigger] s.entries[i]).field.data_type),
{
    lemma_type_parts(TypeV::Array(Box::new(a)));
    lemma_type_parts(TypeV::MapOf(Box::new(m)));
    lemma_any_holds_float16(s.entries);
}

proof fn lemma_count_entries_add(a: Seq<EntryV>, b: Seq<EntryV>)
    ensures
        count_entries(a + b) == count_entries(a) + count_entries(b),
    decreases b.len(),
{
    if b.len() == 0 {
        assert(a + b =~= a);
    } else {
        assert((a + b).drop_last() =~= a + b.drop_last());
        assert((a + b).last() == b.last());
        lemma_count_entries_add(a, b.drop_last());
    }
}

/// The fields of a schema are counted one by one: those of two lists add up, a field counts once, and
/// below it those in its type; an array and a map themselves do not count, nor does a variant.
pub proof fn law_fields_are_counted_once(
    x: Seq<EntryV>,
    y: Seq<EntryV>,
    e: EntryV,
    a: ArrayV,
    m: MapV,
    s: StructV,
)
    ensures
        count_entries(x + y) == count_entries(x) + count_entries(y),
        count_entries(seq![e]) == 1 + count_fields(e.field.data_type),
        count_fields(TypeV::Array(Box::new(a))) == count_fields(a.element),
        count_fields(TypeV::MapOf(Box::new(m))) == count_fields(m.key) + count_fields(m.value),
        count_fields(TypeV::Struct(Box::new(s))) == count_entries(s.entries),
        count_fields(TypeV::Variant(Box::new(s))) == 0,
        forall|p: crate::schema::primitive::PrimitiveType|
            #[trigger] count_fields(TypeV::Primitive(p)) == 0,
{
    lemma_count_entries_add(x, y);
    assert(seq![e].drop_last() =~= seq![]);
    assert(seq![e].last() == e);
    assert(count_entries(seq![e].drop_last()) == 0);
    lemma_type_parts(TypeV::Array(Box::new(a)));
    lemma_type_parts(TypeV::MapOf(Box::new(m)));
}

proof fn lemma_leaves_add(x: Seq<EntryV>, y: Seq<EntryV>, path: Seq<Seq<char>>)
    ensures
        leaf_columns(x + y, path) == leaf_columns(x, path) + leaf_columns(y, path),
    decreases y.len(),
{
    if y.len() == 0 {
        assert(x + y =~= x);
        assert(leaf_columns(x, path) + leaf_columns(y, path) =~= leaf_columns(x, path));
    } else {
        assert((x + y).drop_last() =~= x + y.drop_last());
        assert((x + y).last() == y.last());
        lemma_leaves_add(x, y.drop_last(), path);
        assert(leaf_columns(x + y, path) =~= leaf_columns(x, path) + leaf_columns(y, path));
    }
}

/// The leaf columns of a schema come field by field, in schema order: a field that is no struct is
/// itself one, with its type, at the path that its name ends; a struct has those of its fields, below
/// its own path.
pub proof fn law_leaves_in_schema_order(
    x: Seq<EntryV>,
    y: Seq<EntryV>,
    e: EntryV,
    path: Seq<Seq<char>>,
)
    ensures
        leaf_columns(x + y, path) == leaf_columns(x, path) + leaf_columns(y, path),
        !(e.field.data_type is Struct) ==> leaf_columns(seq![e], path) == seq![
            LeafV { path: path + seq![e.field.name], data_type: e.field.data_type },
        ],
        e.field.data_type matches TypeV::Struct(s) ==> leaf_columns(seq![e], path) == leaf_columns(
            s.entries,
            path + seq![e.field.name],
        ),
{
    lemma_leaves_add(x, y, path);
    assert(seq![e].drop_last() =~= seq![]);
    assert(seq![e].last() == e);
    assert(leaf_columns(seq![e].drop_last(), path) =~= seq![]);
    assert(path.push(e.field.name) =~= path + seq![e.field.name]);
    let leaves = field_leaves(e.field, path);
    assert(leaf_columns(seq![e], path) =~= leaves);
}

/// Whether the walks along two paths from two positions on give the same, or fail both.
pub open spec fn same_walk(
    a: Result<Seq<FieldV>, ErrorV>,
    b: Result<Seq<FieldV>, ErrorV>,
) -> bool {
    (a is Ok <==> b is Ok) && (a is Ok ==> a->Ok_0 == b->Ok_0)
}

proof fn lemma_walk_suffix(
    s: StructV,
    p: Seq<Seq<char>>,
    i: int,
    q: Seq<Seq<char>>,
    j: int,
)
    requires
        0 <= i <= p.len(),
        0 <= j <= q.len(),
        p.skip(i) == q.skip(j),
    ensures
        same_walk(walk(s, p, i), walk(s, q, j)),
    decreases p.len() - i,
{
    assert(p.skip(i).len() == p.len() - i);
    assert(q.skip(j).len() == q.len() - j);
    if i < p.len() {
        assert(p[i] == p.skip(i)[0]);
        assert(q[j] == q.skip(j)[0]);
        assert(p.skip(i + 1) =~= p.skip(i).skip(1));
        assert(q.skip(j + 1) =~= q.skip(j).skip(1));
        if let Some(f) = field_named(s, p[i]) {
            if let TypeV::Struct(inner) = f.data_type {
                lemma_walk_suffix(*inner, p, i + 1, q, j + 1);
            }
        }
    }
}

/// A column path is resolved name by name: the first name in the struct itself, and the names behind
/// it in the struct that the field of the first one holds. The fields come in the order of the names.
pub proof fn law_paths_are_resolved_name_by_name(s: StructV, name: Seq<char>, rest: Seq<Seq<char>>)
    ensures
        column_fields(s, seq![]) is Err,
        field_named(s, name) is None ==> column_fields(s, seq![name] + rest) is Err,
        field_named(s, name) matches Some(f) ==> {
            &&& rest.len() == 0 ==> column_fields(s, seq![name] + rest) == Ok::<Seq<FieldV>, ErrorV>(
                seq![f],
            )
            &&& rest.len() > 0 && !(f.data_type is Struct) ==> column_fields(
                s,
                seq![name] + rest,
            ) is Err
            &&& rest.len() > 0 && f.data_type is Struct ==> {
                let inner = column_fields(*f.data_type->Struct_0, rest);
                &&& column_fields(s, seq![name] + rest) is Ok <==> inner is Ok
                &&& inner is Ok ==> column_fields(s, seq![name] + rest)->Ok_0 == seq![f]
                    + inner->Ok_0
            }
        },
{
    let path = seq![name] + rest;
    assert(path[0] == name);
    if let Some(f) = field_named(s, name) {
        if rest.len() > 0 {
            if let TypeV::Struct(inner) = f.data_type {
                assert(path.skip(1) =~= rest.skip(0));
                lemma_walk_suffix(*inner, path, 1, rest, 0);
            }
        }
    }
}

/// A field that is put in behind another one stands right behind it, and one that is put in before
/// another one right before it; without another one they stand at the end and at the start. All other
/// fields keep their order.
pub proof fn law_where_fields_are_put_in(s: StructV, name: Seq<char>, f: FieldV)
    requires
        valid_struct(s),
        !has_key(s.entries, f.name),
    ensures
        ({
            let r = inserted_after(s, None, f);
            &&& r is Ok
            &&& r->Ok_0.label == s.label
            &&& r->Ok_0.entries == s.entries + seq![EntryV { key: f.name, field: f }]
        }),
        ({
            let r = inserted_before(s, None, f);
            &&& r is Ok
            &&& r->Ok_0.label == s.label
            &&& r->Ok_0.entries == seq![EntryV { key: f.name, field: f }] + s.entries
        }),
        !has_key(s.entries, name) ==> inserted_after(s, Some(name), f) is Err && inserted_before(
            s,
            Some(name),
            f,
        ) is Err,
        has_key(s.entries, name) ==> {
            let a = inserted_after(s, Some(name), f);
            let b = inserted_before(s, Some(name), f);
            &&& a is Ok
            &&& b is Ok
            &&& a->Ok_0.label == s.label
            &&& b->Ok_0.label == s.label
            &&& exists|before: Seq<EntryV>, at: EntryV, behind: Seq<EntryV>|
                #![trigger before + seq![at] + behind]
                {
                    &&& at.key == name
                    &&& s.entries == before + seq![at] + behind
                    &&& a->Ok_0.entries == before + seq![at] + seq![
                        EntryV { key: f.name, field: f },
                    ] + behind
                    &&& b->Ok_0.entries == before + seq![EntryV { key: f.name, field: f }] + seq![at]
                        + behind
                }
        },
{
    let e = EntryV { key: f.name, field: f };
    assert(s.entries.insert(s.entries.len() as int, e) =~= s.entries + seq![e]);
    assert(s.entries.insert(0, e) =~= seq![e] + s.entries);
    if has_key(s.entries, name) {
        let k = key_index(s.entries, name);
        let before = s.entries.take(k);
        let at = s.entries[k];
        let behind = s.entries.skip(k + 1);
        assert(s.entries =~= before + seq![at] + behind);
        assert(s.entries.insert(k + 1, e) =~= before + seq![at] + seq![e] + behind);
        assert(s.entries.insert(k, e) =~= before + seq![e] + seq![at] + behind);
    }
}

/// A field whose name is already there is not put in.
pub proof fn law_names_are_not_put_in_twice(s: StructV, at: Option<Seq<char>>, f: FieldV)
    requires
        has_key(s.entries, f.name),
    ensures
        inserted_after(s, at, f) is Err,
        inserted_before(s, at, f) is Err,
{
}

/// Taking out a field leaves all the others in their order; taking out one that is not there leaves
/// the struct as it is.
pub proof fn law_others_stay_when_one_is_taken_out(s: StructV, name: Seq<char>)
    requires
        valid_struct(s),
    ensures
        !has_key(s.entries, name) ==> removed(s, name) == s,
        has_key(s.entries, name) ==> {
            &&& field_named(removed(s, name), name) is None
            &&& removed(s, name).label == s.label
            &&& exists|before: Seq<EntryV>, at: EntryV, behind: Seq<EntryV>|
                #![trigger before + seq![at] + behind]
                at.key == name && s.entries == before + seq![at] + behind && removed(
                    s,
                    name,
                ).entries == before + behind
        },
{
    if has_key(s.entries, name) {
        let k = key_index(s.entries, name);
        let before = s.entries.take(k);
        let at = s.entries[k];
        let behind = s.entries.skip(k + 1);
        assert(s.entries =~= before + seq![at] + behind);
        assert(s.entries.remove(k) =~= before + behind);
        let r = removed(s, name);
        if has_key(r.entries, name) {
            let j = key_index(r.entries, name);
            let old = if j < k {
                j
            } else {
                j + 1
            };
            assert(r.entries[j] == s.entries[old]);
            assert(s.entries[old].key == name);
        }
    }
}

proof fn lemma_kept_front(fields: Seq<FieldV>, keep: Seq<bool>, longer: Seq<bool>)
    requires
        fields.len() <= keep.len(),
        fields.len() <= longer.len(),
        forall|i: int| 0 <= i < fields.len() ==> keep[i] == longer[i],
    ensures
        kept(fields, keep) == kept(fields, longer),
    decreases fields.len(),
{
    if fields.len() > 0 {
        lemma_kept_front(fields.drop_last(), keep, longer);
    }
}

/// Filtering goes field by field: of two lists, what is kept of the first comes before what is kept of
/// the second; a single field is kept exactly where its flag is set.
pub proof fn law_filtering_goes_field_by_field(
    x: Seq<FieldV>,
    y: Seq<FieldV>,
    kx: Seq<bool>,
    ky: Seq<bool>,
    f: FieldV,
)
    requires
        x.len() == kx.len(),
        y.len() == ky.len(),
    ensures
        kept(x + y, kx + ky) == kept(x, kx) + kept(y, ky),
        kept(seq![f], seq![true]) == seq![f],
        kept(seq![f], seq![false]) == Seq::<FieldV>::empty(),
    decreases y.len(),
{
    assert(seq![f].drop_last() =~= seq![]);
    assert(kept(seq![f].drop_last(), seq![true]) =~= seq![]);
    assert(kept(seq![f], seq![true]) =~= seq![f]);
    assert(kept(seq![f].drop_last(), seq![false]) =~= seq![]);
    assert(kept(seq![f], seq![false]) =~= seq![]);
    if y.len() == 0 {
        assert(x + y =~= x);
        lemma_kept_front(x, kx + ky, kx);
        assert(kept(x, kx) + kept(y, ky) =~= kept(x, kx));
    } else {
        law_filtering_goes_field_by_field(x, y.drop_last(), kx, ky.drop_last(), f);
        assert((x + y).drop_last() =~= x + y.drop_last());
        assert((x + y).last() == y.last());
        lemma_kept_front(x + y.drop_last(), kx + ky, kx + ky.drop_last());
        lemma_kept_front(y.drop_last(), ky, ky.drop_last());
        assert(kept(x + y, kx + ky) =~= kept(x, kx) + kept(y, ky));
    }
}

/// Of several fields with the same name the last one is there, where nothing is checked.
pub proof fn law_the_last_of_a_name_is_there(fields: Seq<FieldV>, i: int)
    requires
        0 <= i < fields.len(),
        forall|j: int| i < j < fields.len() ==> (#[trigger] fields[j]).name != fields[i].name,
    ensures
        field_named(unchecked_struct(fields), fields[i].name) == Some(fields[i]),
{
    lemma_last_of_name(fields, fields.len() as int, i);
}

proof fn lemma_put_all_keys(fields: Seq<FieldV>, n: int)
    requires
        0 <= n <= fields.len(),
    ensures
        distinct_keys(put_all(fields, n)),
    decreases n,
{
    if n > 0 {
        lemma_put_all_keys(fields, n - 1);
        crate::schema::types::lemma_put_distinct(
            put_all(fields, n - 1),
            fields[n - 1].name,
            fields[n - 1],
        );
    }
}

proof fn lemma_last_of_name(fields: Seq<FieldV>, n: int, i: int)
    requires
        0 <= i < n <= fields.len(),
        forall|j: int| i < j < n ==> (#[trigger] fields[j]).name != fields[i].name,
    ensures
        has_key(put_all(fields, n), fields[i].name),
        put_all(fields, n)[key_index(put_all(fields, n), fields[i].name)].field == fields[i],
    decreases n,
{
    let before = put_all(fields, n - 1);
    let after = put_all(fields, n);
    let name = fields[i].name;
    lemma_put_all_keys(fields, n);
    lemma_put_all_keys(fields, n - 1);
    if i == n - 1 {
        if has_key(before, name) {
            let k = key_index(before, name);
            assert(after[k].key == name && after[k].field == fields[i]);
            assert(after[key_index(after, name)].key == name);
        } else {
            assert(after[before.len() as int].key == name);
            assert(after[key_index(after, name)].key == name);
        }
    } else {
        lemma_last_of_name(fields, n - 1, i);
        let k = key_index(before, name);
        assert(before[k].key == name);
        assert(fields[n - 1].name != name);
        assert(after[k] == before[k]);
        assert(after[key_index(after, name)].key == name);
    }
}

/// A projection with a name that has no field fails.
pub proof fn law_missing_names_are_not_projected(s: StructV, names: Seq<Seq<char>>, i: int)
    requires
        0 <= i < names.len(),
        field_named(s, names[i]) is None,
    ensures
        checked_struct_of_results(projection(s, names)) is Err,
{
    lemma_ok_len(projection(s, names));
    assert(projection(s, names)[i] is Err);
}

/// What is said where a field cannot be put in: that one of its name is there already, or that the field
/// it should stand beside is not.
pub proof fn law_errors_of_insertion(s: StructV, name: Seq<char>, at: Option<Seq<char>>, f: FieldV)
    ensures
        has_key(s.entries, f.name) ==> inserted_after(s, at, f) == Err::<StructV, ErrorV>(
            ErrorV::Generic("Field "@ + f.name + " already exists"@),
        ) && inserted_before(s, at, f) == Err::<StructV, ErrorV>(
            ErrorV::Generic("Field "@ + f.name + " already exists"@),
        ),
        !has_key(s.entries, f.name) && !has_key(s.entries, name) ==> inserted_after(
            s,
            Some(name),
            f,
        ) == Err::<StructV, ErrorV>(ErrorV::Generic("Field "@ + name + " not found"@))
            && inserted_before(s, Some(name), f) == Err::<StructV, ErrorV>(
            ErrorV::Generic("Field "@ + name + " not found"@),
        ),
{
}

/// What is said where a field cannot be replaced: that there is none of the name, or that another one
/// has the name of the new field.
pub proof fn law_errors_of_replacement(s: StructV, name: Seq<char>, f: FieldV)
    ensures
        !has_key(s.entries, name) ==> replaced(s, name, f) == Err::<StructV, ErrorV>(
            ErrorV::Generic("Field "@ + name + " not found"@),
        ),
        has_key(s.entries, name) && f.name != name && has_key(s.entries, f.name) ==> replaced(
            s,
            name,
            f,
        ) == Err::<StructV, ErrorV>(ErrorV::Generic("Field "@ + f.name + " already exists"@)),
{
}

/// What is said of a path that cannot be resolved: the name that is not there, or the field that is no
/// struct though the path goes on.
pub proof fn law_errors_of_paths(s: StructV, path: Seq<Seq<char>>, at: int)
    requires
        0 <= at < path.len(),
    ensures
        column_fields(s, seq![]) == Err::<Seq<FieldV>, ErrorV>(
            ErrorV::Generic("Column path cannot be empty"@),
        ),
        column_fields(s, path) == walk(s, path, 0),
        field_named(s, path[at]) is None ==> walk(s, path, at) == Err::<Seq<FieldV>, ErrorV>(
            ErrorV::Generic(
                "Could not resolve column '"@ + column_text(path) + "': field '"@ + path[at]
                    + "' not found in schema"@,
            ),
        ),
        field_named(s, path[at]) matches Some(f) ==> (at + 1 < path.len() ==> if f.data_type is Struct {
            let below = walk(*f.data_type->Struct_0, path, at + 1);
            &&& walk(s, path, at) is Err <==> below is Err
            &&& below is Err ==> walk(s, path, at)->Err_0 == below->Err_0
        } else {
            walk(s, path, at) == Err::<Seq<FieldV>, ErrorV>(
                ErrorV::Generic(
                    "Cannot resolve column '"@ + column_text(path) + "': intermediate field '"@
                        + path[at] + "' is not a struct type"@,
                ),
            )
        }),
{
}

/// What is said of fields that make no struct: of the first field that is refused, that it has a
/// metadata column below it, that its kind of metadata column is there already, or that its name is.
pub proof fn law_errors_of_structs(fields: Seq<FieldV>, i: int)
    requires
        0 <= i < fields.len(),
        checked_struct(fields.take(i)) is Ok,
        checked_struct(fields.take(i + 1)) is Err,
    ensures
        checked_struct(fields) == Err::<StructV, ErrorV>(
            ErrorV::Schema(
                if !(fields[i].data_type is Primitive) && holds_metadata_column(fields[i]) {
                    "Metadata columns are only allowed at the top level of a schema"@
                } else if fields[i].metadata_spec() is Some && exists|j: int|
                    0 <= j < i && (#[trigger] fields[j]).metadata_spec()
                        == fields[i].metadata_spec() {
                    "Duplicate metadata column: "@ + (match fields[i].metadata_spec()->0 {
                        MetadataColumnSpec::RowIndex => "RowIndex"@,
                        MetadataColumnSpec::RowId => "RowId"@,
                        MetadataColumnSpec::RowCommitVersion => "RowCommitVersion"@,
                        MetadataColumnSpec::FilePath => "FilePath"@,
                    })
                } else {
                    "Duplicate field name (case-insensitive): '"@ + fields[i].name + "'"@
                },
            ),
        ),
{
    let lowered = lowered_names(fields);
    lemma_first_error_of_prefix(fields, i, i);
    lemma_first_error_of_prefix(fields, i + 1, i + 1);
    assert(first_error(fields, lowered, i) is None);
    assert(first_error(fields, lowered, i + 1) is Some);
    lemma_first_error_stays(fields, lowered, i + 1, fields.len() as int);
}

proof fn lemma_first_error_of_prefix(fields: Seq<FieldV>, m: int, n: int)
    requires
        0 <= n <= m <= fields.len(),
    ensures
        first_error(fields.take(m), lowered_names(fields.take(m)), n) == first_error(
            fields,
            lowered_names(fields),
            n,
        ),
    decreases n,
{
    if n > 0 {
        lemma_first_error_of_prefix(fields, m, n - 1);
        let front = fields.take(m);
        let lowered = lowered_names(front);
        let i = n - 1;
        assert(front[i] == fields[i]);
        assert(forall|j: int| 0 <= j < m ==> (#[trigger] front[j]) == fields[j]);
        assert(forall|j: int| 0 <= j < m ==> (#[trigger] lowered[j]) == lowered_names(fields)[j]);
        assert((exists|j: int| 0 <= j < i && #[trigger] lowered[j] == lowered[i]) == (exists|j: int|
            0 <= j < i && #[trigger] lowered_names(fields)[j] == lowered_names(fields)[i])) by {
            if exists|j: int|
                0 <= j < i && #[trigger] lowered_names(fields)[j] == lowered_names(fields)[i] {
                let j = choose|j: int|
                    0 <= j < i && #[trigger] lowered_names(fields)[j] == lowered_names(fields)[i];
                assert(lowered[j] == lowered[i]);
            }
        }
        assert((exists|j: int|
            0 <= j < i && (#[trigger] front[j]).metadata_spec() == front[i].metadata_spec()) == (
        exists|j: int|
            0 <= j < i && (#[trigger] fields[j]).metadata_spec() == fields[i].metadata_spec())) by {
            if exists|j: int|
                0 <= j < i && (#[trigger] fields[j]).metadata_spec() == fields[i].metadata_spec() {
                let j = choose|j: int|
                    0 <= j < i && (#[trigger] fields[j]).metadata_spec()
                        == fields[i].metadata_spec();
                assert(front[j].metadata_spec() == front[i].metadata_spec());
            }
        }
        assert(field_error(front, lowered, i) == field_error(fields, lowered_names(fields), i));
    }
}

proof fn lemma_first_error_stays(fields: Seq<FieldV>, lowered: Seq<Seq<char>>, m: int, n: int)
    requires
        0 <= m <= n,
        first_error(fields, lowered, m) is Some,
    ensures
        first_error(fields, lowered, n) == first_error(fields, lowered, m),
    decreases n - m,
{
    if m < n {
        lemma_first_error_stays(fields, lowered, m, n - 1);
    }
}

/// The metadata columns of a struct, in the order of their kinds, each with the place where it stands.
pub proof fn law_metadata_columns_of_structs(s: StructV)
    ensures
        special_fields(s) == (if s.specials.contains_key(MetadataColumnSpec::RowIndex) {
            seq![s.entries[s.specials[MetadataColumnSpec::RowIndex]].field]
        } else {
            seq![]
        }) + (if s.specials.contains_key(MetadataColumnSpec::RowId) {
            seq![s.entries[s.specials[MetadataColumnSpec::RowId]].field]
        } else {
            seq![]
        }) + (if s.specials.contains_key(MetadataColumnSpec::RowCommitVersion) {
            seq![s.entries[s.specials[MetadataColumnSpec::RowCommitVersion]].field]
        } else {
            seq![]
        }) + (if s.specials.contains_key(MetadataColumnSpec::FilePath) {
            seq![s.entries[s.specials[MetadataColumnSpec::FilePath]].field]
        } else {
            seq![]
        }),
{
}

} // verus!
