//! What holds of the physical schema of a logical one.
use vstd::prelude::*;

#[allow(unused_imports)]
use crate::column_mapping::ColumnMappingMode;
#[allow(unused_imports)]
use crate::column_name::column_text;
#[allow(unused_imports)]
use crate::error::ErrorV;
#[allow(unused_imports)]
use crate::schema::metadata::{ColumnMetadataKey, MetaV};
#[allow(unused_imports)]
use crate::schema::physical::{
    mapping_info, physical_entries, physical_field, physical_metadata, physical_struct,
    physical_type, seen_with, SeenV,
};
#[allow(unused_imports)]
use crate::schema::struct_type::{
    checked_struct, entries_of, law_unchecked_keeps_distinct_names, unchecked_struct,
};
#[allow(unused_imports)]
use crate::schema::types::{lemma_type_parts, ArrayV, EntryV, FieldV, MapV, StructV, TypeV};
#[allow(unused_imports)]
use crate::text::int_text;

verus! {

/// The keys of column mapping and of Parquet field ids in the metadata of a field.
pub proof fn law_keys_of_column_mapping()
    ensures
        ColumnMetadataKey::ColumnMappingId.key() == "delta.columnMapping.id"@,
        ColumnMetadataKey::ColumnMappingPhysicalName.key() == "delta.columnMapping.physicalName"@,
        ColumnMetadataKey::ParquetFieldId.key() == "parquet.field.id"@,
        ColumnMetadataKey::MetadataSpec.key() == "delta.metadataSpec"@,
        ColumnMetadataKey::ColumnMappingId.key() != ColumnMetadataKey::ColumnMappingPhysicalName.key(),
        ColumnMetadataKey::ColumnMappingId.key() != ColumnMetadataKey::ParquetFieldId.key(),
        ColumnMetadataKey::ColumnMappingPhysicalName.key()
            != ColumnMetadataKey::ParquetFieldId.key(),
{
    reveal_strlit("delta.columnMapping.id");
    reveal_strlit("delta.columnMapping.physicalName");
    reveal_strlit("parquet.field.id");
    assert("delta.columnMapping.id"@.len() == 22);
    assert("delta.columnMapping.physicalName"@.len() == 32);
    assert("parquet.field.id"@.len() == 16);
}

/// Whether metadata is that of the physical field of a logical one: under column mapping all of it,
/// with the column's id as Parquet field id; otherwise all of it but the ids and the physical name.
pub open spec fn is_physical_metadata(
    m: Map<Seq<char>, MetaV>,
    p: Map<Seq<char>, MetaV>,
    mode: ColumnMappingMode,
) -> bool {
    &&& forall|k: Seq<char>| #[trigger]
        p.contains_key(k) && (mode is Disabled || k != "parquet.field.id"@) ==> p[k] == m[k]
    &&& if mode is Disabled {
        forall|k: Seq<char>| #[trigger]
            p.contains_key(k) <==> m.contains_key(k) && k != "delta.columnMapping.id"@ && k
                != "delta.columnMapping.physicalName"@ && k != "parquet.field.id"@
    } else {
        &&& m.contains_key("delta.columnMapping.id"@)
        &&& p.contains_key("parquet.field.id"@)
        &&& p["parquet.field.id"@] == m["delta.columnMapping.id"@]
        &&& forall|k: Seq<char>|
            k != "parquet.field.id"@ ==> (#[trigger] p.contains_key(k) <==> m.contains_key(k))
    }
}

/// Whether the annotations of a field are as the mode of column mapping demands: a physical name and a
/// number under column mapping; neither of them otherwise, nor on a metadata column.
pub open spec fn is_annotated(f: FieldV, mode: ColumnMappingMode) -> bool {
    if mode is Disabled || f.metadata.contains_key("delta.metadataSpec"@) {
        !f.metadata.contains_key("delta.columnMapping.id"@) && !f.metadata.contains_key(
            "delta.columnMapping.physicalName"@,
        )
    } else {
        &&& f.metadata.contains_key("delta.columnMapping.id"@)
        &&& f.metadata["delta.columnMapping.id"@] is Number
        &&& f.metadata.contains_key("delta.columnMapping.physicalName"@)
        &&& f.metadata["delta.columnMapping.physicalName"@] is String
    }
}

/// The name that a field has in files.
pub open spec fn name_in_files(f: FieldV, mode: ColumnMappingMode) -> Seq<char> {
    if mode is Disabled || f.metadata.contains_key("delta.metadataSpec"@) {
        f.name
    } else {
        f.metadata["delta.columnMapping.physicalName"@]->String_0
    }
}

/// Whether a field is the physical one of a logical field, at every level.
pub open spec fn is_physical_field(f: FieldV, p: FieldV, mode: ColumnMappingMode) -> bool
    decreases f,
{
    &&& is_annotated(f, mode)
    &&& if f.metadata.contains_key("delta.metadataSpec"@) {
        p == f
    } else {
        &&& p.name == name_in_files(f, mode)
        &&& p.nullable == f.nullable
        &&& is_physical_metadata(f.metadata, p.metadata, mode)
        &&& is_physical_type(f.data_type, p.data_type, mode)
    }
}

/// Whether a type is the physical one of a logical type: it has its shape at every level, with the
/// physical fields of its structs in place and in order.
pub open spec fn is_physical_type(t: TypeV, u: TypeV, mode: ColumnMappingMode) -> bool
    decreases t,
{
    match t {
        TypeV::Primitive(_) => u == t,
        TypeV::Variant(_) => u == t,
        TypeV::Array(a) => {
            &&& u is Array
            &&& u->Array_0.label == a.label
            &&& u->Array_0.contains_null == a.contains_null
            &&& is_physical_type(a.element, u->Array_0.element, mode)
        },
        TypeV::MapOf(m) => {
            &&& u is MapOf
            &&& u->MapOf_0.label == m.label
            &&& u->MapOf_0.value_contains_null == m.value_contains_null
            &&& is_physical_type(m.key, u->MapOf_0.key, mode)
            &&& is_physical_type(m.value, u->MapOf_0.value, mode)
        },
        TypeV::Struct(s) => {
            &&& u is Struct
            &&& names_in_files_differ(s.entries, mode) ==> are_physical_entries(
                s.entries,
                u->Struct_0.entries,
                mode,
            )
        },
    }
}

/// Whether entries hold the physical fields of others, one by one and in order.
pub open spec fn are_physical_entries(
    entries: Seq<EntryV>,
    physical: Seq<EntryV>,
    mode: ColumnMappingMode,
) -> bool
    decreases entries,
{
    &&& physical.len() == entries.len()
    &&& entries.len() > 0 ==> {
        &&& are_physical_entries(entries.drop_last(), physical.drop_last(), mode)
        &&& is_physical_field(entries.last().field, physical.last().field, mode)
        &&& physical.last().key == physical.last().field.name
    }
}

/// Whether no two of the fields have the same name in files.
pub open spec fn names_in_files_differ(entries: Seq<EntryV>, mode: ColumnMappingMode) -> bool {
    forall|i: int, j: int|
        0 <= i < j < entries.len() ==> name_in_files((#[trigger] entries[i]).field, mode)
            != name_in_files((#[trigger] entries[j]).field, mode)
}

/// A physical field has what the annotations of the logical one say, and keeps everything else of it;
/// and so it is with all the fields below it.
pub proof fn law_physical_field_is_physical(
    f: FieldV,
    mode: ColumnMappingMode,
    path: Seq<Seq<char>>,
    seen: SeenV,
)
    requires
        physical_field(f, mode, path, seen) is Ok,
    ensures
        is_physical_field(f, physical_field(f, mode, path, seen)->Ok_0.0, mode),
        physical_field(f, mode, path, seen)->Ok_0.0.name == name_in_files(f, mode),
    decreases f,
{
    law_keys_of_column_mapping();
    let at = path.push(f.name);
    if !f.is_metadata_column() {
        let id = mapping_info(f, mode, at, seen)->Ok_0.1;
        let now = seen_with(seen, id, f.name);
        assert(physical_type(f.data_type, mode, at, now) is Ok);
        assert(decreases_to!(f => f.data_type));
        law_physical_type_is_physical(f.data_type, mode, at, now);
        let p = physical_field(f, mode, path, seen)->Ok_0.0;
        assert(p.metadata == physical_metadata(f.metadata, mode));
    }
}

/// A physical type has the shape of the logical one at every level: a map keeps its key and its value
/// in their places, an array its element, and a struct its fields in order.
pub proof fn law_physical_type_is_physical(
    t: TypeV,
    mode: ColumnMappingMode,
    path: Seq<Seq<char>>,
    seen: SeenV,
)
    requires
        physical_type(t, mode, path, seen) is Ok,
    ensures
        is_physical_type(t, physical_type(t, mode, path, seen)->Ok_0.0, mode),
    decreases t,
{
    lemma_type_parts(t);
    match t {
        TypeV::Primitive(_) => {},
        TypeV::Variant(_) => {},
        TypeV::Array(a) => {
            law_physical_type_is_physical(a.element, mode, path.push("<array element>"@), seen);
        },
        TypeV::MapOf(m) => {
            let key = physical_type(m.key, mode, path.push("<map key>"@), seen);
            law_physical_type_is_physical(m.key, mode, path.push("<map key>"@), seen);
            law_physical_type_is_physical(
                m.value,
                mode,
                path.push("<map value>"@),
                key->Ok_0.1,
            );
        },
        TypeV::Struct(s) => {
            assert(decreases_to!(*s => s.entries));
            let fields = physical_entries(s.entries, mode, path, seen)->Ok_0.0;
            lemma_physical_fields(s.entries, mode, path, seen);
            if names_in_files_differ(s.entries, mode) {
                assert forall|i: int, j: int| 0 <= i < j < fields.len() implies (
                #[trigger] fields[i]).name != (#[trigger] fields[j]).name by {
                    assert(name_in_files(s.entries[i].field, mode) != name_in_files(
                        s.entries[j].field,
                        mode,
                    ));
                }
                law_unchecked_keeps_distinct_names(fields);
            }
        },
    }
}

proof fn lemma_physical_fields(
    entries: Seq<EntryV>,
    mode: ColumnMappingMode,
    path: Seq<Seq<char>>,
    seen: SeenV,
)
    requires
        physical_entries(entries, mode, path, seen) is Ok,
    ensures
        ({
            let fields = physical_entries(entries, mode, path, seen)->Ok_0.0;
            &&& fields.len() == entries.len()
            &&& are_physical_entries(entries, entries_of(fields), mode)
            &&& forall|i: int|
                0 <= i < fields.len() ==> (#[trigger] fields[i]).name == name_in_files(
                    entries[i].field,
                    mode,
                )
        }),
    decreases entries,
{
    let fields = physical_entries(entries, mode, path, seen)->Ok_0.0;
    if entries.len() > 0 {
        let front = entries.drop_last();
        lemma_physical_fields(front, mode, path, seen);
        let (before, now) = physical_entries(front, mode, path, seen)->Ok_0;
        assert(decreases_to!(entries => entries[entries.len() - 1]));
        assert(decreases_to!(entries.last() => entries.last().field));
        law_physical_field_is_physical(entries.last().field, mode, path, now);
        assert(entries_of(fields).drop_last() =~= entries_of(before));
        assert forall|i: int| 0 <= i < fields.len() implies (#[trigger] fields[i]).name
            == name_in_files(entries[i].field, mode) by {
            if i < before.len() {
                assert(fields[i] == before[i]);
                assert(front[i] == entries[i]);
            }
        }
    }
}

/// A physical schema has the physical fields of the logical one, one by one and in order.
pub proof fn law_physical_schema_is_physical(s: StructV, mode: ColumnMappingMode)
    requires
        physical_struct(s, mode) is Ok,
    ensures
        are_physical_entries(s.entries, physical_struct(s, mode)->Ok_0.entries, mode),
        physical_struct(s, mode)->Ok_0.label == "struct"@,
{
    lemma_physical_fields(s.entries, mode, seq![], Map::empty());
}

/// Whether there is no struct in a type.
pub open spec fn without_structs(t: TypeV) -> bool
    decreases t,
{
    match t {
        TypeV::Array(a) => without_structs(a.element),
        TypeV::MapOf(m) => without_structs(m.key) && without_structs(m.value),
        TypeV::Struct(_) => false,
        _ => true,
    }
}

/// A type without structs is its own physical type.
pub proof fn law_type_without_structs_stays(
    t: TypeV,
    mode: ColumnMappingMode,
    path: Seq<Seq<char>>,
    seen: SeenV,
)
    requires
        without_structs(t),
    ensures
        physical_type(t, mode, path, seen) == Ok::<(TypeV, SeenV), ErrorV>((t, seen)),
    decreases t,
{
    lemma_type_parts(t);
    match t {
        TypeV::Array(a) => {
            law_type_without_structs_stays(a.element, mode, path.push("<array element>"@), seen);
        },
        TypeV::MapOf(m) => {
            law_type_without_structs_stays(m.key, mode, path.push("<map key>"@), seen);
            law_type_without_structs_stays(m.value, mode, path.push("<map value>"@), seen);
        },
        _ => {},
    }
}

/// The column mapping ids of a field and of all fields below it, in schema order. Metadata columns
/// have none, and without column mapping no field has one.
pub open spec fn field_ids(f: FieldV, mode: ColumnMappingMode) -> Seq<i64>
    decreases f,
{
    if mode is Disabled || f.metadata.contains_key("delta.metadataSpec"@) {
        seq![]
    } else {
        seq![f.metadata["delta.columnMapping.id"@]->Number_0] + type_ids(f.data_type, mode)
    }
}

/// The column mapping ids of the fields in a type.
pub open spec fn type_ids(t: TypeV, mode: ColumnMappingMode) -> Seq<i64>
    decreases t,
{
    match t {
        TypeV::Array(a) => type_ids(a.element, mode),
        TypeV::MapOf(m) => type_ids(m.key, mode) + type_ids(m.value, mode),
        TypeV::Struct(s) => entry_ids(s.entries, mode),
        _ => seq![],
    }
}

/// The column mapping ids of fields and of those below them.
pub open spec fn entry_ids(entries: Seq<EntryV>, mode: ColumnMappingMode) -> Seq<i64>
    decreases entries,
{
    if entries.len() == 0 {
        seq![]
    } else {
        entry_ids(entries.drop_last(), mode) + field_ids(entries.last().field, mode)
    }
}

/// Whether ids differ from each other and from those that were met.
pub open spec fn are_fresh(ids: Seq<i64>, met: Set<i64>) -> bool {
    &&& forall|i: int, j: int| 0 <= i < j < ids.len() ==> ids[i] != ids[j]
    &&& forall|i: int| 0 <= i < ids.len() ==> !met.contains(#[trigger] ids[i])
}

proof fn lemma_fresh_add(a: Seq<i64>, b: Seq<i64>, met: Set<i64>)
    ensures
        are_fresh(a + b, met) <==> are_fresh(a, met) && are_fresh(b, met.union(a.to_set())),
        met.union((a + b).to_set()) == met.union(a.to_set()).union(b.to_set()),
{
    let ids = a + b;
    assert forall|x: i64| ids.contains(x) <==> a.contains(x) || b.contains(x) by {
        if a.contains(x) {
            let k = choose|k: int| 0 <= k < a.len() && a[k] == x;
            assert(ids[k] == x);
        }
        if b.contains(x) {
            let k = choose|k: int| 0 <= k < b.len() && b[k] == x;
            assert(ids[a.len() + k] == x);
        }
    }
    assert(met.union(ids.to_set()) =~= met.union(a.to_set()).union(b.to_set()));
    if are_fresh(ids, met) {
        assert forall|i: int| 0 <= i < a.len() implies !met.contains(#[trigger] a[i]) by {
            assert(ids[i] == a[i]);
        }
        assert forall|i: int, j: int| 0 <= i < j < a.len() implies a[i] != a[j] by {
            assert(ids[i] == a[i] && ids[j] == a[j]);
        }
        assert forall|i: int, j: int| 0 <= i < j < b.len() implies b[i] != b[j] by {
            assert(ids[a.len() + i] == b[i] && ids[a.len() + j] == b[j]);
        }
        assert forall|i: int| 0 <= i < b.len() implies !met.union(a.to_set()).contains(
            #[trigger] b[i],
        ) by {
            assert(ids[a.len() + i] == b[i]);
            if a.contains(b[i]) {
                let k = choose|k: int| 0 <= k < a.len() && a[k] == b[i];
                assert(ids[k] == a[k]);
            }
        }
    }
    if are_fresh(a, met) && are_fresh(b, met.union(a.to_set())) {
        assert forall|i: int| 0 <= i < ids.len() implies !met.contains(#[trigger] ids[i]) by {
            if i < a.len() {
                assert(ids[i] == a[i]);
            } else {
                assert(ids[i] == b[i - a.len()]);
            }
        }
        assert forall|i: int, j: int| 0 <= i < j < ids.len() implies ids[i] != ids[j] by {
            if i < a.len() && j >= a.len() {
                assert(ids[i] == a[i]);
                assert(a.contains(a[i]));
                assert(ids[j] == b[j - a.len()]);
            } else if i < a.len() {
                assert(ids[i] == a[i] && ids[j] == a[j]);
            } else {
                assert(ids[i] == b[i - a.len()] && ids[j] == b[j - a.len()]);
            }
        }
    }
}

/// Whether a field is annotated as the mode demands, and so are the fields below it, of which each
/// struct has at least one.
pub open spec fn field_is_mapped(f: FieldV, mode: ColumnMappingMode) -> bool
    decreases f,
{
    &&& is_annotated(f, mode)
    &&& f.metadata.contains_key("delta.metadataSpec"@) || type_is_mapped(f.data_type, mode)
}

/// Whether the fields in a type are annotated as the mode demands.
pub open spec fn type_is_mapped(t: TypeV, mode: ColumnMappingMode) -> bool
    decreases t,
{
    match t {
        TypeV::Array(a) => type_is_mapped(a.element, mode),
        TypeV::MapOf(m) => type_is_mapped(m.key, mode) && type_is_mapped(m.value, mode),
        TypeV::Struct(s) => s.entries.len() > 0 && entries_are_mapped(s.entries, mode),
        _ => true,
    }
}

/// Whether fields and those below them are annotated as the mode demands.
pub open spec fn entries_are_mapped(entries: Seq<EntryV>, mode: ColumnMappingMode) -> bool
    decreases entries,
{
    entries.len() > 0 ==> entries_are_mapped(entries.drop_last(), mode) && field_is_mapped(
        entries.last().field,
        mode,
    )
}

/// A field has a physical one exactly where all annotations are as the mode of column mapping demands
/// and no id occurs twice; then all its ids have been met.
pub proof fn law_when_fields_are_physical(
    f: FieldV,
    mode: ColumnMappingMode,
    path: Seq<Seq<char>>,
    seen: SeenV,
)
    ensures
        physical_field(f, mode, path, seen) is Ok <==> field_is_mapped(f, mode) && are_fresh(
            field_ids(f, mode),
            seen.dom(),
        ),
        physical_field(f, mode, path, seen) matches Ok((_, then)) ==> then.dom()
            == seen.dom().union(field_ids(f, mode).to_set()),
    decreases f,
{
    law_keys_of_column_mapping();
    let at = path.push(f.name);
    let info = mapping_info(f, mode, at, seen);
    assert(info is Ok ==> is_annotated(f, mode));
    if f.is_metadata_column() {
        assert(field_ids(f, mode) =~= seq![]);
        assert(seen.dom().union(field_ids(f, mode).to_set()) =~= seen.dom());
    } else {
        assert(decreases_to!(f => f.data_type));
        let first: Seq<i64> = if mode is Disabled {
            seq![]
        } else {
            seq![f.metadata["delta.columnMapping.id"@]->Number_0]
        };
        let rest = type_ids(f.data_type, mode);
        if mode is Disabled {
            lemma_no_ids(f.data_type, mode);
            assert(rest =~= seq![]);
        }
        assert(field_ids(f, mode) =~= first + rest);
        lemma_fresh_add(first, rest, seen.dom());
        assert(is_annotated(f, mode) ==> (info is Ok <==> are_fresh(first, seen.dom()))) by {
            if is_annotated(f, mode) && !(mode is Disabled) {
                assert(first[0] == f.metadata["delta.columnMapping.id"@]->Number_0);
                if are_fresh(first, seen.dom()) {
                    assert(!seen.dom().contains(first[0]));
                } else {
                    assert(seen.dom().contains(first[0]));
                }
            }
        }
        if info is Ok {
            let now = seen_with(seen, info->Ok_0.1, f.name);
            assert(now.dom() =~= seen.dom().union(first.to_set())) by {
                if !(mode is Disabled) {
                    assert(first.to_set() =~= set![first[0]]) by {
                        assert forall|x: i64| first.to_set().contains(x) <==> x == first[0] by {
                            if x == first[0] {
                                assert(first.contains(first[0]));
                            }
                        }
                    }
                }
            }
            law_when_types_are_physical(f.data_type, mode, at, now);
        }
    }
}

proof fn lemma_no_ids(t: TypeV, mode: ColumnMappingMode)
    requires
        mode is Disabled,
    ensures
        type_ids(t, mode) == Seq::<i64>::empty(),
    decreases t,
{
    lemma_type_parts(t);
    match t {
        TypeV::Array(a) => {
            lemma_no_ids(a.element, mode);
        },
        TypeV::MapOf(m) => {
            lemma_no_ids(m.key, mode);
            lemma_no_ids(m.value, mode);
            assert(type_ids(t, mode) =~= seq![]);
        },
        TypeV::Struct(s) => {
            assert(decreases_to!(*s => s.entries));
            lemma_no_entry_ids(s.entries, mode);
        },
        _ => {},
    }
}

proof fn lemma_no_entry_ids(entries: Seq<EntryV>, mode: ColumnMappingMode)
    requires
        mode is Disabled,
    ensures
        entry_ids(entries, mode) == Seq::<i64>::empty(),
    decreases entries,
{
    if entries.len() > 0 {
        lemma_no_entry_ids(entries.drop_last(), mode);
        assert(field_ids(entries.last().field, mode) =~= seq![]);
        assert(entry_ids(entries, mode) =~= seq![]);
    }
}

/// A type has a physical one exactly where all annotations in it are as the mode of column mapping
/// demands and no id occurs twice.
pub proof fn law_when_types_are_physical(
    t: TypeV,
    mode: ColumnMappingMode,
    path: Seq<Seq<char>>,
    seen: SeenV,
)
    ensures
        physical_type(t, mode, path, seen) is Ok <==> type_is_mapped(t, mode) && are_fresh(
            type_ids(t, mode),
            seen.dom(),
        ),
        physical_type(t, mode, path, seen) matches Ok((_, then)) ==> then.dom()
            == seen.dom().union(type_ids(t, mode).to_set()),
    decreases t,
{
    lemma_type_parts(t);
    match t {
        TypeV::Array(a) => {
            law_when_types_are_physical(a.element, mode, path.push("<array element>"@), seen);
        },
        TypeV::MapOf(m) => {
            let key = physical_type(m.key, mode, path.push("<map key>"@), seen);
            law_when_types_are_physical(m.key, mode, path.push("<map key>"@), seen);
            lemma_fresh_add(type_ids(m.key, mode), type_ids(m.value, mode), seen.dom());
            if key is Ok {
                law_when_types_are_physical(
                    m.value,
                    mode,
                    path.push("<map value>"@),
                    key->Ok_0.1,
                );
            }
        },
        TypeV::Struct(s) => {
            assert(decreases_to!(*s => s.entries));
            law_when_entries_are_physical(s.entries, mode, path, seen);
            if physical_entries(s.entries, mode, path, seen) is Ok {
                lemma_physical_fields(s.entries, mode, path, seen);
            }
        },
        _ => {
            assert(type_ids(t, mode) =~= seq![]);
            assert(seen.dom().union(type_ids(t, mode).to_set()) =~= seen.dom());
        },
    }
}

/// Fields have physical ones exactly where all annotations are as the mode of column mapping demands
/// and no id occurs twice among them or below them.
pub proof fn law_when_entries_are_physical(
    entries: Seq<EntryV>,
    mode: ColumnMappingMode,
    path: Seq<Seq<char>>,
    seen: SeenV,
)
    ensures
        physical_entries(entries, mode, path, seen) is Ok <==> entries_are_mapped(entries, mode)
            && are_fresh(entry_ids(entries, mode), seen.dom()),
        physical_entries(entries, mode, path, seen) matches Ok((_, then)) ==> then.dom()
            == seen.dom().union(entry_ids(entries, mode).to_set()),
    decreases entries,
{
    if entries.len() == 0 {
        assert(entry_ids(entries, mode) =~= seq![]);
        assert(seen.dom().union(entry_ids(entries, mode).to_set()) =~= seen.dom());
    } else {
        let front = entries.drop_last();
        let f = entries.last().field;
        law_when_entries_are_physical(front, mode, path, seen);
        lemma_fresh_add(entry_ids(front, mode), field_ids(f, mode), seen.dom());
        let before = physical_entries(front, mode, path, seen);
        assert(decreases_to!(entries => entries[entries.len() - 1]));
        assert(decreases_to!(entries.last() => entries.last().field));
        if before is Ok {
            law_when_fields_are_physical(f, mode, path, before->Ok_0.1);
        }
    }
}

/// Which name in files a field has, and which error comes where it has none: under column mapping both
/// annotations are there, a text and a number that no field before it has; without column mapping,
/// and on a metadata column, neither is there.
pub proof fn law_names_or_errors_of_fields(
    f: FieldV,
    mode: ColumnMappingMode,
    path: Seq<Seq<char>>,
    seen: SeenV,
)
    ensures
        ({
            let named = f.metadata.contains_key("delta.columnMapping.physicalName"@);
            let numbered = f.metadata.contains_key("delta.columnMapping.id"@);
            let name = f.metadata["delta.columnMapping.physicalName"@];
            let id = f.metadata["delta.columnMapping.id"@];
            let special = f.metadata.contains_key("delta.metadataSpec"@);
            let r = mapping_info(f, mode, path, seen);
            &&& special && (named || numbered) ==> r == Err::<(Seq<char>, Option<i64>), ErrorV>(
                ErrorV::Schema(
                    "Metadata column '"@ + column_text(path)
                        + "' must not have column mapping annotations"@,
                ),
            )
            &&& (special || mode is Disabled) && !named && !numbered ==> r == Ok::<
                (Seq<char>, Option<i64>),
                ErrorV,
            >((f.name, None))
            &&& !special && mode is Disabled && named ==> r == Err::<
                (Seq<char>, Option<i64>),
                ErrorV,
            >(
                ErrorV::Schema(
                    "Column mapping is not enabled but field '"@ + column_text(path)
                        + "' is annotated with "@ + "delta.columnMapping.physicalName"@,
                ),
            )
            &&& !special && mode is Disabled && !named && numbered ==> r == Err::<
                (Seq<char>, Option<i64>),
                ErrorV,
            >(
                ErrorV::Schema(
                    "Column mapping is not enabled but field '"@ + column_text(path)
                        + "' is annotated with "@ + "delta.columnMapping.id"@,
                ),
            )
            &&& !special && !(mode is Disabled) && !named ==> r == Err::<
                (Seq<char>, Option<i64>),
                ErrorV,
            >(
                ErrorV::Schema(
                    "Column mapping is enabled but field '"@ + column_text(path) + "' lacks the "@
                        + "delta.columnMapping.physicalName"@ + " annotation"@,
                ),
            )
            &&& !special && !(mode is Disabled) && named && !(name is String) ==> r == Err::<
                (Seq<char>, Option<i64>),
                ErrorV,
            >(
                ErrorV::Schema(
                    "The "@ + "delta.columnMapping.physicalName"@ + " annotation on field '"@
                        + column_text(path) + "' must be a "@ + "string"@,
                ),
            )
            &&& !special && !(mode is Disabled) && named && name is String && !numbered ==> r
                == Err::<(Seq<char>, Option<i64>), ErrorV>(
                ErrorV::Schema(
                    "Column mapping is enabled but field '"@ + column_text(path) + "' lacks the "@
                        + "delta.columnMapping.id"@ + " annotation"@,
                ),
            )
            &&& !special && !(mode is Disabled) && named && name is String && numbered && !(
            id is Number) ==> r == Err::<(Seq<char>, Option<i64>), ErrorV>(
                ErrorV::Schema(
                    "The "@ + "delta.columnMapping.id"@ + " annotation on field '"@ + column_text(
                        path,
                    ) + "' must be a "@ + "number"@,
                ),
            )
            &&& !special && !(mode is Disabled) && named && name is String && numbered
                && id is Number ==> r == (if seen.contains_key(id->Number_0) {
                Err::<(Seq<char>, Option<i64>), ErrorV>(
                    ErrorV::Schema(
                        "Duplicate column mapping ID "@ + int_text(id->Number_0 as int)
                            + " on field '"@ + column_text(path) + "', already used by field '"@
                            + seen[id->Number_0] + "'"@,
                    ),
                )
            } else {
                Ok((name->String_0, Some(id->Number_0)))
            })
        }),
{
}

/// An error speaks of the path that leads to the field: the names of the structs around it, and then
/// its own.
pub proof fn law_errors_name_the_path(
    f: FieldV,
    s: StructV,
    mode: ColumnMappingMode,
    path: Seq<Seq<char>>,
    seen: SeenV,
)
    ensures
        mapping_info(f, mode, path + seq![f.name], seen) matches Err(e) ==> physical_field(
            f,
            mode,
            path,
            seen,
        ) == Err::<(FieldV, SeenV), ErrorV>(e),
        mapping_info(f, mode, path + seq![f.name], seen) matches Ok(named) ==> {
            &&& !f.metadata.contains_key("delta.metadataSpec"@) ==> (physical_type(
                f.data_type,
                mode,
                path + seq![f.name],
                seen_with(seen, named.1, f.name),
            ) matches Err(e) ==> physical_field(f, mode, path, seen) == Err::<
                (FieldV, SeenV),
                ErrorV,
            >(e))
        },
        physical_entries(s.entries, mode, path, seen) matches Err(e) ==> physical_type(
            TypeV::Struct(Box::new(s)),
            mode,
            path,
            seen,
        ) == Err::<(TypeV, SeenV), ErrorV>(e),
{
    assert(path + seq![f.name] =~= path.push(f.name));
    let t = physical_type(f.data_type, mode, path.push(f.name), seen);
    let entries = physical_entries(s.entries, mode, path, seen);
}

} // verus!
