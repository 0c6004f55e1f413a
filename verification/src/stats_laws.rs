//! What holds of the schemas of file statistics.
use vstd::prelude::*;

#[allow(unused_imports)]
use crate::schema::primitive::PrimitiveType;
#[allow(unused_imports)]
use crate::schema::struct_type::{
    entries_of, law_unchecked_keeps_distinct_names, put_all, unchecked_struct,
};
#[allow(unused_imports)]
use crate::schema::types::{has_key, key_index, lemma_type_parts, EntryV, FieldV, StructV, TypeV};
#[allow(unused_imports)]
use crate::schema::walk::{field_leaves, leaf_columns, leaf_paths, LeafV};
#[allow(unused_imports)]
use crate::stats_schema::{
    base_fields, base_type, begins_with, changed_field, changed_fields, changed_struct,
    changed_type, covers, expected_fields, field_stats_columns, filter_of, referenced_stats,
    skipping_eligible, stats_columns, DataSkippingNumIndexedCols, FilterV, StatsConfig, StatsTransform,
};

verus! {

/// Whether a field is as a change leaves it, and so are the fields below it: nullable, without
/// metadata, a long where it is no struct, or of an eligible type where it is primitive.
pub open spec fn as_changed(change: StatsTransform, f: FieldV) -> bool
    decreases f,
{
    &&& match change {
        StatsTransform::Nullable => f.nullable,
        StatsTransform::StripMetadata => f.metadata == Map::<
            Seq<char>,
            crate::schema::metadata::MetaV,
        >::empty(),
        StatsTransform::NullCount => f.data_type is Struct || (f.data_type == TypeV::Primitive(
            PrimitiveType::Long,
        ) && f.nullable),
        StatsTransform::MinMax => match f.data_type {
            TypeV::Primitive(p) => skipping_eligible(p),
            TypeV::Struct(_) => true,
            _ => false,
        },
    }
    &&& type_as_changed(change, f.data_type)
}

/// Whether the fields in a type are as a change leaves them.
pub open spec fn type_as_changed(change: StatsTransform, t: TypeV) -> bool
    decreases t,
{
    match t {
        TypeV::Primitive(_) => true,
        TypeV::Array(a) => type_as_changed(change, a.element),
        TypeV::MapOf(m) => type_as_changed(change, m.key) && type_as_changed(change, m.value),
        TypeV::Struct(s) => all_as_changed(change, s.entries),
        TypeV::Variant(s) => all_as_changed(change, s.entries),
    }
}

/// Whether all entries are as a change leaves them.
pub open spec fn all_as_changed(change: StatsTransform, entries: Seq<EntryV>) -> bool
    decreases entries,
{
    entries.len() > 0 ==> all_as_changed(change, entries.drop_last()) && as_changed(
        change,
        entries.last().field,
    )
}

proof fn lemma_all_as_changed(change: StatsTransform, entries: Seq<EntryV>)
    ensures
        all_as_changed(change, entries) <==> forall|i: int|
            0 <= i < entries.len() ==> as_changed(change, (#[trigger] entries[i]).field),
    decreases entries.len(),
{
    if entries.len() > 0 {
        let front = entries.drop_last();
        lemma_all_as_changed(change, front);
        if all_as_changed(change, entries) {
            assert forall|i: int| 0 <= i < entries.len() implies as_changed(
                change,
                (#[trigger] entries[i]).field,
            ) by {
                if i < front.len() {
                    assert(front[i] == entries[i]);
                }
            }
        } else if forall|i: int|
            0 <= i < entries.len() ==> as_changed(change, (#[trigger] entries[i]).field) {
            assert forall|i: int| 0 <= i < front.len() implies as_changed(
                change,
                (#[trigger] front[i]).field,
            ) by {
                assert(front[i] == entries[i]);
            }
            assert(entries.last() == entries[entries.len() - 1]);
        }
    }
}

/// The entries of an unchecked struct hold fields that were given.
pub proof fn lemma_put_all_fields(fields: Seq<FieldV>, n: int)
    requires
        0 <= n <= fields.len(),
    ensures
        forall|i: int|
            0 <= i < put_all(fields, n).len() ==> exists|j: int|
                0 <= j < n && fields[j] == (#[trigger] put_all(fields, n)[i]).field,
    decreases n,
{
    if n > 0 {
        lemma_put_all_fields(fields, n - 1);
        let before = put_all(fields, n - 1);
        let after = put_all(fields, n);
        assert forall|i: int| 0 <= i < after.len() implies exists|j: int|
            0 <= j < n && fields[j] == (#[trigger] after[i]).field by {
            if has_key(before, fields[n - 1].name) && i == key_index(before, fields[n - 1].name) {
                assert(fields[n - 1] == after[i].field);
            } else if i < before.len() {
                assert(after[i] == before[i]);
                let j = choose|j: int| 0 <= j < n - 1 && fields[j] == before[i].field;
                assert(fields[j] == after[i].field);
            } else {
                assert(fields[n - 1] == after[i].field);
            }
        }
    }
}

/// A changed schema holds only fields as the change leaves them, at every level.
pub proof fn law_changed_schema(change: StatsTransform, s: StructV)
    requires
        changed_struct(change, s) is Some,
    ensures
        all_as_changed(change, changed_struct(change, s)->0.entries),
    decreases s, 0int,
{
    assert(decreases_to!(s => s.entries));
    let fields = changed_fields(change, s.entries);
    lemma_changed_fields(change, s.entries);
    lemma_put_all_fields(fields, fields.len() as int);
    let entries = unchecked_struct(fields).entries;
    assert forall|i: int| 0 <= i < entries.len() implies as_changed(
        change,
        (#[trigger] entries[i]).field,
    ) by {
        let j = choose|j: int| 0 <= j < fields.len() && fields[j] == entries[i].field;
        assert(as_changed(change, fields[j]));
    }
    lemma_all_as_changed(change, entries);
}

proof fn lemma_changed_fields(change: StatsTransform, entries: Seq<EntryV>)
    ensures
        forall|i: int|
            0 <= i < changed_fields(change, entries).len() ==> as_changed(
                change,
                #[trigger] changed_fields(change, entries)[i],
            ),
    decreases entries, 0int,
{
    if entries.len() > 0 {
        let front = entries.drop_last();
        lemma_changed_fields(change, front);
        assert(decreases_to!(entries => entries[entries.len() - 1]));
        assert(decreases_to!(entries.last() => entries.last().field));
        if changed_field(change, entries.last().field) is Some {
            lemma_changed_field(change, entries.last().field);
        }
        assert forall|i: int| 0 <= i < changed_fields(change, entries).len() implies as_changed(
            change,
            #[trigger] changed_fields(change, entries)[i],
        ) by {
            if i < changed_fields(change, front).len() {
                assert(changed_fields(change, entries)[i] == changed_fields(change, front)[i]);
            }
        }
    }
}

proof fn lemma_changed_field(change: StatsTransform, f: FieldV)
    requires
        changed_field(change, f) is Some,
    ensures
        as_changed(change, changed_field(change, f)->0),
    decreases f, 0int,
{
    assert(decreases_to!(f => f.data_type));
    if !(change is NullCount) || f.data_type is Struct {
        lemma_changed_type(change, f.data_type);
    }
}

proof fn lemma_changed_type(change: StatsTransform, t: TypeV)
    requires
        changed_type(change, t) is Some,
    ensures
        type_as_changed(change, changed_type(change, t)->0),
        change is MinMax ==> match changed_type(change, t)->0 {
            TypeV::Primitive(p) => skipping_eligible(p),
            TypeV::Struct(_) => true,
            _ => false,
        },
        t is Struct ==> changed_type(change, t)->0 is Struct,
    decreases t, 0int,
{
    lemma_type_parts(t);
    match t {
        TypeV::Primitive(_) => {},
        TypeV::Array(a) => {
            lemma_changed_type(change, a.element);
        },
        TypeV::MapOf(m) => {
            lemma_changed_type(change, m.key);
            lemma_changed_type(change, m.value);
        },
        TypeV::Struct(s) => {
            law_changed_schema(change, *s);
        },
        TypeV::Variant(s) => {
            law_changed_schema(change, *s);
        },
    }
}

/// Whether the fields of each struct in a type have different names.
pub open spec fn names_differ(t: TypeV) -> bool
    decreases t,
{
    match t {
        TypeV::Struct(s) => entry_names_differ(s.entries),
        _ => true,
    }
}

/// Whether the fields have different names, and those of each struct below them too.
pub open spec fn entry_names_differ(entries: Seq<EntryV>) -> bool
    decreases entries,
{
    entries.len() > 0 ==> {
        &&& entry_names_differ(entries.drop_last())
        &&& forall|i: int|
            0 <= i < entries.len() - 1 ==> (#[trigger] entries[i]).field.name
                != entries.last().field.name
        &&& names_differ(entries.last().field.data_type)
    }
}

proof fn lemma_base_names(entries: Seq<EntryV>, filter: FilterV, path: Seq<Seq<char>>, count: nat)
    requires
        entry_names_differ(entries),
    ensures
        ({
            let fields = base_fields(entries, filter, path, count).0;
            &&& forall|i: int|
                0 <= i < fields.len() ==> exists|j: int|
                    0 <= j < entries.len() && (#[trigger] fields[i]).name == (
                    #[trigger] entries[j]).field.name
            &&& forall|i: int, j: int|
                0 <= i < j < fields.len() ==> (#[trigger] fields[i]).name != (
                #[trigger] fields[j]).name
        }),
    decreases entries.len(),
{
    if entries.len() > 0 {
        let front = entries.drop_last();
        lemma_base_names(front, filter, path, count);
        let before = base_fields(front, filter, path, count).0;
        let fields = base_fields(entries, filter, path, count).0;
        let last = entries.last().field;
        assert forall|i: int| 0 <= i < before.len() implies (#[trigger] before[i]).name
            != last.name by {
            let j = choose|j: int|
                0 <= j < front.len() && before[i].name == (#[trigger] front[j]).field.name;
            assert(entries[j] == front[j]);
        }
        assert forall|i: int| 0 <= i < fields.len() implies exists|j: int|
            0 <= j < entries.len() && (#[trigger] fields[i]).name == (
            #[trigger] entries[j]).field.name by {
            if i < before.len() {
                assert(fields[i] == before[i]);
                let j = choose|j: int|
                    0 <= j < front.len() && before[i].name == (#[trigger] front[j]).field.name;
                assert(entries[j] == front[j]);
            } else {
                assert(entries[entries.len() - 1].field.name == fields[i].name);
            }
        }
        assert forall|i: int, j: int| 0 <= i < j < fields.len() implies (#[trigger] fields[i]).name
            != (#[trigger] fields[j]).name by {
            assert(fields[i] == before[i]);
            if j < before.len() {
                assert(fields[j] == before[j]);
            }
        }
    }
}

/// Without a request for certain columns, the leaf columns of the base statistics are exactly the
/// columns that should have statistics, in the same order.
pub proof fn law_base_leaves_are_stats_columns(
    entries: Seq<EntryV>,
    filter: FilterV,
    path: Seq<Seq<char>>,
    count: nat,
)
    requires
        entry_names_differ(entries),
        filter.requested.len() == 0,
    ensures
        leaf_paths(
            leaf_columns(entries_of(base_fields(entries, filter, path, count).0), path),
        ) == stats_columns(entries, filter, path, count).0,
        base_fields(entries, filter, path, count).1 == stats_columns(
            entries,
            filter,
            path,
            count,
        ).1,
    decreases entries,
{
    let fields = base_fields(entries, filter, path, count).0;
    if entries.len() == 0 {
        assert(entries_of(fields) =~= seq![]);
        assert(leaf_paths(leaf_columns(entries_of(fields), path)) =~= seq![]);
    } else {
        let front = entries.drop_last();
        law_base_leaves_are_stats_columns(front, filter, path, count);
        let (before, now) = base_fields(front, filter, path, count);
        let f = entries.last().field;
        let at = path.push(f.name);
        let columns = stats_columns(front, filter, path, count).0;
        let more = field_stats_columns(f, filter, path, now).0;
        assert(names_differ(f.data_type));
        if let TypeV::Struct(s) = f.data_type {
            assert(decreases_to!(entries => entries[entries.len() - 1]));
            assert(decreases_to!(entries.last() => entries.last().field));
            assert(decreases_to!(f => f.data_type));
            lemma_type_parts(f.data_type);
            assert(decreases_to!(*s => s.entries));
            law_base_leaves_are_stats_columns(s.entries, filter, at, now);
            let inner = base_fields(s.entries, filter, at, now).0;
            lemma_base_names(s.entries, filter, at, now);
            law_unchecked_keeps_distinct_names(inner);
            if inner.len() == 0 {
                assert(entries_of(inner) =~= seq![]);
                assert(leaf_paths(leaf_columns(entries_of(inner), at)) =~= seq![]);
            }
        }
        match base_type(f.data_type, filter, at, now).0 {
            Some(data_type) => {
                let kept = FieldV { data_type, nullable: true, ..f };
                assert(entries_of(fields).drop_last() =~= entries_of(before));
                assert(entries_of(fields).last() == (EntryV { key: kept.name, field: kept }));
                let leaves = field_leaves(kept, path);
                assert(leaf_columns(entries_of(fields), path) == leaf_columns(
                    entries_of(before),
                    path,
                ) + leaves);
                assert(leaf_paths(leaves) =~= more);
                assert(leaf_paths(leaf_columns(entries_of(before), path) + leaves)
                    =~= leaf_paths(leaf_columns(entries_of(before), path)) + leaf_paths(leaves));
            },
            None => {
                assert(more =~= seq![]);
                assert(columns + more =~= columns);
            },
        }
    }
}

/// A column that must have statistics, or is part of one, passes the table's filter, whatever the
/// limit.
pub proof fn law_required_columns_pass(filter: FilterV, path: Seq<Seq<char>>, count: nat, i: int)
    requires
        0 <= i < filter.required.len(),
        crate::stats_schema::begins_with(path, filter.required[i]),
    ensures
        filter.for_table(path, count),
{
}

/// The types with smallest and largest values, one by one: all but boolean and binary.
pub proof fn law_eligible_types(p: PrimitiveType)
    ensures
        skipping_eligible(p) == (match p {
            PrimitiveType::Byte => true,
            PrimitiveType::Short => true,
            PrimitiveType::Integer => true,
            PrimitiveType::Long => true,
            PrimitiveType::Float16 => true,
            PrimitiveType::Float => true,
            PrimitiveType::Double => true,
            PrimitiveType::Date => true,
            PrimitiveType::Timestamp => true,
            PrimitiveType::TimestampNtz => true,
            PrimitiveType::String => true,
            PrimitiveType::Decimal(_) => true,
            PrimitiveType::Boolean => false,
            PrimitiveType::Binary => false,
        }),
{
}

proof fn lemma_begins_with(path: Seq<Seq<char>>, start: Seq<Seq<char>>)
    ensures
        begins_with(path, start) <==> exists|rest: Seq<Seq<char>>| path == #[trigger] (start + rest),
{
    if begins_with(path, start) {
        assert(path =~= start + path.skip(start.len() as int));
    }
    if exists|rest: Seq<Seq<char>>| path == #[trigger] (start + rest) {
        let rest = choose|rest: Seq<Seq<char>>| path == #[trigger] (start + rest);
        assert((start + rest).take(start.len() as int) =~= start);
    }
}

/// A listed column stands for itself and, where it is a struct, for every column below it, whatever
/// the count.
pub proof fn law_listed_columns_pass(
    filter: FilterV,
    columns: Seq<Seq<Seq<char>>>,
    i: int,
    rest: Seq<Seq<char>>,
    count: nat,
)
    requires
        filter.listed == Some(columns),
        0 <= i < columns.len(),
    ensures
        filter.for_table(columns[i] + rest, count),
{
    assert((columns[i] + rest).take(columns[i].len() as int) =~= columns[i]);
    assert(begins_with(columns[i] + rest, columns[i]));
}

/// A required column and every column below it pass, whatever is listed and whatever the count.
pub proof fn law_required_columns_and_below_pass(
    filter: FilterV,
    i: int,
    rest: Seq<Seq<char>>,
    count: nat,
)
    requires
        0 <= i < filter.required.len(),
    ensures
        filter.for_table(filter.required[i] + rest, count),
{
    let path = filter.required[i] + rest;
    assert(path.take(filter.required[i].len() as int) =~= filter.required[i]);
    assert(begins_with(path, filter.required[i]));
}

/// Where columns are listed, a column passes only if it is one of them or one of the required ones,
/// or stands below such a column.
pub proof fn law_only_listed_columns_pass(
    filter: FilterV,
    columns: Seq<Seq<Seq<char>>>,
    path: Seq<Seq<char>>,
    count: nat,
)
    requires
        filter.listed == Some(columns),
        filter.for_table(path, count),
    ensures
        (exists|i: int, rest: Seq<Seq<char>>|
            #![trigger columns[i] + rest]
            0 <= i < columns.len() && path == columns[i] + rest) || (exists|
            i: int,
            rest: Seq<Seq<char>>,
        |
            #![trigger filter.required[i] + rest]
            0 <= i < filter.required.len() && path == filter.required[i] + rest),
{
    if covers(filter.required, path) {
        let i = choose|i: int|
            0 <= i < filter.required.len() && begins_with(path, #[trigger] filter.required[i]);
        lemma_begins_with(path, filter.required[i]);
        let rest = choose|rest: Seq<Seq<char>>| path == #[trigger] (filter.required[i] + rest);
        assert(path == filter.required[i] + rest);
    } else {
        let i = choose|i: int|
            0 <= i < columns.len() && begins_with(path, #[trigger] columns[i]);
        lemma_begins_with(path, columns[i]);
        let rest = choose|rest: Seq<Seq<char>>| path == #[trigger] (columns[i] + rest);
        assert(path == columns[i] + rest);
    }
}

/// Without listed columns, those that are not required pass as long as fewer columns than the limit
/// have passed, and all of them where there is no limit.
pub proof fn law_limit_counts_columns(filter: FilterV, path: Seq<Seq<char>>, count: nat)
    requires
        filter.listed is None,
    ensures
        filter.limit is None ==> filter.for_table(path, count),
        filter.limit is Some && count < filter.limit->0 ==> filter.for_table(path, count),
        filter.limit is Some && count >= filter.limit->0 && filter.for_table(path, count)
            ==> exists|i: int, rest: Seq<Seq<char>>| #![trigger filter.required[i] + rest]
            0 <= i < filter.required.len() && path == filter.required[i] + rest,
{
    if covers(filter.required, path) {
        let i = choose|i: int|
            0 <= i < filter.required.len() && begins_with(path, #[trigger] filter.required[i]);
        lemma_begins_with(path, filter.required[i]);
        let rest = choose|rest: Seq<Seq<char>>| path == #[trigger] (filter.required[i] + rest);
        assert(path == filter.required[i] + rest);
    }
}

/// A column is asked for where no columns are, or where it is one of those that are or stands below
/// one.
pub proof fn law_requested_columns(filter: FilterV, path: Seq<Seq<char>>)
    ensures
        filter.is_requested(path) <==> filter.requested.len() == 0 || exists|
            i: int,
            rest: Seq<Seq<char>>,
        |
            #![trigger filter.requested[i] + rest]
            0 <= i < filter.requested.len() && path == filter.requested[i] + rest,
{
    if covers(filter.requested, path) {
        let i = choose|i: int|
            0 <= i < filter.requested.len() && begins_with(path, #[trigger] filter.requested[i]);
        lemma_begins_with(path, filter.requested[i]);
        let rest = choose|rest: Seq<Seq<char>>| path == #[trigger] (filter.requested[i] + rest);
        assert(path == filter.requested[i] + rest);
    }
    if exists|i: int, rest: Seq<Seq<char>>|
        #![trigger filter.requested[i] + rest]
        0 <= i < filter.requested.len() && path == filter.requested[i] + rest {
        let (i, rest) = choose|i: int, rest: Seq<Seq<char>>|
            #![trigger filter.requested[i] + rest]
            0 <= i < filter.requested.len() && path == filter.requested[i] + rest;
        assert((filter.requested[i] + rest).take(filter.requested[i].len() as int)
            =~= filter.requested[i]);
        assert(begins_with(path, filter.requested[i]));
    }
}

/// What a configuration says: the listed columns as they are, and a limit of 32 columns unless it
/// sets another one or none.
pub proof fn law_filter_of_config(config: StatsConfig<'_>)
    ensures
        config.data_skipping_stats_columns is None ==> filter_of(config, None, None).listed is None,
        config.data_skipping_stats_columns matches Some(columns) ==> {
            &&& filter_of(config, None, None).listed is Some
            &&& filter_of(config, None, None).listed->0.len() == columns@.len()
            &&& forall|i: int|
                0 <= i < columns@.len() ==> #[trigger] filter_of(
                    config,
                    None,
                    None,
                ).listed->0[i] == columns@[i]@
        },
        config.data_skipping_num_indexed_cols is None ==> filter_of(config, None, None).limit
            == Some(32u64),
        config.data_skipping_num_indexed_cols == Some(DataSkippingNumIndexedCols::AllColumns)
            ==> filter_of(config, None, None).limit is None,
        config.data_skipping_num_indexed_cols matches Some(
            DataSkippingNumIndexedCols::NumColumns(n),
        ) ==> filter_of(config, None, None).limit == Some(n),
        filter_of(config, None, None).required.len() == 0,
        filter_of(config, None, None).requested.len() == 0,
{
}

/// The leaf columns of a walk in schema order that have statistics, and the number of columns that
/// then have passed: a primitive column that passes the table's filter counts, and is there where it
/// is asked for.
pub open spec fn passing_leaves(leaves: Seq<LeafV>, filter: FilterV, count: nat) -> (
    Seq<LeafV>,
    nat,
)
    decreases leaves.len(),
{
    if leaves.len() == 0 {
        (seq![], count)
    } else {
        let (before, now) = passing_leaves(leaves.drop_last(), filter, count);
        let leaf = leaves.last();
        if !(leaf.data_type is Primitive) || !filter.for_table(leaf.path, now) {
            (before, now)
        } else if filter.is_requested(leaf.path) {
            (before.push(leaf), now + 1)
        } else {
            (before, now + 1)
        }
    }
}

proof fn lemma_passing_add(a: Seq<LeafV>, b: Seq<LeafV>, filter: FilterV, count: nat)
    ensures
        ({
            let (first, now) = passing_leaves(a, filter, count);
            let (second, end) = passing_leaves(b, filter, now);
            passing_leaves(a + b, filter, count) == (first + second, end)
        }),
    decreases b.len(),
{
    let (first, now) = passing_leaves(a, filter, count);
    if b.len() == 0 {
        assert(a + b =~= a);
        assert(first + Seq::<LeafV>::empty() =~= first);
    } else {
        assert((a + b).drop_last() =~= a + b.drop_last());
        assert((a + b).last() == b.last());
        lemma_passing_add(a, b.drop_last(), filter, count);
        let second = passing_leaves(b.drop_last(), filter, now).0;
        assert(first + second.push(b.last()) =~= (first + second).push(b.last()));
    }
}

/// The leaf columns of the base statistics are those primitive leaf columns of the schema, with their
/// types and in their order, that pass the table's filter and are asked for.
pub proof fn law_base_leaves(
    entries: Seq<EntryV>,
    filter: FilterV,
    path: Seq<Seq<char>>,
    count: nat,
)
    requires
        entry_names_differ(entries),
    ensures
        (
            leaf_columns(entries_of(base_fields(entries, filter, path, count).0), path),
            base_fields(entries, filter, path, count).1,
        ) == passing_leaves(leaf_columns(entries, path), filter, count),
    decreases entries,
{
    let fields = base_fields(entries, filter, path, count).0;
    if entries.len() == 0 {
        assert(entries_of(fields) =~= seq![]);
    } else {
        let front = entries.drop_last();
        law_base_leaves(front, filter, path, count);
        let (before, now) = base_fields(front, filter, path, count);
        let f = entries.last().field;
        let at = path.push(f.name);
        lemma_passing_add(leaf_columns(front, path), field_leaves(f, path), filter, count);
        let passed = passing_leaves(leaf_columns(front, path), filter, count).0;
        let more = passing_leaves(field_leaves(f, path), filter, now).0;
        assert(names_differ(f.data_type));
        if let TypeV::Struct(s) = f.data_type {
            assert(decreases_to!(entries => entries[entries.len() - 1]));
            assert(decreases_to!(entries.last() => entries.last().field));
            assert(decreases_to!(f => f.data_type));
            lemma_type_parts(f.data_type);
            assert(decreases_to!(*s => s.entries));
            law_base_leaves(s.entries, filter, at, now);
            let inner = base_fields(s.entries, filter, at, now).0;
            lemma_base_names(s.entries, filter, at, now);
            law_unchecked_keeps_distinct_names(inner);
            if inner.len() == 0 {
                assert(entries_of(inner) =~= seq![]);
            }
        } else {
            let leaf = LeafV { path: at, data_type: f.data_type };
            assert(field_leaves(f, path) =~= seq![leaf]);
            assert(seq![leaf].drop_last() =~= seq![]);
            assert(passing_leaves(seq![leaf].drop_last(), filter, now) == (
                Seq::<LeafV>::empty(),
                now,
            ));
        }
        match base_type(f.data_type, filter, at, now).0 {
            Some(data_type) => {
                let kept = FieldV { data_type, nullable: true, ..f };
                assert(entries_of(fields).drop_last() =~= entries_of(before));
                assert(entries_of(fields).last() == (EntryV { key: kept.name, field: kept }));
                assert(field_leaves(kept, path) =~= more);
                assert(passed + more =~= leaf_columns(entries_of(fields), path));
            },
            None => {
                assert(more =~= seq![]);
                assert(passed + more =~= passed);
            },
        }
    }
}

/// The primitive ones among leaf columns.
pub open spec fn primitive_leaves(leaves: Seq<LeafV>) -> Seq<LeafV>
    decreases leaves.len(),
{
    if leaves.len() == 0 {
        seq![]
    } else if leaves.last().data_type is Primitive {
        primitive_leaves(leaves.drop_last()).push(leaves.last())
    } else {
        primitive_leaves(leaves.drop_last())
    }
}

/// Where nothing is listed, required or asked for, the first primitive leaf columns have statistics,
/// as many as the limit says, or all of them.
pub proof fn law_first_columns_have_statistics(leaves: Seq<LeafV>, filter: FilterV)
    requires
        filter.listed is None,
        filter.required.len() == 0,
        filter.requested.len() == 0,
    ensures
        ({
            let all = primitive_leaves(leaves);
            let n = if filter.limit is Some && filter.limit->0 < all.len() {
                filter.limit->0 as int
            } else {
                all.len() as int
            };
            passing_leaves(leaves, filter, 0) == (all.take(n), n as nat)
        }),
    decreases leaves.len(),
{
    let all = primitive_leaves(leaves);
    if leaves.len() == 0 {
        assert(all.take(0) =~= seq![]);
    } else {
        law_first_columns_have_statistics(leaves.drop_last(), filter);
        let front = primitive_leaves(leaves.drop_last());
        if leaves.last().data_type is Primitive {
            let m = passing_leaves(leaves.drop_last(), filter, 0).1 as int;
            assert(all.take(m) =~= front.take(m));
            if m == front.len() {
                assert(front.take(m).push(leaves.last()) =~= all.take(m + 1));
            }
        }
    }
}

/// The primitive leaf columns that stand under one of the given columns: the path of each is that of
/// such a column with something behind it, or nothing.
pub open spec fn leaves_under(leaves: Seq<LeafV>, columns: Seq<Seq<Seq<char>>>) -> Seq<LeafV>
    decreases leaves.len(),
{
    if leaves.len() == 0 {
        seq![]
    } else if leaves.last().data_type is Primitive && exists|i: int, rest: Seq<Seq<char>>|
        #![trigger columns[i] + rest]
        0 <= i < columns.len() && leaves.last().path == columns[i] + rest {
        leaves_under(leaves.drop_last(), columns).push(leaves.last())
    } else {
        leaves_under(leaves.drop_last(), columns)
    }
}

/// Where columns are listed and none is required or asked for, the leaf columns under the listed ones
/// have statistics, and no others.
pub proof fn law_listed_columns_have_statistics(
    leaves: Seq<LeafV>,
    filter: FilterV,
    columns: Seq<Seq<Seq<char>>>,
    count: nat,
)
    requires
        filter.listed == Some(columns),
        filter.required.len() == 0,
        filter.requested.len() == 0,
    ensures
        passing_leaves(leaves, filter, count).0 == leaves_under(leaves, columns),
    decreases leaves.len(),
{
    if leaves.len() > 0 {
        law_listed_columns_have_statistics(leaves.drop_last(), filter, columns, count);
        let now = passing_leaves(leaves.drop_last(), filter, count).1;
        let path = leaves.last().path;
        if filter.for_table(path, now) {
            law_only_listed_columns_pass(filter, columns, path, now);
        }
        if exists|i: int, rest: Seq<Seq<char>>|
            #![trigger columns[i] + rest]
            0 <= i < columns.len() && path == columns[i] + rest {
            let (i, rest) = choose|i: int, rest: Seq<Seq<char>>|
                #![trigger columns[i] + rest]
                0 <= i < columns.len() && path == columns[i] + rest;
            law_listed_columns_pass(filter, columns, i, rest, now);
        }
    }
}

proof fn lemma_changed_names(change: StatsTransform, entries: Seq<EntryV>)
    requires
        entry_names_differ(entries),
    ensures
        ({
            let fields = changed_fields(change, entries);
            &&& forall|i: int|
                0 <= i < fields.len() ==> exists|j: int|
                    0 <= j < entries.len() && (#[trigger] fields[i]).name == (
                    #[trigger] entries[j]).field.name
            &&& forall|i: int, j: int|
                0 <= i < j < fields.len() ==> (#[trigger] fields[i]).name != (
                #[trigger] fields[j]).name
        }),
    decreases entries.len(),
{
    if entries.len() > 0 {
        let front = entries.drop_last();
        lemma_changed_names(change, front);
        let before = changed_fields(change, front);
        let fields = changed_fields(change, entries);
        let last = entries.last().field;
        let c = changed_field(change, last);
        assert(c is Some ==> c->0.name == last.name);
        assert forall|i: int| 0 <= i < before.len() implies (#[trigger] before[i]).name
            != last.name by {
            let j = choose|j: int|
                0 <= j < front.len() && before[i].name == (#[trigger] front[j]).field.name;
            assert(entries[j] == front[j]);
        }
        assert forall|i: int| 0 <= i < fields.len() implies exists|j: int|
            0 <= j < entries.len() && (#[trigger] fields[i]).name == (
            #[trigger] entries[j]).field.name by {
            if i < before.len() {
                assert(fields[i] == before[i]);
                let j = choose|j: int|
                    0 <= j < front.len() && before[i].name == (#[trigger] front[j]).field.name;
                assert(entries[j] == front[j]);
            } else {
                assert(entries[entries.len() - 1].field.name == fields[i].name);
            }
        }
        assert forall|i: int, j: int| 0 <= i < j < fields.len() implies (#[trigger] fields[i]).name
            != (#[trigger] fields[j]).name by {
            assert(fields[i] == before[i]);
            if j < before.len() {
                assert(fields[j] == before[j]);
            }
        }
    }
}

/// What a change of the null count or of the smallest and largest values makes of a leaf column: a
/// long, or the column itself where its type is eligible.
pub open spec fn changed_leaves(change: StatsTransform, leaves: Seq<LeafV>) -> Seq<LeafV>
    decreases leaves.len(),
{
    if leaves.len() == 0 {
        seq![]
    } else {
        let before = changed_leaves(change, leaves.drop_last());
        let leaf = leaves.last();
        if change is NullCount {
            before.push(
                LeafV { path: leaf.path, data_type: TypeV::Primitive(PrimitiveType::Long) },
            )
        } else if leaf.data_type is Primitive && skipping_eligible(leaf.data_type->Primitive_0) {
            before.push(leaf)
        } else {
            before
        }
    }
}

proof fn lemma_changed_leaves_add(change: StatsTransform, a: Seq<LeafV>, b: Seq<LeafV>)
    ensures
        changed_leaves(change, a + b) == changed_leaves(change, a) + changed_leaves(change, b),
    decreases b.len(),
{
    if b.len() == 0 {
        assert(a + b =~= a);
        assert(changed_leaves(change, a) + changed_leaves(change, b) =~= changed_leaves(change, a));
    } else {
        assert((a + b).drop_last() =~= a + b.drop_last());
        assert((a + b).last() == b.last());
        lemma_changed_leaves_add(change, a, b.drop_last());
        assert(changed_leaves(change, a + b) =~= changed_leaves(change, a) + changed_leaves(
            change,
            b,
        ));
    }
}

/// The null counts have every leaf column, as a long. The smallest and largest values have every leaf
/// column of an eligible type, with its own type, and no other.
pub proof fn law_leaves_of_changed_schema(
    change: StatsTransform,
    entries: Seq<EntryV>,
    path: Seq<Seq<char>>,
)
    requires
        change is NullCount || change is MinMax,
        entry_names_differ(entries),
    ensures
        leaf_columns(entries_of(changed_fields(change, entries)), path) == changed_leaves(
            change,
            leaf_columns(entries, path),
        ),
    decreases entries,
{
    let fields = changed_fields(change, entries);
    if entries.len() == 0 {
        assert(entries_of(fields) =~= seq![]);
    } else {
        let front = entries.drop_last();
        law_leaves_of_changed_schema(change, front, path);
        let before = changed_fields(change, front);
        let f = entries.last().field;
        let at = path.push(f.name);
        lemma_changed_leaves_add(change, leaf_columns(front, path), field_leaves(f, path));
        let more = changed_leaves(change, field_leaves(f, path));
        let old = changed_leaves(change, leaf_columns(front, path));
        assert(names_differ(f.data_type));
        if let TypeV::Struct(s) = f.data_type {
            assert(decreases_to!(entries => entries[entries.len() - 1]));
            assert(decreases_to!(entries.last() => entries.last().field));
            assert(decreases_to!(f => f.data_type));
            lemma_type_parts(f.data_type);
            assert(decreases_to!(*s => s.entries));
            law_leaves_of_changed_schema(change, s.entries, at);
            let inner = changed_fields(change, s.entries);
            lemma_changed_names(change, s.entries);
            law_unchecked_keeps_distinct_names(inner);
            if inner.len() == 0 {
                assert(entries_of(inner) =~= seq![]);
            }
        } else {
            let leaf = LeafV { path: at, data_type: f.data_type };
            assert(field_leaves(f, path) =~= seq![leaf]);
            assert(seq![leaf].drop_last() =~= seq![]);
            assert(changed_leaves(change, seq![leaf].drop_last()) =~= seq![]);
        }
        match changed_field(change, f) {
            Some(kept) => {
                assert(entries_of(fields).drop_last() =~= entries_of(before));
                assert(entries_of(fields).last() == (EntryV { key: kept.name, field: kept }));
                assert(field_leaves(kept, path) =~= more);
                assert(old + more =~= leaf_columns(entries_of(fields), path));
            },
            None => {
                assert(more =~= seq![]);
                assert(old + more =~= old);
            },
        }
    }
}

proof fn lemma_null_count_leaves(leaves: Seq<LeafV>)
    ensures
        ({
            let counts = changed_leaves(StatsTransform::NullCount, leaves);
            &&& counts.len() == leaves.len()
            &&& forall|i: int|
                0 <= i < leaves.len() ==> (#[trigger] counts[i]).path == leaves[i].path
                    && counts[i].data_type == TypeV::Primitive(PrimitiveType::Long)
        }),
    decreases leaves.len(),
{
    if leaves.len() > 0 {
        lemma_null_count_leaves(leaves.drop_last());
    }
}

/// Each leaf column has a null count: a long at the same path, in the same order.
pub proof fn law_null_counts_of_all_columns(entries: Seq<EntryV>, path: Seq<Seq<char>>)
    requires
        entry_names_differ(entries),
    ensures
        ({
            let counts = leaf_columns(
                entries_of(changed_fields(StatsTransform::NullCount, entries)),
                path,
            );
            let leaves = leaf_columns(entries, path);
            &&& counts.len() == leaves.len()
            &&& forall|i: int|
                0 <= i < leaves.len() ==> (#[trigger] counts[i]).path == leaves[i].path
                    && counts[i].data_type == TypeV::Primitive(PrimitiveType::Long)
        }),
{
    law_leaves_of_changed_schema(StatsTransform::NullCount, entries, path);
    lemma_null_count_leaves(leaf_columns(entries, path));
}

proof fn lemma_min_max_leaves(leaves: Seq<LeafV>)
    ensures
        ({
            let values = changed_leaves(StatsTransform::MinMax, leaves);
            &&& values.len() <= leaves.len()
            &&& forall|l: LeafV| #[trigger]
                values.contains(l) <==> leaves.contains(l) && l.data_type is Primitive
                    && !(l.data_type->Primitive_0 is Boolean) && !(
                l.data_type->Primitive_0 is Binary)
        }),
    decreases leaves.len(),
{
    let values = changed_leaves(StatsTransform::MinMax, leaves);
    if leaves.len() > 0 {
        lemma_min_max_leaves(leaves.drop_last());
        let front = leaves.drop_last();
        let before = changed_leaves(StatsTransform::MinMax, front);
        assert forall|l: LeafV| #[trigger] values.contains(l) <==> leaves.contains(l)
            && l.data_type is Primitive && !(l.data_type->Primitive_0 is Boolean) && !(
        l.data_type->Primitive_0 is Binary) by {
            assert(leaves.contains(l) <==> front.contains(l) || l == leaves.last()) by {
                if front.contains(l) {
                    let k = choose|k: int| 0 <= k < front.len() && front[k] == l;
                    assert(leaves[k] == l);
                }
                if leaves.contains(l) {
                    let k = choose|k: int| 0 <= k < leaves.len() && leaves[k] == l;
                    if k < front.len() {
                        assert(front[k] == l);
                    }
                }
            }
            if before.len() < values.len() {
                assert(values =~= before.push(leaves.last()));
                assert(values.contains(l) <==> before.contains(l) || l == leaves.last()) by {
                    if before.contains(l) {
                        let k = choose|k: int| 0 <= k < before.len() && before[k] == l;
                        assert(values[k] == l);
                    }
                    assert(values[before.len() as int] == leaves.last());
                }
            }
        }
    }
}

/// A leaf column has smallest and largest values, with its own type and at its own path, exactly where
/// its type is primitive and neither boolean nor binary.
pub proof fn law_min_max_of_eligible_columns(
    entries: Seq<EntryV>,
    path: Seq<Seq<char>>,
    l: LeafV,
)
    requires
        entry_names_differ(entries),
    ensures
        leaf_columns(
            entries_of(changed_fields(StatsTransform::MinMax, entries)),
            path,
        ).contains(l) <==> leaf_columns(entries, path).contains(l) && match l.data_type {
            TypeV::Primitive(p) => !(p is Boolean) && !(p is Binary),
            _ => false,
        },
{
    law_leaves_of_changed_schema(StatsTransform::MinMax, entries, path);
    lemma_min_max_leaves(leaf_columns(entries, path));
}

/// A path behind another one.
pub open spec fn leaves_below(leaves: Seq<LeafV>, name: Seq<char>) -> Seq<LeafV> {
    Seq::new(
        leaves.len(),
        |i: int| LeafV { path: seq![name] + leaves[i].path, data_type: leaves[i].data_type },
    )
}

proof fn lemma_leaves_below(entries: Seq<EntryV>, path: Seq<Seq<char>>, name: Seq<char>)
    ensures
        leaf_columns(entries, seq![name] + path) == leaves_below(leaf_columns(entries, path), name),
    decreases entries,
{
    if entries.len() == 0 {
        assert(leaf_columns(entries, seq![name] + path) =~= leaves_below(
            leaf_columns(entries, path),
            name,
        ));
    } else {
        lemma_leaves_below(entries.drop_last(), path, name);
        let f = entries.last().field;
        assert((seq![name] + path).push(f.name) =~= seq![name] + path.push(f.name));
        if let TypeV::Struct(s) = f.data_type {
            assert(decreases_to!(entries => entries[entries.len() - 1]));
            assert(decreases_to!(entries.last() => entries.last().field));
            assert(decreases_to!(f => f.data_type));
            lemma_type_parts(f.data_type);
            assert(decreases_to!(*s => s.entries));
            lemma_leaves_below(s.entries, path.push(f.name), name);
        }
        assert(field_leaves(f, seq![name] + path) =~= leaves_below(field_leaves(f, path), name));
        assert(leaf_columns(entries, seq![name] + path) =~= leaves_below(
            leaf_columns(entries, path),
            name,
        ));
    }
}

proof fn lemma_base_differs(entries: Seq<EntryV>, filter: FilterV, path: Seq<Seq<char>>, count: nat)
    requires
        entry_names_differ(entries),
    ensures
        entry_names_differ(entries_of(base_fields(entries, filter, path, count).0)),
    decreases entries,
{
    if entries.len() > 0 {
        let front = entries.drop_last();
        lemma_base_differs(front, filter, path, count);
        lemma_base_names(entries, filter, path, count);
        let (before, now) = base_fields(front, filter, path, count);
        let fields = base_fields(entries, filter, path, count).0;
        let f = entries.last().field;
        let at = path.push(f.name);
        assert(names_differ(f.data_type));
        if let TypeV::Struct(s) = f.data_type {
            assert(decreases_to!(entries => entries[entries.len() - 1]));
            assert(decreases_to!(entries.last() => entries.last().field));
            assert(decreases_to!(f => f.data_type));
            lemma_type_parts(f.data_type);
            assert(decreases_to!(*s => s.entries));
            lemma_base_differs(s.entries, filter, at, now);
            lemma_base_names(s.entries, filter, at, now);
            law_unchecked_keeps_distinct_names(base_fields(s.entries, filter, at, now).0);
        }
        let kept = base_type(f.data_type, filter, at, now).0;
        if fields.len() > before.len() {
            assert(kept is Some && names_differ(kept->0));
            let es = entries_of(fields);
            assert(es.drop_last() =~= entries_of(before));
            assert forall|i: int| 0 <= i < es.len() - 1 implies (#[trigger] es[i]).field.name
                != es.last().field.name by {
                assert(fields[i].name != fields[fields.len() - 1].name);
            }
            assert(names_differ(es.last().field.data_type));
        }
    }
}

/// The leaf columns of the schema of file statistics, in order: the number of records; a null count
/// for each leaf column of the base statistics; the smallest and then the largest value of each of
/// them that is eligible, with its own type; and whether the bounds are tight.
pub proof fn law_leaves_of_expected_schema(s: StructV, filter: FilterV)
    requires
        entry_names_differ(s.entries),
    ensures
        ({
            let base = passing_leaves(leaf_columns(s.entries, seq![]), filter, 0).0;
            let counts = changed_leaves(StatsTransform::NullCount, base);
            let values = changed_leaves(StatsTransform::MinMax, base);
            leaf_columns(entries_of(expected_fields(s, filter)), seq![]) == seq![
                LeafV {
                    path: seq!["numRecords"@],
                    data_type: TypeV::Primitive(PrimitiveType::Long),
                },
            ] + leaves_below(counts, "nullCount"@) + leaves_below(values, "minValues"@)
                + leaves_below(values, "maxValues"@) + seq![
                LeafV {
                    path: seq!["tightBounds"@],
                    data_type: TypeV::Primitive(PrimitiveType::Boolean),
                },
            ]
        }),
{
    let none = Seq::<Seq<char>>::empty();
    let fields = base_fields(s.entries, filter, none, 0).0;
    law_base_leaves(s.entries, filter, none, 0);
    lemma_base_names(s.entries, filter, none, 0);
    lemma_base_differs(s.entries, filter, none, 0);
    law_unchecked_keeps_distinct_names(fields);
    let base = passing_leaves(leaf_columns(s.entries, none), filter, 0).0;
    let es = entries_of(fields);
    lemma_optional(StatsTransform::NullCount, es, "nullCount"@);
    lemma_optional(StatsTransform::MinMax, es, "minValues"@);
    lemma_optional(StatsTransform::MinMax, es, "maxValues"@);
    let counts = changed_leaves(StatsTransform::NullCount, base);
    let values = changed_leaves(StatsTransform::MinMax, base);
    let nc = optional_change(StatsTransform::NullCount, fields, "nullCount"@);
    let mn = optional_change(StatsTransform::MinMax, fields, "minValues"@);
    let mx = optional_change(StatsTransform::MinMax, fields, "maxValues"@);
    let first = FieldV::plain("numRecords"@, TypeV::Primitive(PrimitiveType::Long), true);
    let last = FieldV::plain("tightBounds"@, TypeV::Primitive(PrimitiveType::Boolean), true);
    assert(expected_fields(s, filter) =~= seq![first] + nc + mn + mx + seq![last]);
    lemma_leaves_of_fields(seq![first] + nc + mn + mx, seq![last]);
    lemma_leaves_of_fields(seq![first] + nc + mn, mx);
    lemma_leaves_of_fields(seq![first] + nc, mn);
    lemma_leaves_of_fields(seq![first], nc);
    lemma_leaf_field(first);
    lemma_leaf_field(last);
}

/// The field of a changed schema, where something is left of it.
pub open spec fn optional_change(change: StatsTransform, fields: Seq<FieldV>, name: Seq<char>) -> Seq<
    FieldV,
> {
    if fields.len() == 0 || changed_fields(change, entries_of(fields)).len() == 0 {
        seq![]
    } else {
        seq![
            FieldV::plain(
                name,
                TypeV::Struct(
                    Box::new(unchecked_struct(changed_fields(change, entries_of(fields)))),
                ),
                true,
            ),
        ]
    }
}

proof fn lemma_leaf_field(f: FieldV)
    requires
        !(f.data_type is Struct),
    ensures
        leaf_columns(entries_of(seq![f]), seq![]) == seq![
            LeafV { path: seq![f.name], data_type: f.data_type },
        ],
{
    let es = entries_of(seq![f]);
    assert(es.drop_last() =~= seq![]);
    assert(leaf_columns(es.drop_last(), seq![]) =~= seq![]);
    assert(Seq::<Seq<char>>::empty().push(f.name) =~= seq![f.name]);
    assert(field_leaves(f, seq![]) =~= seq![LeafV { path: seq![f.name], data_type: f.data_type }]);
    assert(leaf_columns(es, seq![]) =~= seq![
        LeafV { path: seq![f.name], data_type: f.data_type },
    ]);
}

proof fn lemma_leaves_of_fields(a: Seq<FieldV>, b: Seq<FieldV>)
    ensures
        leaf_columns(entries_of(a + b), seq![]) == leaf_columns(entries_of(a), seq![])
            + leaf_columns(entries_of(b), seq![]),
    decreases b.len(),
{
    if b.len() == 0 {
        assert(a + b =~= a);
        assert(leaf_columns(entries_of(b), seq![]) =~= seq![]);
        assert(leaf_columns(entries_of(a), seq![]) + leaf_columns(entries_of(b), seq![])
            =~= leaf_columns(entries_of(a), seq![]));
    } else {
        assert(entries_of(a + b).drop_last() =~= entries_of(a + b.drop_last()));
        assert(entries_of(b).drop_last() =~= entries_of(b.drop_last()));
        assert(entries_of(a + b).last() == entries_of(b).last());
        lemma_leaves_of_fields(a, b.drop_last());
        assert(leaf_columns(entries_of(a + b), seq![]) =~= leaf_columns(entries_of(a), seq![])
            + leaf_columns(entries_of(b), seq![]));
    }
}

proof fn lemma_optional(change: StatsTransform, es: Seq<EntryV>, name: Seq<char>)
    requires
        change is NullCount || change is MinMax,
        entry_names_differ(es),
    ensures
        ({
            let fields = changed_fields(change, es);
            let leaves = changed_leaves(change, leaf_columns(es, seq![]));
            if fields.len() == 0 {
                leaves.len() == 0
            } else {
                leaf_columns(
                    entries_of(
                        seq![
                            FieldV::plain(
                                name,
                                TypeV::Struct(Box::new(unchecked_struct(fields))),
                                true,
                            ),
                        ],
                    ),
                    seq![],
                ) == leaves_below(leaves, name)
            }
        }),
{
    let none = Seq::<Seq<char>>::empty();
    let fields = changed_fields(change, es);
    law_leaves_of_changed_schema(change, es, none);
    lemma_changed_names(change, es);
    law_unchecked_keeps_distinct_names(fields);
    if fields.len() == 0 {
        assert(entries_of(fields) =~= seq![]);
    } else {
        let f = FieldV::plain(name, TypeV::Struct(Box::new(unchecked_struct(fields))), true);
        let one = entries_of(seq![f]);
        assert(one.drop_last() =~= seq![]);
        assert(none.push(name) =~= seq![name] + none);
        lemma_leaves_below(entries_of(fields), none, name);
        assert(leaf_columns(one.drop_last(), none) =~= seq![]);
        assert(field_leaves(f, none) == leaf_columns(entries_of(fields), none.push(name)));
        assert(leaf_columns(one, none) =~= leaf_columns(entries_of(fields), none.push(name)));
    }
}

/// Whether all leaf columns are of primitive types.
pub open spec fn all_primitive(leaves: Seq<LeafV>) -> bool {
    forall|i: int| 0 <= i < leaves.len() ==> (#[trigger] leaves[i]).data_type is Primitive
}

/// Making fields nullable, and taking their metadata away, keeps all leaf columns with their types, in
/// their order.
pub proof fn law_leaves_kept(change: StatsTransform, entries: Seq<EntryV>, path: Seq<Seq<char>>)
    requires
        change is Nullable || change is StripMetadata,
        entry_names_differ(entries),
        all_primitive(leaf_columns(entries, path)),
    ensures
        leaf_columns(entries_of(changed_fields(change, entries)), path) == leaf_columns(
            entries,
            path,
        ),
    decreases entries,
{
    let fields = changed_fields(change, entries);
    if entries.len() == 0 {
        assert(entries_of(fields) =~= seq![]);
        assert(leaf_columns(entries_of(fields), path) =~= leaf_columns(entries, path));
    } else {
        let front = entries.drop_last();
        let f = entries.last().field;
        let at = path.push(f.name);
        let all = leaf_columns(entries, path);
        let before_leaves = leaf_columns(front, path);
        let more = field_leaves(f, path);
        assert(all == before_leaves + more);
        assert forall|i: int| 0 <= i < before_leaves.len() implies (
        #[trigger] before_leaves[i]).data_type is Primitive by {
            assert(all[i] == before_leaves[i]);
        }
        assert forall|i: int| 0 <= i < more.len() implies (
        #[trigger] more[i]).data_type is Primitive by {
            assert(all[before_leaves.len() + i] == more[i]);
        }
        law_leaves_kept(change, front, path);
        let before = changed_fields(change, front);
        assert(names_differ(f.data_type));
        if let TypeV::Struct(s) = f.data_type {
            assert(decreases_to!(entries => entries[entries.len() - 1]));
            assert(decreases_to!(entries.last() => entries.last().field));
            assert(decreases_to!(f => f.data_type));
            lemma_type_parts(f.data_type);
            assert(decreases_to!(*s => s.entries));
            law_leaves_kept(change, s.entries, at);
            let inner = changed_fields(change, s.entries);
            lemma_changed_names(change, s.entries);
            law_unchecked_keeps_distinct_names(inner);
            let changed = changed_struct(change, *s);
            let t = changed_type(change, f.data_type);
            if inner.len() == 0 {
                assert(entries_of(inner) =~= seq![]);
            }
        } else {
            assert(more[0].data_type == f.data_type);
            let t = changed_type(change, f.data_type);
            assert(t == Some(f.data_type));
        }
        match changed_field(change, f) {
            Some(kept) => {
                assert(entries_of(fields).drop_last() =~= entries_of(before));
                assert(entries_of(fields).last() == (EntryV { key: kept.name, field: kept }));
                assert(field_leaves(kept, path) =~= more);
            },
            None => {
                assert(more =~= seq![]);
                assert(before_leaves + more =~= before_leaves);
            },
        }
    }
}

/// Whether a type is another one in which only the change was made: nullable fields, or fields without
/// metadata, at every level, and everything else as it was and in its place.
pub open spec fn only_changed(change: StatsTransform, t: TypeV, u: TypeV) -> bool
    decreases t,
{
    match t {
        TypeV::Primitive(_) => u == t,
        TypeV::Array(a) => {
            &&& u is Array
            &&& u->Array_0.label == a.label
            &&& u->Array_0.contains_null == a.contains_null
            &&& only_changed(change, a.element, u->Array_0.element)
        },
        TypeV::MapOf(m) => {
            &&& u is MapOf
            &&& u->MapOf_0.label == m.label
            &&& u->MapOf_0.value_contains_null == m.value_contains_null
            &&& only_changed(change, m.key, u->MapOf_0.key)
            &&& only_changed(change, m.value, u->MapOf_0.value)
        },
        TypeV::Struct(s) => u is Struct && (distinct_field_names(s.entries) ==> entries_only_changed(
            change,
            s.entries,
            u->Struct_0.entries,
        )),
        TypeV::Variant(s) => u is Variant && (distinct_field_names(s.entries)
            ==> entries_only_changed(change, s.entries, u->Variant_0.entries)),
    }
}

/// Whether entries are others in whose fields only the change was made, one by one and in order.
pub open spec fn entries_only_changed(
    change: StatsTransform,
    entries: Seq<EntryV>,
    changed: Seq<EntryV>,
) -> bool
    decreases entries,
{
    &&& changed.len() == entries.len()
    &&& entries.len() > 0 ==> {
        &&& entries_only_changed(change, entries.drop_last(), changed.drop_last())
        &&& field_only_changed(change, entries.last().field, changed.last().field)
    }
}

/// Whether a field is another one in which only the change was made.
pub open spec fn field_only_changed(change: StatsTransform, f: FieldV, g: FieldV) -> bool
    decreases f,
{
    &&& g.name == f.name
    &&& only_changed(change, f.data_type, g.data_type)
    &&& change is Nullable ==> g.nullable && g.metadata == f.metadata
    &&& change is StripMetadata ==> g.nullable == f.nullable && forall|k: Seq<char>|
        !#[trigger] g.metadata.contains_key(k)
}

/// Whether no two fields have the same name.
pub open spec fn distinct_field_names(entries: Seq<EntryV>) -> bool {
    forall|i: int, j: int|
        0 <= i < j < entries.len() ==> (#[trigger] entries[i]).field.name != (
        #[trigger] entries[j]).field.name
}

/// Whether each struct in a type has a field.
pub open spec fn no_empty_struct(t: TypeV) -> bool
    decreases t,
{
    match t {
        TypeV::Primitive(_) => true,
        TypeV::Array(a) => no_empty_struct(a.element),
        TypeV::MapOf(m) => no_empty_struct(m.key) && no_empty_struct(m.value),
        TypeV::Struct(s) => s.entries.len() > 0 && no_empty_structs(s.entries),
        TypeV::Variant(s) => s.entries.len() > 0 && no_empty_structs(s.entries),
    }
}

/// Whether each struct in the types of fields has a field.
pub open spec fn no_empty_structs(entries: Seq<EntryV>) -> bool
    decreases entries,
{
    entries.len() > 0 ==> no_empty_structs(entries.drop_last()) && no_empty_struct(
        entries.last().field.data_type,
    )
}

/// Making fields nullable, and taking their metadata away, changes nothing else of a type.
pub proof fn law_only_changed(change: StatsTransform, t: TypeV)
    requires
        change is Nullable || change is StripMetadata,
        no_empty_struct(t),
    ensures
        changed_type(change, t) is Some,
        only_changed(change, t, changed_type(change, t)->0),
    decreases t, 0int,
{
    lemma_type_parts(t);
    match t {
        TypeV::Primitive(_) => {},
        TypeV::Array(a) => {
            law_only_changed(change, a.element);
        },
        TypeV::MapOf(m) => {
            law_only_changed(change, m.key);
            law_only_changed(change, m.value);
        },
        TypeV::Struct(s) => {
            assert(decreases_to!(*s => s.entries));
            lemma_entries_only_changed(change, s.entries);
            let fields = changed_fields(change, s.entries);
            let c = changed_struct(change, *s);
            if distinct_field_names(s.entries) {
                assert forall|i: int, j: int| 0 <= i < j < fields.len() implies (
                #[trigger] fields[i]).name != (#[trigger] fields[j]).name by {
                    assert(s.entries[i].field.name != s.entries[j].field.name);
                }
                law_unchecked_keeps_distinct_names(fields);
            }
        },
        TypeV::Variant(s) => {
            assert(decreases_to!(*s => s.entries));
            lemma_entries_only_changed(change, s.entries);
            let fields = changed_fields(change, s.entries);
            let c = changed_struct(change, *s);
            if distinct_field_names(s.entries) {
                assert forall|i: int, j: int| 0 <= i < j < fields.len() implies (
                #[trigger] fields[i]).name != (#[trigger] fields[j]).name by {
                    assert(s.entries[i].field.name != s.entries[j].field.name);
                }
                law_unchecked_keeps_distinct_names(fields);
            }
        },
    }
}

proof fn lemma_entries_only_changed(change: StatsTransform, entries: Seq<EntryV>)
    requires
        change is Nullable || change is StripMetadata,
        no_empty_structs(entries),
    ensures
        changed_fields(change, entries).len() == entries.len(),
        entries_only_changed(change, entries, entries_of(changed_fields(change, entries))),
        forall|i: int|
            0 <= i < entries.len() ==> (#[trigger] changed_fields(change, entries)[i]).name
                == entries[i].field.name,
    decreases entries, 0int,
{
    let fields = changed_fields(change, entries);
    if entries.len() > 0 {
        let front = entries.drop_last();
        let f = entries.last().field;
        lemma_entries_only_changed(change, front);
        assert(decreases_to!(entries => entries[entries.len() - 1]));
        assert(decreases_to!(entries.last() => entries.last().field));
        assert(decreases_to!(f => f.data_type));
        law_only_changed(change, f.data_type);
        let c = changed_field(change, f);
        assert(c is Some);
        let before = changed_fields(change, front);
        assert(fields =~= before.push(c->0));
        assert(entries_of(fields).drop_last() =~= entries_of(before));
        assert(entries_of(fields).last().field == c->0);
        assert(field_only_changed(change, f, c->0));
        assert forall|i: int| 0 <= i < entries.len() implies (#[trigger] fields[i]).name
            == entries[i].field.name by {
            if i < front.len() {
                assert(fields[i] == before[i]);
                assert(front[i] == entries[i]);
            }
        }
    }
}

/// The fields of the base statistics are nullable, and keep the name and the metadata of the field
/// that they come from.
pub proof fn law_base_fields_kept(
    entries: Seq<EntryV>,
    filter: FilterV,
    path: Seq<Seq<char>>,
    count: nat,
    i: int,
)
    requires
        0 <= i < base_fields(entries, filter, path, count).0.len(),
    ensures
        ({
            let g = base_fields(entries, filter, path, count).0[i];
            g.nullable && exists|j: int|
                0 <= j < entries.len() && (#[trigger] entries[j]).field.name == g.name
                    && entries[j].field.metadata == g.metadata
        }),
    decreases entries.len(),
{
    let front = entries.drop_last();
    let before = base_fields(front, filter, path, count).0;
    let all = base_fields(entries, filter, path, count).0;
    if i < before.len() {
        law_base_fields_kept(front, filter, path, count, i);
        assert(all[i] == before[i]);
        let j = choose|j: int|
            0 <= j < front.len() && (#[trigger] front[j]).field.name == all[i].name
                && front[j].field.metadata == all[i].metadata;
        assert(entries[j] == front[j]);
    } else {
        assert(entries[entries.len() - 1].field.name == all[i].name);
    }
}

proof fn lemma_changed_differs(change: StatsTransform, entries: Seq<EntryV>)
    requires
        entry_names_differ(entries),
    ensures
        entry_names_differ(entries_of(changed_fields(change, entries))),
    decreases entries,
{
    if entries.len() > 0 {
        let front = entries.drop_last();
        lemma_changed_differs(change, front);
        lemma_changed_names(change, entries);
        let before = changed_fields(change, front);
        let fields = changed_fields(change, entries);
        let f = entries.last().field;
        let c = changed_field(change, f);
        assert(names_differ(f.data_type));
        if let TypeV::Struct(s) = f.data_type {
            assert(decreases_to!(entries => entries[entries.len() - 1]));
            assert(decreases_to!(entries.last() => entries.last().field));
            assert(decreases_to!(f => f.data_type));
            lemma_type_parts(f.data_type);
            assert(decreases_to!(*s => s.entries));
            lemma_changed_differs(change, s.entries);
            lemma_changed_names(change, s.entries);
            law_unchecked_keeps_distinct_names(changed_fields(change, s.entries));
            let cs = changed_struct(change, *s);
            let ct = changed_type(change, f.data_type);
            assert(c is Some ==> names_differ(c->0.data_type));
        } else {
            let ct = changed_type(change, f.data_type);
            match f.data_type {
                TypeV::Array(_) => {},
                TypeV::MapOf(_) => {},
                _ => {},
            }
            assert(c is Some ==> !(c->0.data_type is Struct));
        }
        if fields.len() > before.len() {
            let es = entries_of(fields);
            assert(c is Some && fields =~= before.push(c->0));
            assert(es.drop_last() =~= entries_of(before));
            assert forall|i: int| 0 <= i < es.len() - 1 implies (#[trigger] es[i]).field.name
                != es.last().field.name by {
                assert(fields[i].name != fields[fields.len() - 1].name);
            }
            assert(es.last().field == c->0);
            assert(names_differ(es.last().field.data_type));
        } else {
            assert(fields =~= before);
        }
    }
}

/// The leaf columns of the statistics of referenced columns, in order: the number of records, a null
/// count for each of the columns, and their smallest and largest values, with their own types.
pub proof fn law_leaves_of_referenced_stats(s: StructV)
    requires
        entry_names_differ(s.entries),
        all_primitive(leaf_columns(s.entries, seq![])),
        referenced_stats(s) is Some,
    ensures
        ({
            let leaves = leaf_columns(s.entries, seq![]);
            let counts = Seq::new(
                leaves.len(),
                |i: int|
                    LeafV {
                        path: leaves[i].path,
                        data_type: TypeV::Primitive(PrimitiveType::Long),
                    },
            );
            leaf_columns(referenced_stats(s)->0.entries, seq![]) == seq![
                LeafV {
                    path: seq!["numRecords"@],
                    data_type: TypeV::Primitive(PrimitiveType::Long),
                },
            ] + leaves_below(counts, "nullCount"@) + leaves_below(leaves, "minValues"@)
                + leaves_below(leaves, "maxValues"@)
        }),
{
    let none = Seq::<Seq<char>>::empty();
    let leaves = leaf_columns(s.entries, none);
    let values = changed_fields(StatsTransform::Nullable, s.entries);
    law_leaves_kept(StatsTransform::Nullable, s.entries, none);
    lemma_changed_names(StatsTransform::Nullable, s.entries);
    lemma_changed_differs(StatsTransform::Nullable, s.entries);
    law_unchecked_keeps_distinct_names(values);
    let es = entries_of(values);
    let counts = changed_fields(StatsTransform::NullCount, es);
    law_null_counts_of_all_columns(es, none);
    lemma_changed_names(StatsTransform::NullCount, es);
    lemma_changed_differs(StatsTransform::NullCount, es);
    law_unchecked_keeps_distinct_names(counts);
    let f0 = FieldV::plain("numRecords"@, TypeV::Primitive(PrimitiveType::Long), true);
    let f1 = FieldV::plain(
        "nullCount"@,
        TypeV::Struct(Box::new(unchecked_struct(counts))),
        true,
    );
    let f2 = FieldV::plain(
        "minValues"@,
        TypeV::Struct(Box::new(unchecked_struct(values))),
        true,
    );
    let f3 = FieldV::plain(
        "maxValues"@,
        TypeV::Struct(Box::new(unchecked_struct(values))),
        true,
    );
    let fields = seq![f0, f1, f2, f3];
    reveal_strlit("numRecords");
    reveal_strlit("nullCount");
    reveal_strlit("minValues");
    reveal_strlit("maxValues");
    assert("numRecords"@.len() == 10 && "nullCount"@.len() == 9 && "minValues"@.len() == 9
        && "maxValues"@.len() == 9);
    assert("nullCount"@[0] == 'n' && "minValues"@[0] == 'm' && "maxValues"@[0] == 'm');
    assert("minValues"@[1] == 'i' && "maxValues"@[1] == 'a');
    law_unchecked_keeps_distinct_names(fields);
    let all = entries_of(fields);
    lemma_struct_leaf(f1, counts);
    lemma_struct_leaf(f2, values);
    lemma_struct_leaf(f3, values);
    lemma_leaf_field(f0);
    assert(fields =~= seq![f0] + seq![f1] + seq![f2] + seq![f3]);
    lemma_leaves_of_fields(seq![f0] + seq![f1] + seq![f2], seq![f3]);
    lemma_leaves_of_fields(seq![f0] + seq![f1], seq![f2]);
    lemma_leaves_of_fields(seq![f0], seq![f1]);
    let long = Seq::new(
        leaves.len(),
        |i: int|
            LeafV { path: leaves[i].path, data_type: TypeV::Primitive(PrimitiveType::Long) },
    );
    assert(leaf_columns(entries_of(counts), none) =~= long);
    let expected = seq![
        LeafV { path: seq!["numRecords"@], data_type: TypeV::Primitive(PrimitiveType::Long) },
    ] + leaves_below(long, "nullCount"@) + leaves_below(leaves, "minValues"@) + leaves_below(
        leaves,
        "maxValues"@,
    );
    assert(leaf_columns(all, none) == expected);
    assert(all_primitive(expected));
    assert(entry_names_differ(all)) by {
        let a3 = all.drop_last();
        let a2 = a3.drop_last();
        let a1 = a2.drop_last();
        assert(a1.drop_last() =~= seq![]);
        assert(entry_names_differ(a1.drop_last()));
        assert(names_differ(f0.data_type) && names_differ(f1.data_type) && names_differ(f2.data_type)
            && names_differ(f3.data_type));
        assert(entry_names_differ(a1));
        assert(entry_names_differ(a2));
        assert(entry_names_differ(a3));
    }
    law_leaves_kept(StatsTransform::StripMetadata, all, none);
    let stripped = changed_fields(StatsTransform::StripMetadata, all);
    lemma_changed_names(StatsTransform::StripMetadata, all);
    law_unchecked_keeps_distinct_names(stripped);
    if stripped.len() == 0 {
        assert(entries_of(stripped) =~= seq![]);
        assert(leaf_columns(entries_of(stripped), none).len() == 0);
    }
}

proof fn lemma_struct_leaf(f: FieldV, inner: Seq<FieldV>)
    requires
        f.data_type == TypeV::Struct(Box::new(unchecked_struct(inner))),
        unchecked_struct(inner).entries == entries_of(inner),
    ensures
        leaf_columns(entries_of(seq![f]), seq![]) == leaves_below(
            leaf_columns(entries_of(inner), seq![]),
            f.name,
        ),
{
    let none = Seq::<Seq<char>>::empty();
    let one = entries_of(seq![f]);
    assert(one.drop_last() =~= seq![]);
    assert(leaf_columns(one.drop_last(), none) =~= seq![]);
    assert(none.push(f.name) =~= seq![f.name] + none);
    lemma_leaves_below(entries_of(inner), none, f.name);
    assert(field_leaves(f, none) == leaf_columns(entries_of(inner), none.push(f.name)));
    assert(leaf_columns(one, none) =~= leaf_columns(entries_of(inner), none.push(f.name)));
}

/// The columns that should have statistics are those leaf columns that pass the table's filter, in
/// schema order.
pub proof fn law_stats_columns_pass(
    entries: Seq<EntryV>,
    filter: FilterV,
    path: Seq<Seq<char>>,
    count: nat,
)
    requires
        entry_names_differ(entries),
        filter.requested.len() == 0,
    ensures
        stats_columns(entries, filter, path, count).0 == leaf_paths(
            passing_leaves(leaf_columns(entries, path), filter, count).0,
        ),
{
    law_base_leaves(entries, filter, path, count);
    law_base_leaves_are_stats_columns(entries, filter, path, count);
}

} // verus!
