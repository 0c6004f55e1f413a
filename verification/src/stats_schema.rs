//! The schema of file statistics.
//!
//! For each column that has statistics, a file records the number of nulls and, for types that are
//! eligible, the smallest and the largest value. The schema of these records follows from the
//! schema of the table and its configuration.
use vstd::prelude::*;

use crate::column_name::{clone_strings, ColumnName};
use crate::error::{DeltaResult, Error};
use crate::schema::metadata::clone_metadata;
use crate::schema::primitive::PrimitiveType;
use crate::schema::struct_type::checked_struct;
use crate::schema::types::{
    ArrayType, DataType, MapType, Schema, SchemaRef, StructField, StructType,
};
use crate::text::{owned, text_eq};

#[allow(unused_imports)]
use crate::error::ErrorV;
#[allow(unused_imports)]
use crate::schema::struct_type::{field_views, struct_result, unchecked_struct};
#[allow(unused_imports)]
use crate::schema::types::{
    lemma_struct_parts, lemma_type_parts, ArrayV, EntryV, FieldV, MapV, StructV, TypeV,
};
#[allow(unused_imports)]
use crate::schema::walk::column_views;
#[allow(unused_imports)]
use crate::text::texts;

verus! {

/// How many leaf columns have statistics.
#[derive(Clone, Copy, Debug, PartialEq, Eq, Structural)]
pub enum DataSkippingNumIndexedCols {
    /// All of them
    AllColumns,
    /// The first ones, in schema order
    NumColumns(u64),
}

/// The number of leaf columns that have statistics where nothing else is said.
pub const DEFAULT_NUM_INDEXED_COLS: u64 = 32;

/// Which columns of a table have statistics.
#[derive(Clone, Copy, Debug)]
pub struct StatsConfig<'a> {
    /// The columns by name; a struct stands for all its leaf columns. Goes before the number.
    pub data_skipping_stats_columns: Option<&'a Vec<ColumnName>>,
    /// The number of leaf columns
    pub data_skipping_num_indexed_cols: Option<DataSkippingNumIndexedCols>,
}

/// The columns that pass a filter.
pub struct FilterV {
    /// The columns that are named, if any are.
    pub listed: Option<Seq<Seq<Seq<char>>>>,
    /// The number of columns where none are named; `None` for all.
    pub limit: Option<u64>,
    /// The columns that always have statistics.
    pub required: Seq<Seq<Seq<char>>>,
    /// The columns that are asked for; empty for all.
    pub requested: Seq<Seq<Seq<char>>>,
}

/// Whether a path begins with another one.
pub open spec fn begins_with(path: Seq<Seq<char>>, start: Seq<Seq<char>>) -> bool {
    start.len() <= path.len() && path.take(start.len() as int) == start
}

/// Whether one of the columns is this one, or a struct around it.
pub open spec fn covers(columns: Seq<Seq<Seq<char>>>, path: Seq<Seq<char>>) -> bool {
    exists|i: int| 0 <= i < columns.len() && begins_with(path, #[trigger] columns[i])
}

impl FilterV {
    /// Whether the table has statistics for the leaf column at this path, when `count` leaf columns
    /// before it have them.
    pub open spec fn for_table(self, path: Seq<Seq<char>>, count: nat) -> bool {
        covers(self.required, path) || match self.listed {
            Some(columns) => covers(columns, path),
            None => match self.limit {
                Some(n) => count < n,
                None => true,
            },
        }
    }

    /// Whether the column at this path is asked for.
    pub open spec fn is_requested(self, path: Seq<Seq<char>>) -> bool {
        self.requested.len() == 0 || covers(self.requested, path)
    }
}

/// The columns of an optional list.
pub open spec fn optional_columns(columns: Option<&Vec<ColumnName>>) -> Seq<Seq<Seq<char>>> {
    match columns {
        Some(list) => column_views(list@),
        None => seq![],
    }
}

/// The filter of a configuration with required and requested columns.
pub open spec fn filter_of(
    config: StatsConfig<'_>,
    required: Option<&Vec<ColumnName>>,
    requested: Option<&Vec<ColumnName>>,
) -> FilterV {
    FilterV {
        listed: match config.data_skipping_stats_columns {
            Some(columns) => Some(column_views(columns@)),
            None => None,
        },
        limit: match config.data_skipping_num_indexed_cols {
            None => Some(DEFAULT_NUM_INDEXED_COLS),
            Some(DataSkippingNumIndexedCols::NumColumns(n)) => Some(n),
            Some(DataSkippingNumIndexedCols::AllColumns) => None,
        },
        required: optional_columns(required),
        requested: optional_columns(requested),
    }
}

/// Whether columns of this type have smallest and largest values in the statistics.
pub open spec fn skipping_eligible(p: PrimitiveType) -> bool {
    !(p is Boolean) && !(p is Binary)
}

/// Checks if a data type is eligible for min/max file skipping.
///
/// Boolean and binary are left out: their smallest and largest values say next to nothing.
pub fn is_skipping_eligible_datatype(data_type: &PrimitiveType) -> (r: bool)
    ensures
        r == skipping_eligible(*data_type),
{
    match data_type {
        PrimitiveType::Byte
        | PrimitiveType::Short
        | PrimitiveType::Integer
        | PrimitiveType::Long
        | PrimitiveType::Float16
        | PrimitiveType::Float
        | PrimitiveType::Double
        | PrimitiveType::Date
        | PrimitiveType::Timestamp
        | PrimitiveType::TimestampNtz
        | PrimitiveType::String
        | PrimitiveType::Decimal(_) => true,
        PrimitiveType::Boolean | PrimitiveType::Binary => false,
    }
}

/// What the base statistics keep of a type at the end of a path, and the number of leaf columns
/// that then have statistics. Arrays, maps and variants have none.
pub open spec fn base_type(t: TypeV, filter: FilterV, path: Seq<Seq<char>>, count: nat) -> (
    Option<TypeV>,
    nat,
)
    decreases t,
{
    match t {
        TypeV::Primitive(_) => if !filter.for_table(path, count) {
            (None, count)
        } else if filter.is_requested(path) {
            (Some(t), count + 1)
        } else {
            (None, count + 1)
        },
        TypeV::Struct(s) => {
            let (fields, now) = base_fields(s.entries, filter, path, count);
            if fields.len() == 0 {
                (None, now)
            } else {
                (Some(TypeV::Struct(Box::new(unchecked_struct(fields)))), now)
            }
        },
        _ => (None, count),
    }
}

/// What the base statistics keep of the fields of a struct, all of them nullable.
pub open spec fn base_fields(
    entries: Seq<EntryV>,
    filter: FilterV,
    path: Seq<Seq<char>>,
    count: nat,
) -> (Seq<FieldV>, nat)
    decreases entries,
{
    if entries.len() == 0 {
        (seq![], count)
    } else {
        let (fields, now) = base_fields(entries.drop_last(), filter, path, count);
        let f = entries.last().field;
        match base_type(f.data_type, filter, path.push(f.name), now) {
            (Some(data_type), end) => (
                fields.push(FieldV { data_type, nullable: true, ..f }),
                end,
            ),
            (None, end) => (fields, end),
        }
    }
}

/// The columns that have statistics, in schema order, and their number added to `count`.
pub open spec fn stats_columns(
    entries: Seq<EntryV>,
    filter: FilterV,
    path: Seq<Seq<char>>,
    count: nat,
) -> (Seq<Seq<Seq<char>>>, nat)
    decreases entries,
{
    if entries.len() == 0 {
        (seq![], count)
    } else {
        let (columns, now) = stats_columns(entries.drop_last(), filter, path, count);
        let (more, end) = field_stats_columns(entries.last().field, filter, path, now);
        (columns + more, end)
    }
}

/// The columns of a field that have statistics.
pub open spec fn field_stats_columns(
    f: FieldV,
    filter: FilterV,
    path: Seq<Seq<char>>,
    count: nat,
) -> (Seq<Seq<Seq<char>>>, nat)
    decreases f,
{
    let at = path.push(f.name);
    match f.data_type {
        TypeV::Struct(s) => stats_columns(s.entries, filter, at, count),
        TypeV::Primitive(_) => if filter.for_table(at, count) {
            (seq![at], count + 1)
        } else {
            (seq![], count)
        },
        _ => (seq![], count),
    }
}

/// A change that is made to every field of a schema.
#[derive(Clone, Copy, Debug, PartialEq, Eq, Structural)]
pub enum StatsTransform {
    /// Every field becomes nullable.
    Nullable,
    /// Every field loses its metadata.
    StripMetadata,
    /// Every field that is no struct becomes a nullable long.
    NullCount,
    /// Only fields of eligible types stay.
    MinMax,
}

/// What a change makes of a type; `None` where nothing is left of it.
pub open spec fn changed_type(change: StatsTransform, t: TypeV) -> Option<TypeV>
    decreases t,
{
    match t {
        TypeV::Primitive(p) => if change is MinMax && !skipping_eligible(p) {
            None
        } else {
            Some(t)
        },
        TypeV::Array(a) => if change is MinMax {
            None
        } else {
            match changed_type(change, a.element) {
                Some(element) => Some(
                    TypeV::Array(
                        Box::new(
                            ArrayV { label: a.label, element, contains_null: a.contains_null },
                        ),
                    ),
                ),
                None => None,
            }
        },
        TypeV::MapOf(m) => if change is MinMax {
            None
        } else {
            match (changed_type(change, m.key), changed_type(change, m.value)) {
                (Some(key), Some(value)) => Some(
                    TypeV::MapOf(
                        Box::new(
                            MapV {
                                label: m.label,
                                key,
                                value,
                                value_contains_null: m.value_contains_null,
                            },
                        ),
                    ),
                ),
                _ => None,
            }
        },
        TypeV::Variant(s) => if change is MinMax {
            None
        } else {
            match changed_struct(change, *s) {
                Some(v) => Some(TypeV::Variant(Box::new(v))),
                None => None,
            }
        },
        TypeV::Struct(s) => match changed_struct(change, *s) {
            Some(v) => Some(TypeV::Struct(Box::new(v))),
            None => None,
        },
    }
}

/// What a change makes of a struct; `None` where no field is left.
pub open spec fn changed_struct(change: StatsTransform, s: StructV) -> Option<StructV>
    decreases s,
{
    let fields = changed_fields(change, s.entries);
    if fields.len() == 0 {
        None
    } else {
        Some(unchecked_struct(fields))
    }
}

/// What a change makes of the fields of a struct.
pub open spec fn changed_fields(change: StatsTransform, entries: Seq<EntryV>) -> Seq<FieldV>
    decreases entries,
{
    if entries.len() == 0 {
        seq![]
    } else {
        let fields = changed_fields(change, entries.drop_last());
        match changed_field(change, entries.last().field) {
            Some(f) => fields.push(f),
            None => fields,
        }
    }
}

/// What a change makes of a field.
pub open spec fn changed_field(change: StatsTransform, f: FieldV) -> Option<FieldV>
    decreases f,
{
    if change is NullCount && !(f.data_type is Struct) {
        Some(
            FieldV {
                data_type: TypeV::Primitive(PrimitiveType::Long),
                nullable: true,
                ..f
            },
        )
    } else {
        match changed_type(change, f.data_type) {
            Some(data_type) => Some(
                FieldV {
                    name: f.name,
                    data_type,
                    nullable: f.nullable || change is Nullable,
                    metadata: if change is StripMetadata {
                        Map::empty()
                    } else {
                        f.metadata
                    },
                },
            ),
            None => None,
        }
    }
}

/// A nullable field without metadata.
pub open spec fn stats_field(name: Seq<char>, data_type: TypeV) -> FieldV {
    FieldV::plain(name, data_type, true)
}

/// A nullable struct field without metadata, where there is a struct.
pub open spec fn optional_stats_field(name: Seq<char>, s: Option<StructV>) -> Seq<FieldV> {
    match s {
        Some(v) => seq![stats_field(name, TypeV::Struct(Box::new(v)))],
        None => seq![],
    }
}

/// The base statistics of a schema.
pub open spec fn base_struct(s: StructV, filter: FilterV) -> Option<StructV> {
    let (fields, _) = base_fields(s.entries, filter, seq![], 0);
    if fields.len() == 0 {
        None
    } else {
        Some(unchecked_struct(fields))
    }
}

/// The fields of the schema of file statistics.
pub open spec fn expected_fields(s: StructV, filter: FilterV) -> Seq<FieldV> {
    let base = base_struct(s, filter);
    let null_count = match base {
        Some(b) => changed_struct(StatsTransform::NullCount, b),
        None => None,
    };
    let min_max = match base {
        Some(b) => changed_struct(StatsTransform::MinMax, b),
        None => None,
    };
    seq![stats_field("numRecords"@, TypeV::Primitive(PrimitiveType::Long))] + optional_stats_field(
        "nullCount"@,
        null_count,
    ) + optional_stats_field("minValues"@, min_max) + optional_stats_field("maxValues"@, min_max)
        + seq![stats_field("tightBounds"@, TypeV::Primitive(PrimitiveType::Boolean))]
}

/// The schema for statistics of referenced columns, where there is one.
pub open spec fn referenced_stats(s: StructV) -> Option<StructV> {
    match changed_struct(StatsTransform::Nullable, s) {
        None => None,
        Some(values) => match changed_struct(StatsTransform::NullCount, values) {
            None => None,
            Some(null_count) => {
                let schema = unchecked_struct(
                    seq![
                        stats_field("numRecords"@, TypeV::Primitive(PrimitiveType::Long)),
                        stats_field("nullCount"@, TypeV::Struct(Box::new(null_count))),
                        stats_field("minValues"@, TypeV::Struct(Box::new(values))),
                        stats_field("maxValues"@, TypeV::Struct(Box::new(values))),
                    ],
                );
                match changed_struct(StatsTransform::StripMetadata, schema) {
                    Some(stripped) => Some(stripped),
                    None => Some(schema),
                }
            },
        },
    }
}

/// Decides which columns have statistics, on a walk through a schema.
struct StatsColumnFilter<'a> {
    listed: Option<&'a Vec<ColumnName>>,
    limit: Option<u64>,
    required: Option<&'a Vec<ColumnName>>,
    requested: Option<&'a Vec<ColumnName>>,
    added: u64,
    path: Vec<String>,
}

fn path_begins_with(path: &Vec<String>, start: &Vec<String>) -> (r: bool)
    ensures
        r == begins_with(texts(path@), texts(start@)),
{
    if start.len() > path.len() {
        return false;
    }
    let ghost p = texts(path@);
    let ghost s = texts(start@);
    let mut i: usize = 0;
    while i < start.len()
        invariant
            i <= start@.len() <= path@.len(),
            p == texts(path@),
            s == texts(start@),
            forall|j: int| 0 <= j < i ==> p[j] == #[trigger] s[j],
        decreases start@.len() - i,
    {
        if !text_eq(path[i].as_str(), start[i].as_str()) {
            assert(p.take(s.len() as int)[i as int] != s[i as int]);
            return false;
        }
        i = i + 1;
    }
    assert(p.take(s.len() as int) =~= s);
    true
}

fn any_covers(columns: &Vec<ColumnName>, path: &Vec<String>) -> (r: bool)
    ensures
        r == covers(column_views(columns@), texts(path@)),
{
    let ghost views = column_views(columns@);
    let mut i: usize = 0;
    while i < columns.len()
        invariant
            i <= columns@.len(),
            views == column_views(columns@),
            forall|j: int| 0 <= j < i ==> !begins_with(texts(path@), #[trigger] views[j]),
        decreases columns@.len() - i,
    {
        if path_begins_with(path, columns[i].path()) {
            assert(begins_with(texts(path@), views[i as int]));
            return true;
        }
        i = i + 1;
    }
    false
}

impl<'a> StatsColumnFilter<'a> {
    spec fn view(&self) -> FilterV {
        FilterV {
            listed: match self.listed {
                Some(columns) => Some(column_views(columns@)),
                None => None,
            },
            limit: self.limit,
            required: optional_columns(self.required),
            requested: optional_columns(self.requested),
        }
    }

    spec fn at(&self) -> Seq<Seq<char>> {
        texts(self.path@)
    }

    /// Whether `added` stands for the number of columns so far.
    spec fn counts(&self, count: nat) -> bool {
        self.added == if count <= u64::MAX {
            count
        } else {
            u64::MAX as nat
        }
    }

    fn new(
        config: &StatsConfig<'a>,
        required: Option<&'a Vec<ColumnName>>,
        requested: Option<&'a Vec<ColumnName>>,
    ) -> (r: Self)
        ensures
            r@ == filter_of(*config, required, requested),
            r.at() == Seq::<Seq<char>>::empty(),
            r.counts(0),
    {
        let r = StatsColumnFilter {
            listed: config.data_skipping_stats_columns,
            limit: match config.data_skipping_num_indexed_cols {
                None => Some(DEFAULT_NUM_INDEXED_COLS),
                Some(DataSkippingNumIndexedCols::NumColumns(n)) => Some(n),
                Some(DataSkippingNumIndexedCols::AllColumns) => None,
            },
            required,
            requested,
            added: 0,
            path: Vec::new(),
        };
        assert(r.at() =~= seq![]);
        r
    }

    fn enter_field(&mut self, name: &str)
        ensures
            final(self)@ == old(self)@,
            final(self).at() == old(self).at().push(name@),
            final(self).path@.len() == old(self).path@.len() + 1,
            final(self).path@.drop_last() == old(self).path@,
            final(self).added == old(self).added,
    {
        self.path.push(owned(name));
        assert(self.at() =~= old(self).at().push(name@));
        assert(self.path@.drop_last() =~= old(self).path@);
    }

    fn exit_field(&mut self)
        requires
            old(self).path@.len() > 0,
        ensures
            final(self)@ == old(self)@,
            final(self).path@ == old(self).path@.drop_last(),
            final(self).added == old(self).added,
    {
        let _ = self.path.pop();
    }

    fn should_include_for_table(&self, Ghost(count): Ghost<nat>) -> (r: bool)
        requires
            self.counts(count),
        ensures
            r == self@.for_table(self.at(), count),
    {
        if let Some(columns) = self.required {
            if any_covers(columns, &self.path) {
                return true;
            }
        }
        match self.listed {
            Some(columns) => any_covers(columns, &self.path),
            None => match self.limit {
                Some(n) => self.added < n,
                None => true,
            },
        }
    }

    fn should_include_for_requested(&self) -> (r: bool)
        ensures
            r == self@.is_requested(self.at()),
    {
        match self.requested {
            Some(columns) => columns.len() == 0 || any_covers(columns, &self.path),
            None => true,
        }
    }

    fn record_included(&mut self, Ghost(count): Ghost<nat>)
        requires
            old(self).counts(count),
        ensures
            final(self)@ == old(self)@,
            final(self).path@ == old(self).path@,
            final(self).counts(count + 1),
    {
        self.added = self.added.saturating_add(1);
    }

    /// The base statistics of a type.
    fn base(&mut self, t: &DataType, Ghost(count): Ghost<nat>) -> (r: Option<DataType>)
        requires
            old(self).counts(count),
        ensures
            final(self)@ == old(self)@,
            final(self).path@ == old(self).path@,
            ({
                let (expected, end) = base_type(t@, old(self)@, old(self).at(), count);
                &&& final(self).counts(end)
                &&& match r {
                    Some(b) => expected == Some(b@),
                    None => expected is None,
                }
            }),
        decreases t@,
    {
        proof {
            lemma_type_parts(t@);
        }
        match t {
            DataType::Primitive(p) => {
                if !self.should_include_for_table(Ghost(count)) {
                    return None;
                }
                // every leaf that passes the table's filter counts, whether it is asked for or not
                self.record_included(Ghost(count));
                if self.should_include_for_requested() {
                    Some(DataType::Primitive(*p))
                } else {
                    None
                }
            },
            DataType::Struct(s) => {
                let fields = self.base_struct_fields(s, Ghost(count));
                if fields.len() == 0 {
                    None
                } else {
                    Some(DataType::Struct(Box::new(StructType::new_unchecked(fields))))
                }
            },
            _ => None,
        }
    }

    fn base_struct_fields(&mut self, s: &StructType, Ghost(count): Ghost<nat>) -> (r: Vec<
        StructField,
    >)
        requires
            old(self).counts(count),
        ensures
            final(self)@ == old(self)@,
            final(self).path@ == old(self).path@,
            ({
                let (expected, end) = base_fields(s@.entries, old(self)@, old(self).at(), count);
                &&& final(self).counts(end)
                &&& field_views(r@) == expected
            }),
        decreases s@,
    {
        let n: usize = s.num_fields();
        let ghost entries = s@.entries;
        let ghost filter = self@;
        let ghost at = self.at();
        let ghost mut now = count;
        let mut fields: Vec<StructField> = Vec::new();
        let mut i: usize = 0;
        assert(field_views(fields@) =~= seq![]);
        while i < n
            invariant
                i <= n,
                n == entries.len(),
                entries == s@.entries,
                self@ == filter,
                filter == old(self)@,
                self.path@ == old(self).path@,
                at == self.at(),
                self.counts(now),
                base_fields(entries.take(i as int), filter, at, count) == (
                    field_views(fields@),
                    now,
                ),
            decreases n - i,
        {
            proof {
                lemma_struct_parts(s@, i as int);
                assert(entries.take(i + 1).drop_last() =~= entries.take(i as int));
                assert(entries.take(i + 1).last() == entries[i as int]);
            }
            if let Some(field) = s.field_at_index(i) {
                self.enter_field(field.name.as_str());
                let kept = self.base(&field.data_type, Ghost(now));
                self.exit_field();
                proof {
                    now = base_type(field@.data_type, filter, at.push(field@.name), now).1;
                }
                if let Some(data_type) = kept {
                    let ghost before = field_views(fields@);
                    let f = make_nullable_field(field, data_type);
                    fields.push(f);
                    assert(field_views(fields@) =~= before.push(f@));
                }
            }
            i = i + 1;
        }
        assert(entries.take(n as int) =~= entries);
        fields
    }

    /// Collects the columns that have statistics.
    fn collect_columns(
        &mut self,
        s: &StructType,
        columns: &mut Vec<ColumnName>,
        Ghost(count): Ghost<nat>,
    )
        requires
            old(self).counts(count),
        ensures
            final(self)@ == old(self)@,
            final(self).path@ == old(self).path@,
            ({
                let (expected, end) = stats_columns(s@.entries, old(self)@, old(self).at(), count);
                &&& final(self).counts(end)
                &&& column_views(final(columns)@) == column_views(old(columns)@) + expected
            }),
        decreases s@,
    {
        let n: usize = s.num_fields();
        let ghost entries = s@.entries;
        let ghost filter = self@;
        let ghost at = self.at();
        let ghost start = column_views(columns@);
        let ghost mut now = count;
        let mut i: usize = 0;
        assert(start + stats_columns(entries.take(0), filter, at, count).0 =~= start);
        while i < n
            invariant
                i <= n,
                n == entries.len(),
                entries == s@.entries,
                self@ == filter,
                filter == old(self)@,
                self.path@ == old(self).path@,
                at == self.at(),
                self.counts(now),
                stats_columns(entries.take(i as int), filter, at, count).1 == now,
                column_views(columns@) == start + stats_columns(
                    entries.take(i as int),
                    filter,
                    at,
                    count,
                ).0,
            decreases n - i,
        {
            let ghost next = entries.take(i + 1);
            let ghost before = column_views(columns@);
            proof {
                lemma_struct_parts(s@, i as int);
                assert(next.drop_last() =~= entries.take(i as int));
                assert(next.last() == entries[i as int]);
            }
            if let Some(field) = s.field_at_index(i) {
                let ghost more = field_stats_columns(field@, filter, at, now);
                proof {
                    assert(decreases_to!(field@ => field@.data_type));
                    lemma_type_parts(field@.data_type);
                }
                self.enter_field(field.name.as_str());
                match &field.data_type {
                    DataType::Struct(inner) => {
                        self.collect_columns(inner, columns, Ghost(now));
                    },
                    DataType::Primitive(_) => {
                        if self.should_include_for_table(Ghost(now)) {
                            let column = ColumnName::new(clone_strings(&self.path));
                            columns.push(column);
                            assert(column_views(columns@) =~= before.push(column@));
                            self.record_included(Ghost(now));
                        }
                    },
                    _ => {},
                }
                self.exit_field();
                proof {
                    assert(column_views(columns@) =~= before + more.0);
                    now = more.1;
                }
            }
            assert(column_views(columns@) =~= start + stats_columns(next, filter, at, count).0);
            i = i + 1;
        }
        assert(entries.take(n as int) =~= entries);
    }
}

fn make_nullable_field(field: &StructField, data_type: DataType) -> (r: StructField)
    ensures
        r@ == (FieldV { data_type: data_type@, nullable: true, ..field@ }),
{
    StructField {
        name: field.name.clone(),
        data_type,
        nullable: true,
        metadata: clone_metadata(&field.metadata),
    }
}

fn change_type(change: StatsTransform, t: &DataType) -> (r: Option<DataType>)
    ensures
        match r {
            Some(c) => changed_type(change, t@) == Some(c@),
            None => changed_type(change, t@) is None,
        },
    decreases t@,
{
    proof {
        lemma_type_parts(t@);
    }
    let min_max = match change {
        StatsTransform::MinMax => true,
        _ => false,
    };
    match t {
        DataType::Primitive(p) => if min_max && !is_skipping_eligible_datatype(p) {
            None
        } else {
            Some(DataType::Primitive(*p))
        },
        DataType::Array(a) => {
            if min_max {
                return None;
            }
            match change_type(change, &a.element_type) {
                Some(element_type) => Some(
                    DataType::Array(
                        Box::new(
                            ArrayType {
                                type_label: a.type_label.clone(),
                                element_type,
                                contains_null: a.contains_null,
                            },
                        ),
                    ),
                ),
                None => None,
            }
        },
        DataType::MapOf(m) => {
            if min_max {
                return None;
            }
            match (change_type(change, &m.key_type), change_type(change, &m.value_type)) {
                (Some(key_type), Some(value_type)) => Some(
                    DataType::MapOf(
                        Box::new(
                            MapType {
                                type_label: m.type_label.clone(),
                                key_type,
                                value_type,
                                value_contains_null: m.value_contains_null,
                            },
                        ),
                    ),
                ),
                _ => None,
            }
        },
        DataType::Variant(s) => {
            if min_max {
                return None;
            }
            match change_struct(change, s) {
                Some(c) => Some(DataType::Variant(Box::new(c))),
                None => None,
            }
        },
        DataType::Struct(s) => match change_struct(change, s) {
            Some(c) => Some(DataType::Struct(Box::new(c))),
            None => None,
        },
    }
}

fn change_struct(change: StatsTransform, s: &StructType) -> (r: Option<StructType>)
    ensures
        match r {
            Some(c) => changed_struct(change, s@) == Some(c@),
            None => changed_struct(change, s@) is None,
        },
    decreases s@,
{
    let n: usize = s.num_fields();
    let ghost entries = s@.entries;
    let mut fields: Vec<StructField> = Vec::new();
    let mut i: usize = 0;
    assert(field_views(fields@) =~= seq![]);
    while i < n
        invariant
            i <= n,
            n == entries.len(),
            entries == s@.entries,
            field_views(fields@) == changed_fields(change, entries.take(i as int)),
        decreases n - i,
    {
        proof {
            lemma_struct_parts(s@, i as int);
            assert(entries.take(i + 1).drop_last() =~= entries.take(i as int));
            assert(entries.take(i + 1).last() == entries[i as int]);
        }
        if let Some(field) = s.field_at_index(i) {
            if let Some(f) = change_field(change, field) {
                let ghost before = field_views(fields@);
                fields.push(f);
                assert(field_views(fields@) =~= before.push(f@));
            }
        }
        i = i + 1;
    }
    assert(entries.take(n as int) =~= entries);
    if fields.len() == 0 {
        None
    } else {
        Some(StructType::new_unchecked(fields))
    }
}

fn change_field(change: StatsTransform, f: &StructField) -> (r: Option<StructField>)
    ensures
        match r {
            Some(c) => changed_field(change, f@) == Some(c@),
            None => changed_field(change, f@) is None,
        },
    decreases f@,
{
    assert(decreases_to!(f@ => f@.data_type));
    let is_struct = match &f.data_type {
        DataType::Struct(_) => true,
        _ => false,
    };
    match change {
        StatsTransform::NullCount => {
            if !is_struct {
                return Some(make_nullable_field(f, DataType::long()));
            }
            match change_type(change, &f.data_type) {
                Some(data_type) => Some(
                    StructField {
                        name: f.name.clone(),
                        data_type,
                        nullable: f.nullable,
                        metadata: clone_metadata(&f.metadata),
                    },
                ),
                None => None,
            }
        },
        StatsTransform::Nullable => match change_type(change, &f.data_type) {
            Some(data_type) => Some(make_nullable_field(f, data_type)),
            None => None,
        },
        StatsTransform::StripMetadata => match change_type(change, &f.data_type) {
            Some(data_type) => Some(StructField::new(f.name.as_str(), data_type, f.nullable)),
            None => None,
        },
        StatsTransform::MinMax => match change_type(change, &f.data_type) {
            Some(data_type) => Some(
                StructField {
                    name: f.name.clone(),
                    data_type,
                    nullable: f.nullable,
                    metadata: clone_metadata(&f.metadata),
                },
            ),
            None => None,
        },
    }
}

impl StatsTransform {
    /// Makes the change to a schema; `None` where no field is left.
    pub fn transform_struct(self, schema: &Schema) -> (r: Option<Schema>)
        ensures
            match r {
                Some(c) => changed_struct(self, schema@) == Some(c@),
                None => changed_struct(self, schema@) is None,
            },
    {
        change_struct(self, schema)
    }
}

/// Generates the expected schema for file statistics:
///
/// ```text
/// {
///    numRecords: long,
///    nullCount: <the columns, as longs>,
///    minValues: <the columns of eligible types>,
///    maxValues: <the columns of eligible types>,
///    tightBounds: boolean,
/// }
/// ```
///
/// The columns are those that the configuration selects, and the required ones, as far as they are
/// requested; all are nullable. A part without columns is left out.
pub fn expected_stats_schema(
    data_schema: &Schema,
    config: &StatsConfig<'_>,
    required_columns: Option<&Vec<ColumnName>>,
    requested_columns: Option<&Vec<ColumnName>>,
) -> (r: DeltaResult<Schema>)
    ensures
        struct_result(
            r,
            checked_struct(
                expected_fields(
                    data_schema@,
                    filter_of(*config, required_columns, requested_columns),
                ),
            ),
        ),
{
    let ghost filter_view = filter_of(*config, required_columns, requested_columns);
    let mut fields: Vec<StructField> = Vec::new();
    fields.push(StructField::nullable("numRecords", DataType::long()));
    let mut filter = StatsColumnFilter::new(config, required_columns, requested_columns);
    let base_fields_kept = filter.base_struct_fields(data_schema, Ghost(0));
    if base_fields_kept.len() > 0 {
        let base_schema = StructType::new_unchecked(base_fields_kept);
        if let Some(null_count_schema) = change_struct(StatsTransform::NullCount, &base_schema) {
            fields.push(
                StructField::nullable("nullCount", DataType::Struct(Box::new(null_count_schema))),
            );
        }
        if let Some(min_max_schema) = change_struct(StatsTransform::MinMax, &base_schema) {
            let copy = min_max_schema.clone();
            fields.push(StructField::nullable("minValues", DataType::Struct(Box::new(copy))));
            fields.push(
                StructField::nullable("maxValues", DataType::Struct(Box::new(min_max_schema))),
            );
        }
    }
    fields.push(StructField::nullable("tightBounds", DataType::boolean()));
    assert(field_views(fields@) =~= expected_fields(data_schema@, filter_view));
    StructType::try_new(fields)
}

/// The names of the columns that should have statistics.
pub fn stats_column_names(
    data_schema: &Schema,
    config: &StatsConfig<'_>,
    required_columns: Option<&Vec<ColumnName>>,
) -> (r: Vec<ColumnName>)
    ensures
        column_views(r@) == stats_columns(
            data_schema@.entries,
            filter_of(*config, required_columns, None),
            seq![],
            0,
        ).0,
{
    let mut filter = StatsColumnFilter::new(config, required_columns, None);
    let mut columns: Vec<ColumnName> = Vec::new();
    filter.collect_columns(data_schema, &mut columns, Ghost(0));
    assert(column_views(columns@) =~= stats_columns(
        data_schema@.entries,
        filter_of(*config, required_columns, None),
        seq![],
        0,
    ).0);
    columns
}

/// Creates the schema for statistics of referenced columns:
/// `{ numRecords, nullCount, minValues, maxValues }`. `None` if no column is referenced.
pub fn build_stats_schema(referenced_schema: &StructType) -> (r: Option<SchemaRef>)
    ensures
        match r {
            Some(s) => referenced_stats(referenced_schema@) == Some(s@),
            None => referenced_stats(referenced_schema@) is None,
        },
{
    let stats_schema = match schema_with_all_fields_nullable(referenced_schema) {
        Ok(s) => s,
        Err(_) => {
            return None;
        },
    };
    let nullcount_schema = match change_struct(StatsTransform::NullCount, &stats_schema) {
        Some(s) => s,
        None => {
            return None;
        },
    };
    let copy = stats_schema.clone();
    let mut fields: Vec<StructField> = Vec::new();
    fields.push(StructField::nullable("numRecords", DataType::long()));
    fields.push(StructField::nullable("nullCount", DataType::Struct(Box::new(nullcount_schema))));
    fields.push(StructField::nullable("minValues", DataType::Struct(Box::new(copy))));
    fields.push(StructField::nullable("maxValues", DataType::Struct(Box::new(stats_schema))));
    proof {
        let values = changed_struct(StatsTransform::Nullable, referenced_schema@)->0;
        let null_count = changed_struct(StatsTransform::NullCount, values)->0;
        assert(field_views(fields@) =~= seq![
            stats_field("numRecords"@, TypeV::Primitive(PrimitiveType::Long)),
            stats_field("nullCount"@, TypeV::Struct(Box::new(null_count))),
            stats_field("minValues"@, TypeV::Struct(Box::new(values))),
            stats_field("maxValues"@, TypeV::Struct(Box::new(values))),
        ]);
    }
    let schema = StructType::new_unchecked(fields);
    // the metadata describes the columns of the table, not the statistics
    let schema = match change_struct(StatsTransform::StripMetadata, &schema) {
        Some(stripped) => stripped,
        None => schema,
    };
    Some(std::sync::Arc::new(schema))
}

/// Makes all fields of a schema nullable. Fails for a schema in which no field is left.
pub fn schema_with_all_fields_nullable(schema: &Schema) -> (r: DeltaResult<Schema>)
    ensures
        match r {
            Ok(s) => changed_struct(StatsTransform::Nullable, schema@) == Some(s@),
            Err(e) => changed_struct(StatsTransform::Nullable, schema@) is None && e@
                == ErrorV::InternalError("NullableStatsTransform failed"@),
        },
{
    match change_struct(StatsTransform::Nullable, schema) {
        Some(s) => Ok(s),
        None => Err(Error::internal_error("NullableStatsTransform failed")),
    }
}

} // verus!
