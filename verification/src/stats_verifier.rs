//! Validates that add file statistics contain required columns.
//!
//! Writers must write per-file statistics (nullCount, minValues, maxValues) for certain required
//! columns, such as the clustering columns of a table. This module checks that those statistics
//! are there.
use vstd::prelude::*;

use crate::column_name::ColumnName;
use crate::engine_data::{unexpected_type, Batch, ColumnValues};
use crate::error::{DeltaResult, Error};
use crate::schema::primitive::{DecimalType, PrimitiveType};
use crate::schema::types::DataType;
use crate::schema::walk::ColumnNamesAndTypes;
use crate::text::{cat2, cat5, join, owned};

#[allow(unused_imports)]
use crate::column_name::column_text;
#[allow(unused_imports)]
use crate::engine_data::{selected, unexpected_type_error};
#[allow(unused_imports)]
use crate::error::ErrorV;
#[allow(unused_imports)]
use crate::schema::display::type_text;
#[allow(unused_imports)]
use crate::schema::types::TypeV;
#[allow(unused_imports)]
use crate::schema::walk::{column_views, type_views};
#[allow(unused_imports)]
use crate::text::{joined, texts};

verus! {

/// The path of a statistic of a column: `stats.{category}.{column}`.
pub open spec fn stat_path(column: Seq<Seq<char>>, category: Seq<char>) -> Seq<Seq<char>> {
    seq!["stats"@, category] + column
}

/// The error for a type that has no statistics.
pub open spec fn unsupported_type_error(t: TypeV) -> ErrorV {
    ErrorV::InternalError("Unsupported data type for stats validation: "@ + type_text(t))
}

/// The type as which the smallest and largest values of a column are read.
pub open spec fn value_type(p: PrimitiveType) -> PrimitiveType {
    match p {
        PrimitiveType::Decimal(_) => PrimitiveType::Decimal(DecimalType::of(38, 0)),
        _ => p,
    }
}

/// The files of a batch for which a statistic is missing, by their paths.
pub struct MissingV {
    pub null_count: Seq<Seq<char>>,
    pub min: Seq<Seq<char>>,
    pub max: Seq<Seq<char>>,
}

/// The columns that are read of a batch.
pub struct StatColumnsV {
    pub path: ColumnValues,
    pub num_records: ColumnValues,
    pub null_count: ColumnValues,
    pub min: ColumnValues,
    pub max: ColumnValues,
}

/// The columns of a batch that tell about a required column, or the first error.
pub open spec fn stat_columns(b: Batch, column: Seq<Seq<char>>, p: PrimitiveType) -> Result<
    StatColumnsV,
    ErrorV,
> {
    let text = TypeV::Primitive(PrimitiveType::String);
    let long = TypeV::Primitive(PrimitiveType::Long);
    let value = TypeV::Primitive(value_type(p));
    match selected(b, seq!["path"@], text) {
        Err(e) => Err(e),
        Ok(path) => match selected(b, seq!["stats"@, "numRecords"@], long) {
            Err(e) => Err(e),
            Ok(num_records) => match selected(b, stat_path(column, "nullCount"@), long) {
                Err(e) => Err(e),
                Ok(null_count) => match selected(b, stat_path(column, "minValues"@), value) {
                    Err(e) => Err(e),
                    Ok(min) => match selected(b, stat_path(column, "maxValues"@), value) {
                        Err(e) => Err(e),
                        Ok(max) => Ok(StatColumnsV { path, num_records, null_count, min, max }),
                    },
                },
            },
        },
    }
}

impl StatColumnsV {
    /// Whether all rows of the file in this row are null in the column: then there are no smallest
    /// and largest values.
    pub open spec fn all_null(self, row: int) -> bool {
        match (self.num_records, self.null_count) {
            (ColumnValues::Long(records), ColumnValues::Long(nulls)) => records@[row] is Some
                && records@[row] == nulls@[row],
            _ => false,
        }
    }

    /// The path of the file in this row.
    pub open spec fn file(self, row: int) -> Option<Seq<char>> {
        match self.path {
            ColumnValues::Text(values) => match values@[row] {
                Some(s) => Some(s@),
                None => None,
            },
            _ => None,
        }
    }
}

/// A list with a path added where a condition holds.
pub open spec fn with_path(list: Seq<Seq<char>>, condition: bool, path: Seq<char>) -> Seq<Seq<char>> {
    if condition {
        list.push(path)
    } else {
        list
    }
}

/// The missing statistics in the first rows of a batch, added to those before; an error where a row
/// has no path.
pub open spec fn missing_rows(c: StatColumnsV, rows: int, before: MissingV) -> Result<
    MissingV,
    ErrorV,
>
    decreases rows,
{
    if rows <= 0 {
        Ok(before)
    } else {
        match missing_rows(c, rows - 1, before) {
            Err(e) => Err(e),
            Ok(m) => {
                let row = rows - 1;
                match c.file(row) {
                    None => Err(ErrorV::MissingData("Data missing for field path"@)),
                    Some(path) => Ok(
                        MissingV {
                            null_count: with_path(m.null_count, !c.null_count.present(row), path),
                            min: with_path(
                                m.min,
                                !(c.all_null(row) || c.min.present(row)),
                                path,
                            ),
                            max: with_path(
                                m.max,
                                !(c.all_null(row) || c.max.present(row)),
                                path,
                            ),
                        },
                    ),
                }
            },
        }
    }
}

/// The missing statistics of a column in the first batches.
pub open spec fn missing_in(
    batches: Seq<Batch>,
    n: int,
    column: Seq<Seq<char>>,
    p: PrimitiveType,
) -> Result<MissingV, ErrorV>
    decreases n,
{
    if n <= 0 {
        Ok(MissingV { null_count: seq![], min: seq![], max: seq![] })
    } else {
        match missing_in(batches, n - 1, column, p) {
            Err(e) => Err(e),
            Ok(m) => match stat_columns(batches[n - 1], column, p) {
                Err(e) => Err(e),
                Ok(c) => missing_rows(c, batches[n - 1].row_count() as int, m),
            },
        }
    }
}

/// The error for statistics of one category that are missing.
pub open spec fn missing_error(
    column: Seq<Seq<char>>,
    category: Seq<char>,
    files: Seq<Seq<char>>,
) -> ErrorV {
    ErrorV::StatsValidation(
        "Required column '"@ + column_text(column) + "' is missing '"@ + category
            + "' statistics for files: ["@ + joined(files, ", "@) + "]"@,
    )
}

/// What is wrong with the statistics of one column; `None` where nothing is.
pub open spec fn column_error(batches: Seq<Batch>, column: Seq<Seq<char>>, t: TypeV) -> Option<
    ErrorV,
> {
    match t {
        TypeV::Primitive(p) => match missing_in(batches, batches.len() as int, column, p) {
            Err(e) => Some(e),
            Ok(m) => if m.null_count.len() > 0 {
                Some(missing_error(column, "nullCount"@, m.null_count))
            } else if m.min.len() > 0 {
                Some(missing_error(column, "minValues"@, m.min))
            } else if m.max.len() > 0 {
                Some(missing_error(column, "maxValues"@, m.max))
            } else {
                None
            },
        },
        _ => Some(unsupported_type_error(t)),
    }
}

/// What is wrong with the statistics of the first required columns; `None` where nothing is.
pub open spec fn first_column_error(
    batches: Seq<Batch>,
    required: Seq<(Seq<Seq<char>>, TypeV)>,
    n: int,
) -> Option<ErrorV>
    decreases n,
{
    if n <= 0 {
        None
    } else {
        match first_column_error(batches, required, n - 1) {
            Some(e) => Some(e),
            None => column_error(batches, required[n - 1].0, required[n - 1].1),
        }
    }
}

/// Required columns as models.
pub open spec fn required_views(required: Seq<(ColumnName, DataType)>) -> Seq<
    (Seq<Seq<char>>, TypeV),
> {
    Seq::new(required.len(), |i: int| (required[i].0@, required[i].1@))
}

/// Whether the statistics in a row are as they must be: the number of nulls is there, and the
/// smallest and largest values are there or all values are null.
pub open spec fn row_accepted(c: StatColumnsV, row: int) -> bool {
    c.null_count.present(row) && (c.all_null(row) || (c.min.present(row) && c.max.present(row)))
}

/// Whether the statistics of a column are as they must be in every row of a batch: the batch has the
/// columns that tell about it, and each row has the path of its file.
pub open spec fn batch_accepted(b: Batch, column: Seq<Seq<char>>, p: PrimitiveType) -> bool {
    stat_columns(b, column, p) matches Ok(c) && rows_accepted(c, b.row_count() as int)
}

/// Whether the first rows have the paths of their files, and statistics as they must be.
pub open spec fn rows_accepted(c: StatColumnsV, rows: int) -> bool {
    forall|i: int| 0 <= i < rows ==> #[trigger] filed_and_accepted(c, i)
}

/// Whether a row has the path of its file, and statistics as they must be.
pub open spec fn filed_and_accepted(c: StatColumnsV, row: int) -> bool {
    c.file(row) is Some && row_accepted(c, row)
}

/// Whether the statistics of a column are as they must be in every row of every batch.
pub open spec fn column_accepted(batches: Seq<Batch>, column: Seq<Seq<char>>, t: TypeV) -> bool {
    t matches TypeV::Primitive(p) && forall|b: int|
        0 <= b < batches.len() ==> #[trigger] batch_accepted(batches[b], column, p)
}

/// Whether no statistic is missing.
pub open spec fn nothing_missing(m: MissingV) -> bool {
    m.null_count.len() == 0 && m.min.len() == 0 && m.max.len() == 0
}

proof fn lemma_accepted_rows(c: StatColumnsV, rows: int, before: MissingV)
    requires
        0 <= rows,
    ensures
        (missing_rows(c, rows, before) matches Ok(m) && nothing_missing(m)) <==> (nothing_missing(
            before,
        ) && rows_accepted(c, rows)),
    decreases rows,
{
    if rows > 0 {
        lemma_accepted_rows(c, rows - 1, before);
        if missing_rows(c, rows, before) matches Ok(m) && nothing_missing(m) {
            assert(filed_and_accepted(c, rows - 1));
        }
        if rows_accepted(c, rows) {
            assert(filed_and_accepted(c, rows - 1));
            assert(rows_accepted(c, rows - 1));
        }
    }
}

proof fn lemma_accepted_batches(batches: Seq<Batch>, n: int, column: Seq<Seq<char>>, p: PrimitiveType)
    requires
        0 <= n <= batches.len(),
    ensures
        (missing_in(batches, n, column, p) matches Ok(m) && nothing_missing(m)) <==> forall|b: int|
            0 <= b < n ==> #[trigger] batch_accepted(batches[b], column, p),
    decreases n,
{
    if n > 0 {
        lemma_accepted_batches(batches, n - 1, column, p);
        let last = batches[n - 1];
        if missing_in(batches, n - 1, column, p) is Ok && stat_columns(last, column, p) is Ok {
            lemma_accepted_rows(
                stat_columns(last, column, p)->Ok_0,
                last.row_count() as int,
                missing_in(batches, n - 1, column, p)->Ok_0,
            );
        }
        if missing_in(batches, n, column, p) matches Ok(m) && nothing_missing(m) {
            assert(batch_accepted(last, column, p));
        }
        if forall|b: int| 0 <= b < n ==> #[trigger] batch_accepted(batches[b], column, p) {
            assert(batch_accepted(last, column, p));
        }
    }
}

proof fn lemma_accepted_column(batches: Seq<Batch>, column: Seq<Seq<char>>, t: TypeV)
    ensures
        column_error(batches, column, t) is None <==> column_accepted(batches, column, t),
{
    if let TypeV::Primitive(p) = t {
        lemma_accepted_batches(batches, batches.len() as int, column, p);
    }
}

/// Files are accepted exactly where each required column has a type with statistics, and its
/// statistics are as they must be in every row of every batch.
pub proof fn law_accepted_files(
    batches: Seq<Batch>,
    required: Seq<(Seq<Seq<char>>, TypeV)>,
    n: int,
)
    requires
        0 <= n <= required.len(),
    ensures
        first_column_error(batches, required, n) is None <==> forall|i: int|
            0 <= i < n ==> column_accepted(batches, (#[trigger] required[i]).0, required[i].1),
    decreases n,
{
    if n > 0 {
        law_accepted_files(batches, required, n - 1);
        lemma_accepted_column(batches, required[n - 1].0, required[n - 1].1);
    }
}

/// Build a stat column path: `stats.{category}.{column_path}`.
pub fn build_stat_path(column: &ColumnName, category: &str) -> (r: ColumnName)
    ensures
        r@ == stat_path(column@, category@),
{
    let parts = column.path();
    let mut path: Vec<String> = Vec::new();
    path.push(owned("stats"));
    path.push(owned(category));
    let mut i: usize = 0;
    assert(texts(path@) =~= seq!["stats"@, category@] + texts(parts@).take(0));
    while i < parts.len()
        invariant
            i <= parts@.len(),
            texts(parts@) == column@,
            texts(path@) == seq!["stats"@, category@] + texts(parts@).take(i as int),
        decreases parts@.len() - i,
    {
        let ghost before = texts(path@);
        path.push(parts[i].clone());
        proof {
            assert(texts(path@) =~= before.push(parts@[i as int]@));
            assert(texts(parts@).take(i + 1) =~= texts(parts@).take(i as int).push(
                parts@[i as int]@,
            ));
            assert(texts(path@) =~= seq!["stats"@, category@] + texts(parts@).take(i + 1));
        }
        i = i + 1;
    }
    assert(texts(parts@).take(i as int) =~= texts(parts@));
    ColumnName::new(path)
}

/// The types of the columns that are read for a column of the given type: the path, the number of
/// records, the number of nulls, and the smallest and largest values. Their names here only stand
/// for them.
pub fn column_types_for(dt: &DataType) -> (r: DeltaResult<ColumnNamesAndTypes>)
    ensures
        match r {
            Ok(c) => {
                &&& dt@ is Primitive
                &&& c@ == (
                    seq![seq!["path"@], seq!["nr"@], seq!["nc"@], seq!["min"@], seq!["max"@]],
                    seq![
                        TypeV::Primitive(PrimitiveType::String),
                        TypeV::Primitive(PrimitiveType::Long),
                        TypeV::Primitive(PrimitiveType::Long),
                        TypeV::Primitive(value_type(dt@->Primitive_0)),
                        TypeV::Primitive(value_type(dt@->Primitive_0)),
                    ],
                )
            },
            Err(e) => !(dt@ is Primitive) && e@ == unsupported_type_error(dt@),
        },
{
    let p = match dt {
        DataType::Primitive(p) => p,
        _ => {
            return Err(
                Error::InternalError(
                    cat2(
                        "Unsupported data type for stats validation: ",
                        dt.text().as_str(),
                    ),
                ),
            );
        },
    };
    let value = match p {
        PrimitiveType::Decimal(_) => match DecimalType::try_new(38, 0) {
            Ok(d) => PrimitiveType::Decimal(d),
            Err(e) => {
                return Err(e);
            },
        },
        _ => *p,
    };
    let mut names: Vec<ColumnName> = Vec::new();
    names.push(ColumnName::simple("path"));
    names.push(ColumnName::simple("nr"));
    names.push(ColumnName::simple("nc"));
    names.push(ColumnName::simple("min"));
    names.push(ColumnName::simple("max"));
    let mut types: Vec<DataType> = Vec::new();
    types.push(DataType::string());
    types.push(DataType::long());
    types.push(DataType::long());
    types.push(DataType::Primitive(value));
    types.push(DataType::Primitive(value));
    proof {
        assert(column_views(names@) =~= seq![
            seq!["path"@],
            seq!["nr"@],
            seq!["nc"@],
            seq!["min"@],
            seq!["max"@],
        ]);
        assert(type_views(types@) =~= seq![
            TypeV::Primitive(PrimitiveType::String),
            TypeV::Primitive(PrimitiveType::Long),
            TypeV::Primitive(PrimitiveType::Long),
            TypeV::Primitive(value_type(dt@->Primitive_0)),
            TypeV::Primitive(value_type(dt@->Primitive_0)),
        ]);
    }
    Ok(ColumnNamesAndTypes::new(names, types))
}

/// The name of the getter for a type.
pub open spec fn getter_text(p: PrimitiveType) -> Seq<char> {
    match p {
        PrimitiveType::Boolean => "bool"@,
        PrimitiveType::Byte => "byte"@,
        PrimitiveType::Short => "short"@,
        PrimitiveType::Integer => "int"@,
        PrimitiveType::Long => "long"@,
        PrimitiveType::Float => "float"@,
        PrimitiveType::Float16 => "float16"@,
        PrimitiveType::Double => "double"@,
        PrimitiveType::Date => "date"@,
        PrimitiveType::Timestamp => "timestamp"@,
        PrimitiveType::TimestampNtz => "timestamp"@,
        PrimitiveType::String => "str"@,
        PrimitiveType::Binary => "binary"@,
        PrimitiveType::Decimal(_) => "decimal"@,
    }
}

/// Whether a statistic is present (non-null) in a row of values of the given type, or the error.
pub open spec fn stat_presence(getter: ColumnValues, row: int, t: TypeV) -> Result<bool, ErrorV> {
    match t {
        TypeV::Primitive(p) => if getter.is_of(p) {
            Ok(getter.present(row))
        } else {
            Err(unexpected_type_error("stat"@, getter_text(p)))
        },
        _ => Err(
            ErrorV::InternalError(
                "Unsupported data type for stats presence check: "@ + type_text(t),
            ),
        ),
    }
}

/// Check if a stat value is present (non-null), reading the column as values of the given type.
pub fn is_stat_present(getter: &ColumnValues, row_idx: usize, data_type: &DataType) -> (r:
    DeltaResult<bool>)
    requires
        row_idx < getter.count(),
    ensures
        match r {
            Ok(b) => stat_presence(*getter, row_idx as int, data_type@) == Ok::<bool, ErrorV>(b),
            Err(e) => stat_presence(*getter, row_idx as int, data_type@) == Err::<bool, ErrorV>(e@),
        },
{
    let field_name = "stat";
    let p = match data_type {
        DataType::Primitive(p) => p,
        _ => {
            return Err(
                Error::InternalError(
                    cat2(
                        "Unsupported data type for stats presence check: ",
                        data_type.text().as_str(),
                    ),
                ),
            );
        },
    };
    match (p, getter) {
        (PrimitiveType::Boolean, ColumnValues::Boolean(v)) => Ok(v[row_idx].is_some()),
        (PrimitiveType::Boolean, _) => Err(unexpected_type(field_name, "bool")),
        (PrimitiveType::Byte, ColumnValues::Byte(v)) => Ok(v[row_idx].is_some()),
        (PrimitiveType::Byte, _) => Err(unexpected_type(field_name, "byte")),
        (PrimitiveType::Short, ColumnValues::Short(v)) => Ok(v[row_idx].is_some()),
        (PrimitiveType::Short, _) => Err(unexpected_type(field_name, "short")),
        (PrimitiveType::Integer, ColumnValues::Integer(v)) => Ok(v[row_idx].is_some()),
        (PrimitiveType::Integer, _) => Err(unexpected_type(field_name, "int")),
        (PrimitiveType::Long, ColumnValues::Long(v)) => Ok(v[row_idx].is_some()),
        (PrimitiveType::Long, _) => Err(unexpected_type(field_name, "long")),
        (PrimitiveType::Float, ColumnValues::Float(v)) => Ok(v[row_idx].is_some()),
        (PrimitiveType::Float, _) => Err(unexpected_type(field_name, "float")),
        (PrimitiveType::Float16, ColumnValues::Float16(v)) => Ok(v[row_idx].is_some()),
        (PrimitiveType::Float16, _) => Err(unexpected_type(field_name, "float16")),
        (PrimitiveType::Double, ColumnValues::Double(v)) => Ok(v[row_idx].is_some()),
        (PrimitiveType::Double, _) => Err(unexpected_type(field_name, "double")),
        (PrimitiveType::Date, ColumnValues::Date(v)) => Ok(v[row_idx].is_some()),
        (PrimitiveType::Date, _) => Err(unexpected_type(field_name, "date")),
        (
            PrimitiveType::Timestamp | PrimitiveType::TimestampNtz,
            ColumnValues::Timestamp(v),
        ) => Ok(v[row_idx].is_some()),
        (PrimitiveType::Timestamp | PrimitiveType::TimestampNtz, _) => Err(
            unexpected_type(field_name, "timestamp"),
        ),
        (PrimitiveType::String, ColumnValues::Text(v)) => Ok(v[row_idx].is_some()),
        (PrimitiveType::String, _) => Err(unexpected_type(field_name, "str")),
        (PrimitiveType::Binary, ColumnValues::Binary(v)) => Ok(v[row_idx].is_some()),
        (PrimitiveType::Binary, _) => Err(unexpected_type(field_name, "binary")),
        (PrimitiveType::Decimal(_), ColumnValues::Decimal(v)) => Ok(v[row_idx].is_some()),
        (PrimitiveType::Decimal(_), _) => Err(unexpected_type(field_name, "decimal")),
    }
}

/// Checks nullCount, minValues, and maxValues for a single column in one pass.
struct ColumnStatsVisitor<'a> {
    data_type: &'a DataType,
    missing_null_count: Vec<String>,
    missing_min: Vec<String>,
    missing_max: Vec<String>,
}

impl<'a> ColumnStatsVisitor<'a> {
    spec fn missing(self) -> MissingV {
        MissingV {
            null_count: texts(self.missing_null_count@),
            min: texts(self.missing_min@),
            max: texts(self.missing_max@),
        }
    }

    /// Visits the rows of a batch, given the five columns that are read.
    fn visit(&mut self, row_count: usize, getters: &Vec<&ColumnValues>) -> (r: DeltaResult<()>)
        requires
            old(self).data_type@ is Primitive,
            getters@.len() == 5 ==> {
                &&& getters@[0] is Text
                &&& getters@[1] is Long
                &&& getters@[2] is Long
                &&& getters@[3].is_of(old(self).data_type@->Primitive_0)
                &&& getters@[4].is_of(old(self).data_type@->Primitive_0)
                &&& forall|i: int|
                    0 <= i < 5 ==> (#[trigger] getters@[i]).count() == row_count
            },
        ensures
            final(self).data_type == old(self).data_type,
            getters@.len() != 5 ==> (r matches Err(e) && e@ == ErrorV::InternalError(
                "Expected 5 getters for column stats validation, got "@ + crate::text::nat_text(
                    getters@.len(),
                ),
            )),
            getters@.len() == 5 ==> ({
                let c = StatColumnsV {
                    path: *getters@[0],
                    num_records: *getters@[1],
                    null_count: *getters@[2],
                    min: *getters@[3],
                    max: *getters@[4],
                };
                match r {
                    Ok(_) => missing_rows(c, row_count as int, old(self).missing()) == Ok::<
                        MissingV,
                        ErrorV,
                    >(final(self).missing()),
                    Err(e) => missing_rows(c, row_count as int, old(self).missing()) == Err::<
                        MissingV,
                        ErrorV,
                    >(e@),
                }
            }),
    {
        if getters.len() != 5 {
            return Err(
                Error::InternalError(
                    cat2(
                        "Expected 5 getters for column stats validation, got ",
                        crate::text::usize_text(getters.len()).as_str(),
                    ),
                ),
            );
        }
        let ghost c = StatColumnsV {
            path: *getters@[0],
            num_records: *getters@[1],
            null_count: *getters@[2],
            min: *getters@[3],
            max: *getters@[4],
        };
        let mut row_idx: usize = 0;
        while row_idx < row_count
            invariant
                row_idx <= row_count,
                getters@.len() == 5,
                self.data_type == old(self).data_type,
                self.data_type@ is Primitive,
                getters@[0] is Text,
                getters@[1] is Long,
                getters@[2] is Long,
                getters@[3].is_of(self.data_type@->Primitive_0),
                getters@[4].is_of(self.data_type@->Primitive_0),
                forall|i: int| 0 <= i < 5 ==> (#[trigger] getters@[i]).count() == row_count,
                c == (StatColumnsV {
                    path: *getters@[0],
                    num_records: *getters@[1],
                    null_count: *getters@[2],
                    min: *getters@[3],
                    max: *getters@[4],
                }),
                missing_rows(c, row_idx as int, old(self).missing()) == Ok::<MissingV, ErrorV>(
                    self.missing(),
                ),
            decreases row_count - row_idx,
        {
            let ghost before = self.missing();
            let path = match getters[0].get_str(row_idx, "path") {
                Ok(Some(path)) => path,
                Ok(None) => {
                    proof {
                        lemma_missing_rows_fail(
                            c,
                            row_idx + 1,
                            row_count as int,
                            old(self).missing(),
                        );
                    }
                    return Err(Error::MissingData(owned("Data missing for field path")));
                },
                Err(e) => {
                    return Err(e);
                },
            };
            let num_records = match getters[1].get_long(row_idx, "numRecords") {
                Ok(v) => v,
                Err(e) => {
                    return Err(e);
                },
            };
            let null_count = match getters[2].get_long(row_idx, "nullCount") {
                Ok(v) => v,
                Err(e) => {
                    return Err(e);
                },
            };
            // When all rows are null (or the file is empty), there are no non-null values to
            // aggregate, so minValues and maxValues are expected to be null.
            let all_null = match (num_records, null_count) {
                (Some(nr), Some(nc)) => nr == nc,
                _ => false,
            };
            assert(all_null == c.all_null(row_idx as int));
            if null_count.is_none() {
                self.missing_null_count.push(path.clone());
            }
            let has_min = match is_stat_present(getters[3], row_idx, self.data_type) {
                Ok(b) => b,
                Err(e) => {
                    return Err(e);
                },
            };
            if !(all_null || has_min) {
                self.missing_min.push(path.clone());
            }
            let has_max = match is_stat_present(getters[4], row_idx, self.data_type) {
                Ok(b) => b,
                Err(e) => {
                    return Err(e);
                },
            };
            if !(all_null || has_max) {
                self.missing_max.push(path.clone());
            }
            proof {
                let row = row_idx as int;
                assert(texts(self.missing_null_count@) =~= with_path(
                    before.null_count,
                    !c.null_count.present(row),
                    path@,
                ));
                assert(texts(self.missing_min@) =~= with_path(
                    before.min,
                    !(c.all_null(row) || c.min.present(row)),
                    path@,
                ));
                assert(texts(self.missing_max@) =~= with_path(
                    before.max,
                    !(c.all_null(row) || c.max.present(row)),
                    path@,
                ));
            }
            row_idx = row_idx + 1;
        }
        Ok(())
    }
}

proof fn lemma_missing_rows_fail(c: StatColumnsV, m: int, n: int, before: MissingV)
    requires
        0 <= m <= n,
        missing_rows(c, m, before) is Err,
    ensures
        missing_rows(c, n, before) == missing_rows(c, m, before),
    decreases n,
{
    if m < n {
        lemma_missing_rows_fail(c, m, n - 1, before);
    }
}

proof fn lemma_missing_in_fails(
    batches: Seq<Batch>,
    m: int,
    n: int,
    column: Seq<Seq<char>>,
    p: PrimitiveType,
)
    requires
        0 <= m <= n,
        missing_in(batches, m, column, p) is Err,
    ensures
        missing_in(batches, n, column, p) == missing_in(batches, m, column, p),
    decreases n,
{
    if m < n {
        lemma_missing_in_fails(batches, m, n - 1, column, p);
    }
}

proof fn lemma_first_column_error_stays(
    batches: Seq<Batch>,
    required: Seq<(Seq<Seq<char>>, TypeV)>,
    m: int,
    n: int,
)
    requires
        0 <= m <= n,
        first_column_error(batches, required, m) is Some,
    ensures
        first_column_error(batches, required, n) == first_column_error(batches, required, m),
    decreases n,
{
    if m < n {
        lemma_first_column_error_stays(batches, required, m, n - 1);
    }
}

/// Verifies that add file statistics contain required columns.
///
/// For each required column, `nullCount` must be present, and `minValues` and `maxValues` must be
/// present unless the column is all-null (`nullCount == numRecords`).
#[derive(Debug)]
pub struct StatsVerifier {
    required_columns: Vec<(ColumnName, DataType)>,
}

impl StatsVerifier {
    /// The required columns and their types.
    pub closed spec fn required(self) -> Seq<(Seq<Seq<char>>, TypeV)> {
        required_views(self.required_columns@)
    }

    /// Create a new verifier that checks statistics for the given required columns and types.
    pub fn new(required_columns: Vec<(ColumnName, DataType)>) -> (r: Self)
        ensures
            r.required() == required_views(required_columns@),
    {
        StatsVerifier { required_columns }
    }

    /// Verify that all files in the provided batches have required statistics.
    pub fn verify(&self, add_files: &Vec<Batch>) -> (r: DeltaResult<()>)
        ensures
            match r {
                Ok(_) => first_column_error(
                    add_files@,
                    self.required(),
                    self.required().len() as int,
                ) is None,
                Err(e) => first_column_error(
                    add_files@,
                    self.required(),
                    self.required().len() as int,
                ) == Some(e@),
            },
            r is Ok <==> forall|i: int|
                0 <= i < self.required().len() ==> column_accepted(
                    add_files@,
                    (#[trigger] self.required()[i]).0,
                    self.required()[i].1,
                ),
    {
        let n: usize = self.required_columns.len();
        let mut i: usize = 0;
        while i < n
            invariant
                i <= n,
                n == self.required_columns@.len(),
                first_column_error(add_files@, self.required(), i as int) is None,
            decreases n - i,
        {
            let column = &self.required_columns[i];
            assert(self.required()[i as int] == (column.0@, column.1@));
            if let Err(e) = self.verify_column(add_files, &column.0, &column.1) {
                proof {
                    lemma_first_column_error_stays(
                        add_files@,
                        self.required(),
                        i + 1,
                        n as int,
                    );
                    law_accepted_files(add_files@, self.required(), n as int);
                }
                return Err(e);
            }
            i = i + 1;
        }
        proof {
            law_accepted_files(add_files@, self.required(), n as int);
        }
        Ok(())
    }

    /// Verify that a single required column has nullCount, minValues, and maxValues stats in every
    /// file.
    fn verify_column(&self, add_files: &Vec<Batch>, column: &ColumnName, data_type: &DataType) -> (r:
        DeltaResult<()>)
        ensures
            match r {
                Ok(_) => column_error(add_files@, column@, data_type@) is None,
                Err(e) => column_error(add_files@, column@, data_type@) == Some(e@),
            },
    {
        let mut path_name: Vec<String> = Vec::new();
        path_name.push(owned("path"));
        let mut num_records_name: Vec<String> = Vec::new();
        num_records_name.push(owned("stats"));
        num_records_name.push(owned("numRecords"));
        let mut column_names: Vec<ColumnName> = Vec::new();
        column_names.push(ColumnName::new(path_name));
        column_names.push(ColumnName::new(num_records_name));
        column_names.push(build_stat_path(column, "nullCount"));
        column_names.push(build_stat_path(column, "minValues"));
        column_names.push(build_stat_path(column, "maxValues"));
        proof {
            assert(column_names@[0]@ =~= seq!["path"@]);
            assert(column_names@[1]@ =~= seq!["stats"@, "numRecords"@]);
        }
        let names_and_types = match column_types_for(data_type) {
            Ok(t) => t,
            Err(e) => {
                return Err(e);
            },
        };
        let (_, types) = names_and_types.as_ref();
        let ghost p = data_type@->Primitive_0;
        let mut visitor = ColumnStatsVisitor {
            data_type,
            missing_null_count: Vec::new(),
            missing_min: Vec::new(),
            missing_max: Vec::new(),
        };
        proof {
            assert(visitor.missing().null_count =~= seq![]);
            assert(visitor.missing().min =~= seq![]);
            assert(visitor.missing().max =~= seq![]);
            assert(type_views(types@) == names_and_types@.1);
            assert(types@.len() == type_views(types@).len());
            assert forall|j: int| 0 <= j < 5 implies (#[trigger] types@[j])@ == type_views(
                types@,
            )[j] by {}
        }
        let n: usize = add_files.len();
        let mut i: usize = 0;
        while i < n
            invariant
                i <= n,
                n == add_files@.len(),
                data_type@ == TypeV::Primitive(p),
                visitor.data_type == data_type,
                column_names@.len() == 5,
                column_names@[0]@ == seq!["path"@],
                column_names@[1]@ == seq!["stats"@, "numRecords"@],
                column_names@[2]@ == stat_path(column@, "nullCount"@),
                column_names@[3]@ == stat_path(column@, "minValues"@),
                column_names@[4]@ == stat_path(column@, "maxValues"@),
                types@.len() == 5,
                types@[0]@ == TypeV::Primitive(PrimitiveType::String),
                types@[1]@ == TypeV::Primitive(PrimitiveType::Long),
                types@[2]@ == TypeV::Primitive(PrimitiveType::Long),
                types@[3]@ == TypeV::Primitive(value_type(p)),
                types@[4]@ == TypeV::Primitive(value_type(p)),
                missing_in(add_files@, i as int, column@, p) == Ok::<MissingV, ErrorV>(
                    visitor.missing(),
                ),
            decreases n - i,
        {
            let batch = &add_files[i];
            let mut getters: Vec<&ColumnValues> = Vec::new();
            let mut j: usize = 0;
            while j < 5
                invariant
                    i < n,
                    n == add_files@.len(),
                    *batch == add_files@[i as int],
                    data_type@ == TypeV::Primitive(p),
                    column_names@.len() == 5,
                    column_names@[0]@ == seq!["path"@],
                    column_names@[1]@ == seq!["stats"@, "numRecords"@],
                    column_names@[2]@ == stat_path(column@, "nullCount"@),
                    column_names@[3]@ == stat_path(column@, "minValues"@),
                    column_names@[4]@ == stat_path(column@, "maxValues"@),
                    types@.len() == 5,
                    types@[0]@ == TypeV::Primitive(PrimitiveType::String),
                    types@[1]@ == TypeV::Primitive(PrimitiveType::Long),
                    types@[2]@ == TypeV::Primitive(PrimitiveType::Long),
                    types@[3]@ == TypeV::Primitive(value_type(p)),
                    types@[4]@ == TypeV::Primitive(value_type(p)),
                    missing_in(add_files@, i as int, column@, p) is Ok,
                    j <= 5,
                    getters@.len() == j,
                    forall|k: int|
                        0 <= k < j ==> (#[trigger] getters@[k]).count() == batch.row_count(),
                    forall|k: int|
                        #![trigger getters@[k]]
                        0 <= k < j ==> selected(*batch, column_names@[k]@, types@[k]@) == Ok::<
                            ColumnValues,
                            ErrorV,
                        >(*getters@[k]),
                decreases 5 - j,
            {
                match batch.select(&column_names[j], &types[j]) {
                    Ok(values) => {
                        getters.push(values);
                    },
                    Err(e) => {
                        proof {
                            if j > 0 {
                                assert(selected(*batch, column_names@[0]@, types@[0]@) == Ok::<
                                    ColumnValues,
                                    ErrorV,
                                >(*getters@[0]));
                            }
                            if j > 1 {
                                assert(selected(*batch, column_names@[1]@, types@[1]@) == Ok::<
                                    ColumnValues,
                                    ErrorV,
                                >(*getters@[1]));
                            }
                            if j > 2 {
                                assert(selected(*batch, column_names@[2]@, types@[2]@) == Ok::<
                                    ColumnValues,
                                    ErrorV,
                                >(*getters@[2]));
                            }
                            if j > 3 {
                                assert(selected(*batch, column_names@[3]@, types@[3]@) == Ok::<
                                    ColumnValues,
                                    ErrorV,
                                >(*getters@[3]));
                            }
                            assert(stat_columns(*batch, column@, p) == Err::<
                                StatColumnsV,
                                ErrorV,
                            >(e@));
                            lemma_missing_in_fails(
                                add_files@,
                                i + 1,
                                add_files@.len() as int,
                                column@,
                                p,
                            );
                        }
                        return Err(e);
                    },
                }
                j = j + 1;
            }
            proof {
                assert(getters@[0].is_of(PrimitiveType::String));
                assert(getters@[1].is_of(PrimitiveType::Long));
                assert(getters@[2].is_of(PrimitiveType::Long));
                assert(getters@[3].is_of(p));
                assert(getters@[4].is_of(p));
            }
            if let Err(e) = visitor.visit(batch.num_rows(), &getters) {
                proof {
                    lemma_missing_in_fails(
                        add_files@,
                        i + 1,
                        add_files@.len() as int,
                        column@,
                        p,
                    );
                }
                return Err(e);
            }
            i = i + 1;
        }
        if visitor.missing_null_count.len() > 0 {
            return Err(missing_stats(column, "nullCount", &visitor.missing_null_count));
        }
        if visitor.missing_min.len() > 0 {
            return Err(missing_stats(column, "minValues", &visitor.missing_min));
        }
        if visitor.missing_max.len() > 0 {
            return Err(missing_stats(column, "maxValues", &visitor.missing_max));
        }
        Ok(())
    }
}

fn missing_stats(column: &ColumnName, category: &str, files: &Vec<String>) -> (r: Error)
    ensures
        r@ == missing_error(column@, category@, texts(files@)),
{
    let mut text = cat5(
        "Required column '",
        column.text().as_str(),
        "' is missing '",
        category,
        "' statistics for files: [",
    );
    text.push_str(join(files, ", ").as_str());
    text.push_str("]");
    Error::StatsValidation(text)
}

} // verus!
