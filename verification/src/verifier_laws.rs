//! What holds of the verification of file statistics.
use vstd::prelude::*;

#[allow(unused_imports)]
use crate::engine_data::{selected, Batch, ColumnValues};
#[allow(unused_imports)]
use crate::error::ErrorV;
#[allow(unused_imports)]
use crate::schema::primitive::PrimitiveType;
#[allow(unused_imports)]
use crate::schema::types::TypeV;
#[allow(unused_imports)]
use crate::stats_verifier::{
    batch_accepted, column_accepted, column_error, filed_and_accepted, first_column_error,
    law_accepted_files, missing_in, missing_rows, row_accepted, rows_accepted, stat_columns, stat_path,
    stat_presence, value_type, MissingV, StatColumnsV,
};
#[allow(unused_imports)]
use crate::column_name::column_text;
#[allow(unused_imports)]
use crate::schema::display::type_text;
#[allow(unused_imports)]
use crate::text::joined;

verus! {

/// A value is there exactly where the vector of the column holds one, whatever the kind of values.
pub proof fn law_values_are_present_where_they_are_held(values: ColumnValues, row: int)
    ensures
        values.present(row) == (match values {
            ColumnValues::Boolean(v) => v@[row] is Some,
            ColumnValues::Byte(v) => v@[row] is Some,
            ColumnValues::Short(v) => v@[row] is Some,
            ColumnValues::Integer(v) => v@[row] is Some,
            ColumnValues::Long(v) => v@[row] is Some,
            ColumnValues::Float16(v) => v@[row] is Some,
            ColumnValues::Float(v) => v@[row] is Some,
            ColumnValues::Double(v) => v@[row] is Some,
            ColumnValues::Date(v) => v@[row] is Some,
            ColumnValues::Timestamp(v) => v@[row] is Some,
            ColumnValues::Text(v) => v@[row] is Some,
            ColumnValues::Binary(v) => v@[row] is Some,
            ColumnValues::Decimal(v) => v@[row] is Some,
        }),
{
}

/// The kinds of values and the types that they are values of. The two timestamp types have values of
/// one kind, and so have all decimal types.
pub proof fn law_values_and_their_types(values: ColumnValues, t: PrimitiveType)
    ensures
        values.is_of(t) == (match (values, t) {
            (ColumnValues::Boolean(_), PrimitiveType::Boolean) => true,
            (ColumnValues::Byte(_), PrimitiveType::Byte) => true,
            (ColumnValues::Short(_), PrimitiveType::Short) => true,
            (ColumnValues::Integer(_), PrimitiveType::Integer) => true,
            (ColumnValues::Long(_), PrimitiveType::Long) => true,
            (ColumnValues::Float16(_), PrimitiveType::Float16) => true,
            (ColumnValues::Float(_), PrimitiveType::Float) => true,
            (ColumnValues::Double(_), PrimitiveType::Double) => true,
            (ColumnValues::Date(_), PrimitiveType::Date) => true,
            (ColumnValues::Timestamp(_), PrimitiveType::Timestamp) => true,
            (ColumnValues::Timestamp(_), PrimitiveType::TimestampNtz) => true,
            (ColumnValues::Text(_), PrimitiveType::String) => true,
            (ColumnValues::Binary(_), PrimitiveType::Binary) => true,
            (ColumnValues::Decimal(_), PrimitiveType::Decimal(_)) => true,
            _ => false,
        }),
{
}

/// The values of a column of a batch are those of the first column of its name.
pub proof fn law_columns_by_name(b: Batch, path: Seq<Seq<char>>, i: int)
    requires
        0 <= i < b.column_list().len(),
        b.column_list()[i].0 == path,
        forall|j: int| 0 <= j < i ==> (#[trigger] b.column_list()[j]).0 != path,
    ensures
        b.values_of(path) == Some(b.column_list()[i].1),
{
    lemma_first_column(b, path, 0, i);
}

proof fn lemma_first_column(b: Batch, path: Seq<Seq<char>>, from: int, i: int)
    requires
        0 <= from <= i < b.column_list().len(),
        b.column_list()[i].0 == path,
        forall|j: int| 0 <= j < i ==> (#[trigger] b.column_list()[j]).0 != path,
    ensures
        b.first_column(path, from) == i,
    decreases i - from,
{
    if from < i {
        lemma_first_column(b, path, from + 1, i);
    }
}

/// Whether a vector of optional values holds none in a row.
pub open spec fn holds_none(values: ColumnValues, row: int) -> bool {
    match values {
        ColumnValues::Boolean(v) => v@[row] is None,
        ColumnValues::Byte(v) => v@[row] is None,
        ColumnValues::Short(v) => v@[row] is None,
        ColumnValues::Integer(v) => v@[row] is None,
        ColumnValues::Long(v) => v@[row] is None,
        ColumnValues::Float16(v) => v@[row] is None,
        ColumnValues::Float(v) => v@[row] is None,
        ColumnValues::Double(v) => v@[row] is None,
        ColumnValues::Date(v) => v@[row] is None,
        ColumnValues::Timestamp(v) => v@[row] is None,
        ColumnValues::Text(v) => v@[row] is None,
        ColumnValues::Binary(v) => v@[row] is None,
        ColumnValues::Decimal(v) => v@[row] is None,
    }
}

/// Where a file lacks the smallest or the largest value of a required column, and its null count is
/// not its number of records, the files are refused.
pub proof fn law_missing_bound_is_refused(
    batches: Seq<Batch>,
    required: Seq<(Seq<Seq<char>>, TypeV)>,
    i: int,
    b: int,
    row: int,
    bound: ColumnValues,
    records: Vec<Option<i64>>,
    nulls: Vec<Option<i64>>,
)
    requires
        0 <= i < required.len(),
        0 <= b < batches.len(),
        0 <= row < batches[b].row_count(),
        batches[b].values_of(seq!["stats"@, "minValues"@] + required[i].0) == Some(bound)
            || batches[b].values_of(seq!["stats"@, "maxValues"@] + required[i].0) == Some(bound),
        match bound {
            ColumnValues::Boolean(v) => v@[row] is None,
            ColumnValues::Byte(v) => v@[row] is None,
            ColumnValues::Short(v) => v@[row] is None,
            ColumnValues::Integer(v) => v@[row] is None,
            ColumnValues::Long(v) => v@[row] is None,
            ColumnValues::Float16(v) => v@[row] is None,
            ColumnValues::Float(v) => v@[row] is None,
            ColumnValues::Double(v) => v@[row] is None,
            ColumnValues::Date(v) => v@[row] is None,
            ColumnValues::Timestamp(v) => v@[row] is None,
            ColumnValues::Text(v) => v@[row] is None,
            ColumnValues::Binary(v) => v@[row] is None,
            ColumnValues::Decimal(v) => v@[row] is None,
        },
        batches[b].values_of(seq!["stats"@, "numRecords"@]) == Some(ColumnValues::Long(records)),
        batches[b].values_of(seq!["stats"@, "nullCount"@] + required[i].0) == Some(
            ColumnValues::Long(nulls),
        ),
        !(records@[row] is Some && records@[row] == nulls@[row]),
    ensures
        first_column_error(batches, required, required.len() as int) is Some,
{
    law_accepted_files(batches, required, required.len() as int);
    if first_column_error(batches, required, required.len() as int) is None {
        assert(column_accepted(batches, required[i].0, required[i].1));
        let p = required[i].1->Primitive_0;
        assert(batch_accepted(batches[b], required[i].0, p));
        let c = stat_columns(batches[b], required[i].0, p)->Ok_0;
        assert(filed_and_accepted(c, row));
        law_values_are_present_where_they_are_held(bound, row);
    }
}

/// Where a file lacks the null count of a required column, the files are refused.
pub proof fn law_missing_null_count_is_refused(
    batches: Seq<Batch>,
    required: Seq<(Seq<Seq<char>>, TypeV)>,
    i: int,
    b: int,
    row: int,
    nulls: Vec<Option<i64>>,
)
    requires
        0 <= i < required.len(),
        0 <= b < batches.len(),
        0 <= row < batches[b].row_count(),
        batches[b].values_of(seq!["stats"@, "nullCount"@] + required[i].0) == Some(
            ColumnValues::Long(nulls),
        ),
        nulls@[row] is None,
    ensures
        first_column_error(batches, required, required.len() as int) is Some,
{
    law_accepted_files(batches, required, required.len() as int);
    if first_column_error(batches, required, required.len() as int) is None {
        assert(column_accepted(batches, required[i].0, required[i].1));
        let p = required[i].1->Primitive_0;
        assert(batch_accepted(batches[b], required[i].0, p));
        let c = stat_columns(batches[b], required[i].0, p)->Ok_0;
        assert(filed_and_accepted(c, row));
    }
}

/// Where a batch lacks one of the columns that tell about a required column, the files are refused.
pub proof fn law_missing_stat_column_is_refused(
    batches: Seq<Batch>,
    required: Seq<(Seq<Seq<char>>, TypeV)>,
    i: int,
    b: int,
)
    requires
        0 <= i < required.len(),
        0 <= b < batches.len(),
        ({
            ||| batches[b].values_of(seq!["path"@]) is None
            ||| batches[b].values_of(seq!["stats"@, "numRecords"@]) is None
            ||| batches[b].values_of(seq!["stats"@, "nullCount"@] + required[i].0) is None
            ||| batches[b].values_of(seq!["stats"@, "minValues"@] + required[i].0) is None
            ||| batches[b].values_of(seq!["stats"@, "maxValues"@] + required[i].0) is None
        }),
    ensures
        first_column_error(batches, required, required.len() as int) is Some,
{
    law_accepted_files(batches, required, required.len() as int);
    if first_column_error(batches, required, required.len() as int) is None {
        assert(column_accepted(batches, required[i].0, required[i].1));
        let p = required[i].1->Primitive_0;
        assert(batch_accepted(batches[b], required[i].0, p));
    }
}

/// A required column of a type that has no statistics is refused.
pub proof fn law_nested_required_column_is_refused(
    batches: Seq<Batch>,
    required: Seq<(Seq<Seq<char>>, TypeV)>,
    i: int,
)
    requires
        0 <= i < required.len(),
        !(required[i].1 is Primitive),
    ensures
        first_column_error(batches, required, required.len() as int) is Some,
{
    law_accepted_files(batches, required, required.len() as int);
    if first_column_error(batches, required, required.len() as int) is None {
        assert(column_accepted(batches, required[i].0, required[i].1));
    }
}

/// Whether the statistics of a column in a row of a batch are complete, on the vectors themselves: the
/// path, the null count, and either as many nulls as records or both bounds.
pub open spec fn complete_in_row(b: Batch, column: Seq<Seq<char>>, row: int) -> bool {
    match (
        b.values_of(seq!["path"@]),
        b.values_of(seq!["stats"@, "numRecords"@]),
        b.values_of(seq!["stats"@, "nullCount"@] + column),
        b.values_of(seq!["stats"@, "minValues"@] + column),
        b.values_of(seq!["stats"@, "maxValues"@] + column),
    ) {
        (
            Some(ColumnValues::Text(paths)),
            Some(ColumnValues::Long(records)),
            Some(ColumnValues::Long(nulls)),
            Some(min),
            Some(max),
        ) => paths@[row] is Some && nulls@[row] is Some && (records@[row] == nulls@[row] || (
        !holds_none(min, row) && !holds_none(max, row))),
        _ => false,
    }
}

/// Whether a batch has the columns that tell about a required column, each with values of its type.
pub open spec fn has_stat_columns(b: Batch, column: Seq<Seq<char>>, p: PrimitiveType) -> bool {
    &&& b.values_of(seq!["path"@]) matches Some(ColumnValues::Text(_))
    &&& b.values_of(seq!["stats"@, "numRecords"@]) matches Some(ColumnValues::Long(_))
    &&& b.values_of(seq!["stats"@, "nullCount"@] + column) matches Some(ColumnValues::Long(_))
    &&& b.values_of(seq!["stats"@, "minValues"@] + column) matches Some(min) && min.is_of(p)
    &&& b.values_of(seq!["stats"@, "maxValues"@] + column) matches Some(max) && max.is_of(p)
}

/// Files whose statistics are complete in every row, for each required column, are accepted: a bound
/// may be missing only where all values of the file are null.
pub proof fn law_complete_files_are_accepted(
    batches: Seq<Batch>,
    required: Seq<(Seq<Seq<char>>, TypeV)>,
)
    requires
        forall|i: int| 0 <= i < required.len() ==> (#[trigger] required[i]).1 is Primitive,
        forall|i: int, b: int|
            0 <= i < required.len() && 0 <= b < batches.len() ==> #[trigger] has_stat_columns(
                batches[b],
                required[i].0,
                required[i].1->Primitive_0,
            ),
        forall|i: int, b: int, row: int|
            0 <= i < required.len() && 0 <= b < batches.len() && 0 <= row < batches[b].row_count()
                ==> #[trigger] complete_in_row(batches[b], required[i].0, row),
    ensures
        first_column_error(batches, required, required.len() as int) is None,
{
    law_accepted_files(batches, required, required.len() as int);
    assert forall|i: int| 0 <= i < required.len() implies column_accepted(
        batches,
        (#[trigger] required[i]).0,
        required[i].1,
    ) by {
        let p = required[i].1->Primitive_0;
        let column = required[i].0;
        assert forall|b: int| 0 <= b < batches.len() implies #[trigger] batch_accepted(
            batches[b],
            column,
            p,
        ) by {
            assert(has_stat_columns(batches[b], column, p));
            let c = stat_columns(batches[b], column, p)->Ok_0;
            assert forall|row: int| 0 <= row < batches[b].row_count() implies #[trigger]
                filed_and_accepted(c, row) by {
                assert(complete_in_row(batches[b], column, row));
            }
        }
    }
}

/// A statistic is there exactly where the column holds a value of the type that is asked for. To ask
/// for another type than that of the column, or for one that is not primitive, is an error.
pub proof fn law_presence_of_statistics(values: ColumnValues, row: int, t: TypeV)
    ensures
        stat_presence(values, row, t) is Ok <==> t is Primitive && (match (values, t->Primitive_0) {
            (ColumnValues::Boolean(_), PrimitiveType::Boolean) => true,
            (ColumnValues::Byte(_), PrimitiveType::Byte) => true,
            (ColumnValues::Short(_), PrimitiveType::Short) => true,
            (ColumnValues::Integer(_), PrimitiveType::Integer) => true,
            (ColumnValues::Long(_), PrimitiveType::Long) => true,
            (ColumnValues::Float16(_), PrimitiveType::Float16) => true,
            (ColumnValues::Float(_), PrimitiveType::Float) => true,
            (ColumnValues::Double(_), PrimitiveType::Double) => true,
            (ColumnValues::Date(_), PrimitiveType::Date) => true,
            (ColumnValues::Timestamp(_), PrimitiveType::Timestamp) => true,
            (ColumnValues::Timestamp(_), PrimitiveType::TimestampNtz) => true,
            (ColumnValues::Text(_), PrimitiveType::String) => true,
            (ColumnValues::Binary(_), PrimitiveType::Binary) => true,
            (ColumnValues::Decimal(_), PrimitiveType::Decimal(_)) => true,
            _ => false,
        }),
        stat_presence(values, row, t) matches Ok(b) ==> b == (match values {
            ColumnValues::Boolean(v) => v@[row] is Some,
            ColumnValues::Byte(v) => v@[row] is Some,
            ColumnValues::Short(v) => v@[row] is Some,
            ColumnValues::Integer(v) => v@[row] is Some,
            ColumnValues::Long(v) => v@[row] is Some,
            ColumnValues::Float16(v) => v@[row] is Some,
            ColumnValues::Float(v) => v@[row] is Some,
            ColumnValues::Double(v) => v@[row] is Some,
            ColumnValues::Date(v) => v@[row] is Some,
            ColumnValues::Timestamp(v) => v@[row] is Some,
            ColumnValues::Text(v) => v@[row] is Some,
            ColumnValues::Binary(v) => v@[row] is Some,
            ColumnValues::Decimal(v) => v@[row] is Some,
        }),
        !(t is Primitive) ==> stat_presence(values, row, t) == Err::<bool, ErrorV>(
            ErrorV::InternalError(
                "Unsupported data type for stats presence check: "@ + type_text(t),
            ),
        ),
        t matches TypeV::Primitive(p) && stat_presence(values, row, t) is Err ==> stat_presence(
            values,
            row,
            t,
        ) == Err::<bool, ErrorV>(
            ErrorV::UnexpectedColumnType(
                "stat"@ + " is not of type "@ + (match t->Primitive_0 {
                    PrimitiveType::Boolean => "bool"@,
                    PrimitiveType::Byte => "byte"@,
                    PrimitiveType::Short => "short"@,
                    PrimitiveType::Integer => "int"@,
                    PrimitiveType::Long => "long"@,
                    PrimitiveType::Float => "float"@,
                    PrimitiveType::Float16 => "float16"@,
                    PrimitiveType::Double => "double"@,
                    PrimitiveType::Date => "date"@,
                    PrimitiveType::Timestamp => "timestamp"@,
                    PrimitiveType::TimestampNtz => "timestamp"@,
                    PrimitiveType::String => "str"@,
                    PrimitiveType::Binary => "binary"@,
                    PrimitiveType::Decimal(_) => "decimal"@,
                }),
            ),
        ),
{
}

/// The error is that of the first column that has one.
pub proof fn law_first_refused_column(
    batches: Seq<Batch>,
    required: Seq<(Seq<Seq<char>>, TypeV)>,
    i: int,
)
    requires
        0 <= i < required.len(),
        forall|j: int|
            0 <= j < i ==> column_error(batches, (#[trigger] required[j]).0, required[j].1) is None,
        column_error(batches, required[i].0, required[i].1) is Some,
    ensures
        first_column_error(batches, required, required.len() as int) == column_error(
            batches,
            required[i].0,
            required[i].1,
        ),
{
    lemma_none_before(batches, required, i);
    lemma_error_stays(batches, required, i + 1, required.len() as int);
}

proof fn lemma_none_before(batches: Seq<Batch>, required: Seq<(Seq<Seq<char>>, TypeV)>, n: int)
    requires
        0 <= n <= required.len(),
        forall|j: int|
            0 <= j < n ==> column_error(batches, (#[trigger] required[j]).0, required[j].1) is None,
    ensures
        first_column_error(batches, required, n) is None,
    decreases n,
{
    if n > 0 {
        lemma_none_before(batches, required, n - 1);
        assert(column_error(batches, required[n - 1].0, required[n - 1].1) is None);
    }
}

proof fn lemma_error_stays(
    batches: Seq<Batch>,
    required: Seq<(Seq<Seq<char>>, TypeV)>,
    m: int,
    n: int,
)
    requires
        0 <= m <= n,
        first_column_error(batches, required, m) is Some,
    ensures
        first_column_error(batches, required, n) == first_column_error(batches, required, m),
    decreases n - m,
{
    if m < n {
        lemma_error_stays(batches, required, m, n - 1);
    }
}

/// The error for a column names the kind of statistics that is missing and the files that lack it:
/// null counts come before smallest values, and these before largest values.
pub proof fn law_what_is_said_of_missing_statistics(
    batches: Seq<Batch>,
    column: Seq<Seq<char>>,
    p: PrimitiveType,
    m: MissingV,
)
    requires
        missing_in(batches, batches.len() as int, column, p) == Ok::<MissingV, ErrorV>(m),
    ensures
        column_error(batches, column, TypeV::Primitive(p)) == (if m.null_count.len() > 0 {
            Some(
                ErrorV::StatsValidation(
                    "Required column '"@ + column_text(column) + "' is missing '"@ + "nullCount"@
                        + "' statistics for files: ["@ + joined(m.null_count, ", "@) + "]"@,
                ),
            )
        } else if m.min.len() > 0 {
            Some(
                ErrorV::StatsValidation(
                    "Required column '"@ + column_text(column) + "' is missing '"@ + "minValues"@
                        + "' statistics for files: ["@ + joined(m.min, ", "@) + "]"@,
                ),
            )
        } else if m.max.len() > 0 {
            Some(
                ErrorV::StatsValidation(
                    "Required column '"@ + column_text(column) + "' is missing '"@ + "maxValues"@
                        + "' statistics for files: ["@ + joined(m.max, ", "@) + "]"@,
                ),
            )
        } else {
            None
        }),
{
}

/// The files that lack statistics, row by row and in order: a file lacks a null count that is not
/// there, and a smallest or largest value that is not there unless all its values are null.
pub proof fn law_files_that_lack_statistics(c: StatColumnsV, row: int, before: MissingV)
    requires
        row >= 0,
    ensures
        missing_rows(c, 0, before) == Ok::<MissingV, ErrorV>(before),
        missing_rows(c, row, before) is Ok && c.file(row) is None ==> missing_rows(
            c,
            row + 1,
            before,
        ) is Err,
        missing_rows(c, row, before) matches Ok(m) ==> (c.file(row) matches Some(path)
            ==> {
            let r = missing_rows(c, row + 1, before);
            let all_null = c.num_records matches ColumnValues::Long(n) && c.null_count matches ColumnValues::Long(k)
                && n@[row] is Some && n@[row] == k@[row];
            &&& r is Ok
            &&& r->Ok_0.null_count == m.null_count + (if c.null_count.present(row) {
                seq![]
            } else {
                seq![path]
            })
            &&& r->Ok_0.min == m.min + (if all_null || c.min.present(row) {
                seq![]
            } else {
                seq![path]
            })
            &&& r->Ok_0.max == m.max + (if all_null || c.max.present(row) {
                seq![]
            } else {
                seq![path]
            })
        }),
        missing_rows(c, row, before) matches Err(e) ==> missing_rows(c, row + 1, before)
            == Err::<MissingV, ErrorV>(e),
{
    if let Ok(m) = missing_rows(c, row, before) {
        if let Some(path) = c.file(row) {
            let r = missing_rows(c, row + 1, before)->Ok_0;
            assert(m.null_count + seq![] =~= m.null_count);
            assert(m.min + seq![] =~= m.min);
            assert(m.max + seq![] =~= m.max);
            assert(m.null_count + seq![path] =~= m.null_count.push(path));
            assert(m.min + seq![path] =~= m.min.push(path));
            assert(m.max + seq![path] =~= m.max.push(path));
        }
    }
}

/// The files of one batch after another are gone through, and where a column of the batch cannot be
/// had, the error is that of the column.
pub proof fn law_batches_are_gone_through_in_order(
    batches: Seq<Batch>,
    n: int,
    column: Seq<Seq<char>>,
    p: PrimitiveType,
)
    requires
        0 <= n < batches.len(),
    ensures
        missing_in(batches, 0, column, p) matches Ok(m) && m.null_count.len() == 0 && m.min.len() == 0
            && m.max.len() == 0,
        missing_in(batches, n, column, p) matches Err(e) ==> missing_in(
            batches,
            n + 1,
            column,
            p,
        ) == Err::<MissingV, ErrorV>(e),
        missing_in(batches, n, column, p) matches Ok(m) ==> missing_in(
            batches,
            n + 1,
            column,
            p,
        ) == (match stat_columns(batches[n], column, p) {
            Ok(c) => missing_rows(c, batches[n].row_count() as int, m),
            Err(e) => Err(e),
        }),
        stat_columns(batches[n], column, p) matches Ok(c) ==> {
            &&& batches[n].values_of(seq!["path"@]) == Some(c.path)
            &&& batches[n].values_of(seq!["stats"@, "numRecords"@]) == Some(c.num_records)
            &&& batches[n].values_of(seq!["stats"@, "nullCount"@] + column) == Some(
                c.null_count,
            )
            &&& batches[n].values_of(seq!["stats"@, "minValues"@] + column) == Some(c.min)
            &&& batches[n].values_of(seq!["stats"@, "maxValues"@] + column) == Some(c.max)
        },
{
}

/// What is said of a required column that is not primitive.
pub proof fn law_what_is_said_of_nested_columns(
    batches: Seq<Batch>,
    column: Seq<Seq<char>>,
    t: TypeV,
)
    requires
        !(t is Primitive),
    ensures
        column_error(batches, column, t) == Some(
            ErrorV::InternalError("Unsupported data type for stats validation: "@ + type_text(t)),
        ),
{
}

} // verus!
