//! Batches of rows: columns of values, read row by row.
use vstd::prelude::*;

use crate::column_name::ColumnName;
use crate::error::{DeltaResult, Error};
use crate::schema::primitive::PrimitiveType;
use crate::schema::types::DataType;
use crate::text::cat3;

#[allow(unused_imports)]
use crate::column_name::column_text;
#[allow(unused_imports)]
use crate::error::ErrorV;
#[allow(unused_imports)]
use crate::schema::types::TypeV;

verus! {

/// The values of one column, each of which can be null. Floating point numbers are given by their
/// bits.
#[derive(Debug)]
pub enum ColumnValues {
    Boolean(Vec<Option<bool>>),
    Byte(Vec<Option<i8>>),
    Short(Vec<Option<i16>>),
    Integer(Vec<Option<i32>>),
    Long(Vec<Option<i64>>),
    Float16(Vec<Option<u16>>),
    Float(Vec<Option<u32>>),
    Double(Vec<Option<u64>>),
    /// Days since the epoch
    Date(Vec<Option<i32>>),
    /// Microseconds since the epoch, with or without time zone
    Timestamp(Vec<Option<i64>>),
    Text(Vec<Option<String>>),
    Binary(Vec<Option<Vec<u8>>>),
    Decimal(Vec<Option<i128>>),
}

impl ColumnValues {
    /// The number of values, nulls among them.
    pub open spec fn count(self) -> nat {
        match self {
            ColumnValues::Boolean(v) => v@.len(),
            ColumnValues::Byte(v) => v@.len(),
            ColumnValues::Short(v) => v@.len(),
            ColumnValues::Integer(v) => v@.len(),
            ColumnValues::Long(v) => v@.len(),
            ColumnValues::Float16(v) => v@.len(),
            ColumnValues::Float(v) => v@.len(),
            ColumnValues::Double(v) => v@.len(),
            ColumnValues::Date(v) => v@.len(),
            ColumnValues::Timestamp(v) => v@.len(),
            ColumnValues::Text(v) => v@.len(),
            ColumnValues::Binary(v) => v@.len(),
            ColumnValues::Decimal(v) => v@.len(),
        }
    }

    /// Whether the value in a row is there.
    pub open spec fn present(self, row: int) -> bool {
        match self {
            ColumnValues::Boolean(v) => v@[row] is Some,
            ColumnValues::Byte(v) => v@[row] is Some,
            ColumnValues::Short(v) => v@[row] is Some,
            ColumnValues::Integer(v) => v@[row] is Some,
            ColumnValues::Long(v) => v@[row] is Some,
            ColumnValues::Float16(v) => v@[row] is Some,
            ColumnValues::Float(v) => v@[row] is Some,
            ColumnValues::Double(v) => v@[row] is Some,
            ColumnValues::Date(v) => v@[row] is Some,
            ColumnValues::Timestamp(v) => v@[row] is Some,
            ColumnValues::Text(v) => v@[row] is Some,
            ColumnValues::Binary(v) => v@[row] is Some,
            ColumnValues::Decimal(v) => v@[row] is Some,
        }
    }

    /// Whether the values are of a type.
    pub open spec fn is_of(self, t: PrimitiveType) -> bool {
        match t {
            PrimitiveType::Boolean => self is Boolean,
            PrimitiveType::Byte => self is Byte,
            PrimitiveType::Short => self is Short,
            PrimitiveType::Integer => self is Integer,
            PrimitiveType::Long => self is Long,
            PrimitiveType::Float16 => self is Float16,
            PrimitiveType::Float => self is Float,
            PrimitiveType::Double => self is Double,
            PrimitiveType::Date => self is Date,
            PrimitiveType::Timestamp => self is Timestamp,
            PrimitiveType::TimestampNtz => self is Timestamp,
            PrimitiveType::String => self is Text,
            PrimitiveType::Binary => self is Binary,
            PrimitiveType::Decimal(_) => self is Decimal,
        }
    }

    /// The number of values, nulls among them.
    pub fn len(&self) -> (r: usize)
        ensures
            r == self.count(),
    {
        match self {
            ColumnValues::Boolean(v) => v.len(),
            ColumnValues::Byte(v) => v.len(),
            ColumnValues::Short(v) => v.len(),
            ColumnValues::Integer(v) => v.len(),
            ColumnValues::Long(v) => v.len(),
            ColumnValues::Float16(v) => v.len(),
            ColumnValues::Float(v) => v.len(),
            ColumnValues::Double(v) => v.len(),
            ColumnValues::Date(v) => v.len(),
            ColumnValues::Timestamp(v) => v.len(),
            ColumnValues::Text(v) => v.len(),
            ColumnValues::Binary(v) => v.len(),
            ColumnValues::Decimal(v) => v.len(),
        }
    }

    fn fits(&self, t: &PrimitiveType) -> (r: bool)
        ensures
            r == self.is_of(*t),
    {
        match (t, self) {
            (PrimitiveType::Boolean, ColumnValues::Boolean(_)) => true,
            (PrimitiveType::Byte, ColumnValues::Byte(_)) => true,
            (PrimitiveType::Short, ColumnValues::Short(_)) => true,
            (PrimitiveType::Integer, ColumnValues::Integer(_)) => true,
            (PrimitiveType::Long, ColumnValues::Long(_)) => true,
            (PrimitiveType::Float16, ColumnValues::Float16(_)) => true,
            (PrimitiveType::Float, ColumnValues::Float(_)) => true,
            (PrimitiveType::Double, ColumnValues::Double(_)) => true,
            (PrimitiveType::Date, ColumnValues::Date(_)) => true,
            (PrimitiveType::Timestamp, ColumnValues::Timestamp(_)) => true,
            (PrimitiveType::TimestampNtz, ColumnValues::Timestamp(_)) => true,
            (PrimitiveType::String, ColumnValues::Text(_)) => true,
            (PrimitiveType::Binary, ColumnValues::Binary(_)) => true,
            (PrimitiveType::Decimal(_), ColumnValues::Decimal(_)) => true,
            _ => false,
        }
    }

    /// The integer in a row. Fails where the column holds something else.
    pub fn get_long(&self, row: usize, field_name: &str) -> (r: DeltaResult<Option<i64>>)
        requires
            row < self.count(),
        ensures
            match r {
                Ok(v) => self matches ColumnValues::Long(values) && v == values@[row as int],
                Err(e) => !(self is Long) && e@ == unexpected_type_error(field_name@, "long"@),
            },
    {
        match self {
            ColumnValues::Long(values) => Ok(values[row]),
            _ => Err(unexpected_type(field_name, "long")),
        }
    }

    /// The string in a row. Fails where the column holds something else.
    pub fn get_str(&self, row: usize, field_name: &str) -> (r: DeltaResult<Option<&String>>)
        requires
            row < self.count(),
        ensures
            match r {
                Ok(Some(s)) => self matches ColumnValues::Text(values) && values@[row as int]
                    == Some(*s),
                Ok(None) => self matches ColumnValues::Text(values) && values@[row as int] is None,
                Err(e) => !(self is Text) && e@ == unexpected_type_error(field_name@, "str"@),
            },
    {
        match self {
            ColumnValues::Text(values) => Ok(values[row].as_ref()),
            _ => Err(unexpected_type(field_name, "str")),
        }
    }

    /// Whether the value in a row is there.
    pub fn is_present(&self, row: usize) -> (r: bool)
        requires
            row < self.count(),
        ensures
            r == self.present(row as int),
    {
        match self {
            ColumnValues::Boolean(v) => v[row].is_some(),
            ColumnValues::Byte(v) => v[row].is_some(),
            ColumnValues::Short(v) => v[row].is_some(),
            ColumnValues::Integer(v) => v[row].is_some(),
            ColumnValues::Long(v) => v[row].is_some(),
            ColumnValues::Float16(v) => v[row].is_some(),
            ColumnValues::Float(v) => v[row].is_some(),
            ColumnValues::Double(v) => v[row].is_some(),
            ColumnValues::Date(v) => v[row].is_some(),
            ColumnValues::Timestamp(v) => v[row].is_some(),
            ColumnValues::Text(v) => v[row].is_some(),
            ColumnValues::Binary(v) => v[row].is_some(),
            ColumnValues::Decimal(v) => v[row].is_some(),
        }
    }
}

/// The error for a column of the wrong type.
pub open spec fn unexpected_type_error(field_name: Seq<char>, kind: Seq<char>) -> ErrorV {
    ErrorV::UnexpectedColumnType(field_name + " is not of type "@ + kind)
}

/// The error for a column of the wrong type.
pub(crate) fn unexpected_type(field_name: &str, kind: &str) -> (r: Error)
    ensures
        r@ == unexpected_type_error(field_name@, kind@),
{
    Error::UnexpectedColumnType(cat3(field_name, " is not of type ", kind))
}

/// A batch of rows.
#[derive(Debug)]
pub struct Batch {
    rows: usize,
    columns: Vec<(ColumnName, ColumnValues)>,
}

/// Columns with their names as paths.
pub open spec fn named_columns(columns: Seq<(ColumnName, ColumnValues)>) -> Seq<
    (Seq<Seq<char>>, ColumnValues),
> {
    Seq::new(columns.len(), |i: int| (columns[i].0@, columns[i].1))
}

impl Batch {
    #[verifier::type_invariant]
    closed spec fn well_formed(self) -> bool {
        forall|i: int|
            0 <= i < self.columns@.len() ==> (#[trigger] self.columns@[i]).1.count() == self.rows
    }

    /// The number of rows.
    pub closed spec fn row_count(self) -> nat {
        self.rows as nat
    }

    /// The columns.
    pub closed spec fn column_list(self) -> Seq<(Seq<Seq<char>>, ColumnValues)> {
        named_columns(self.columns@)
    }

    /// The values of a column, if it is there.
    pub open spec fn values_of(self, path: Seq<Seq<char>>) -> Option<ColumnValues> {
        if exists|i: int| 0 <= i < self.column_list().len() && (#[trigger] self.column_list()[i]).0 == path {
            Some(self.column_list()[self.first_column(path, 0)].1)
        } else {
            None
        }
    }

    /// The first column of a name, from a position on.
    pub open spec fn first_column(self, path: Seq<Seq<char>>, from: int) -> int
        decreases self.column_list().len() - from,
    {
        if from >= self.column_list().len() || self.column_list()[from].0 == path {
            from
        } else {
            self.first_column(path, from + 1)
        }
    }

    /// A batch of the given columns. All of them must have `rows` values.
    pub fn try_new(rows: usize, columns: Vec<(ColumnName, ColumnValues)>) -> (r: Option<Self>)
        ensures
            match r {
                Some(b) => {
                    &&& b.row_count() == rows
                    &&& b.column_list() == named_columns(columns@)
                    &&& forall|i: int|
                        0 <= i < columns@.len() ==> (#[trigger] columns@[i]).1.count() == rows
                },
                None => exists|i: int|
                    0 <= i < columns@.len() && (#[trigger] columns@[i]).1.count() != rows,
            },
    {
        let mut i: usize = 0;
        while i < columns.len()
            invariant
                i <= columns@.len(),
                forall|j: int| 0 <= j < i ==> (#[trigger] columns@[j]).1.count() == rows,
            decreases columns@.len() - i,
        {
            if columns[i].1.len() != rows {
                assert(columns@[i as int].1.count() != rows);
                return None;
            }
            i = i + 1;
        }
        Some(Batch { rows, columns })
    }

    /// The number of rows.
    pub fn num_rows(&self) -> (r: usize)
        ensures
            r == self.row_count(),
    {
        self.rows
    }

    /// The values of a column of the given type. Fails where there is no such column, or it is of
    /// another type.
    pub fn select(&self, name: &ColumnName, data_type: &DataType) -> (r: DeltaResult<&ColumnValues>)
        ensures
            match r {
                Ok(values) => selected(*self, name@, data_type@) == Ok::<ColumnValues, ErrorV>(
                    *values,
                ) && values.count() == self.row_count(),
                Err(e) => selected(*self, name@, data_type@) == Err::<ColumnValues, ErrorV>(e@),
            },
    {
        proof {
            use_type_invariant(self);
        }
        let mut i: usize = 0;
        while i < self.columns.len()
            invariant
                self.well_formed(),
                i <= self.columns@.len(),
                self.first_column(name@, 0) == self.first_column(name@, i as int),
                forall|j: int| 0 <= j < i ==> (#[trigger] self.column_list()[j]).0 != name@,
            decreases self.columns@.len() - i,
        {
            assert(self.column_list()[i as int] == (
                self.columns@[i as int].0@,
                self.columns@[i as int].1,
            ));
            if self.columns[i].0 == *name {
                let values = &self.columns[i].1;
                assert(self.values_of(name@) == Some(*values));
                if let DataType::Primitive(p) = data_type {
                    if values.fits(p) {
                        return Ok(values);
                    }
                }
                return Err(
                    Error::UnexpectedColumnType(
                        cat3(
                            name.text().as_str(),
                            " is not of type ",
                            data_type.text().as_str(),
                        ),
                    ),
                );
            }
            i = i + 1;
        }
        Err(Error::MissingColumn(name.text()))
    }
}

/// The values of a column of the given type in a batch, or the error.
pub open spec fn selected(b: Batch, path: Seq<Seq<char>>, t: TypeV) -> Result<
    ColumnValues,
    ErrorV,
> {
    match b.values_of(path) {
        None => Err(ErrorV::MissingColumn(column_text(path))),
        Some(values) => if t is Primitive && values.is_of(t->Primitive_0) {
            Ok(values)
        } else {
            Err(
                unexpected_type_error(
                    column_text(path),
                    crate::schema::display::type_text(t),
                ),
            )
        },
    }
}

} // verus!
