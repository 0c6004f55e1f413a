//! The errors of the library.
use vstd::prelude::*;

use crate::text::owned;

verus! {

/// What went wrong, each with the text that says so.
#[derive(Debug)]
pub enum Error {
    /// Any failure that has no variant of its own.
    Generic(String),
    /// A schema that breaks a rule for schemas.
    Schema(String),
    /// A column that was asked for by name and is not there.
    MissingColumn(String),
    /// A precision or scale that no decimal type has.
    InvalidDecimal(String),
    /// A state that correct code does not reach.
    InternalError(String),
    /// A table that uses what is not supported.
    Unsupported(String),
    /// File statistics that are not as the protocol demands.
    StatsValidation(String),
    /// A checkpoint that cannot be written as asked.
    CheckpointWrite(String),
    /// A schema text or value that cannot be read.
    Json(String),
    /// A value that does not have the type that was asked for.
    UnexpectedColumnType(String),
    /// A value that is absent where one must be.
    MissingData(String),
    /// A failure to convert from or to Arrow.
    Arrow(Box<ArrowError>),
}

/// What can go wrong in a conversion from or to Arrow.
#[derive(Debug)]
pub enum ArrowError {
    /// A type that has no counterpart.
    SchemaError(String),
    /// Any other error of the library.
    ExternalError(Box<Error>),
}

/// The model of [`ArrowError`].
pub enum ArrowErrorV {
    SchemaError(Seq<char>),
    ExternalError(Box<ErrorV>),
}

/// The model of [`Error`].
pub enum ErrorV {
    Generic(Seq<char>),
    Schema(Seq<char>),
    MissingColumn(Seq<char>),
    InvalidDecimal(Seq<char>),
    InternalError(Seq<char>),
    Unsupported(Seq<char>),
    StatsValidation(Seq<char>),
    CheckpointWrite(Seq<char>),
    Json(Seq<char>),
    UnexpectedColumnType(Seq<char>),
    MissingData(Seq<char>),
    Arrow(Box<ArrowErrorV>),
}

/// The result of an operation that can fail with an [`Error`].
pub type DeltaResult<T> = Result<T, Error>;

impl ArrowError {
    /// The model of the error.
    pub open spec fn view(&self) -> ArrowErrorV
        decreases self,
    {
        match self {
            ArrowError::SchemaError(text) => ArrowErrorV::SchemaError(text@),
            ArrowError::ExternalError(e) => ArrowErrorV::ExternalError(Box::new(e.view())),
        }
    }
}

impl Error {
    /// The model of the error.
    pub open spec fn view(&self) -> ErrorV
        decreases self,
    {
        match self {
            Error::Arrow(e) => ErrorV::Arrow(Box::new(e.view())),
            Error::Generic(text) => ErrorV::Generic(text@),
            Error::Schema(text) => ErrorV::Schema(text@),
            Error::MissingColumn(text) => ErrorV::MissingColumn(text@),
            Error::InvalidDecimal(text) => ErrorV::InvalidDecimal(text@),
            Error::InternalError(text) => ErrorV::InternalError(text@),
            Error::Unsupported(text) => ErrorV::Unsupported(text@),
            Error::StatsValidation(text) => ErrorV::StatsValidation(text@),
            Error::CheckpointWrite(text) => ErrorV::CheckpointWrite(text@),
            Error::Json(text) => ErrorV::Json(text@),
            Error::UnexpectedColumnType(text) => ErrorV::UnexpectedColumnType(text@),
            Error::MissingData(text) => ErrorV::MissingData(text@),
        }
    }
}

impl ErrorV {
    /// The text that the error carries.
    pub open spec fn text(self) -> Seq<char>
        decreases self,
    {
        match self {
            ErrorV::Arrow(e) => match *e {
                ArrowErrorV::SchemaError(text) => text,
                ArrowErrorV::ExternalError(inner) => inner.text(),
            },
            ErrorV::Generic(text) => text,
            ErrorV::Schema(text) => text,
            ErrorV::MissingColumn(text) => text,
            ErrorV::InvalidDecimal(text) => text,
            ErrorV::InternalError(text) => text,
            ErrorV::Unsupported(text) => text,
            ErrorV::StatsValidation(text) => text,
            ErrorV::CheckpointWrite(text) => text,
            ErrorV::Json(text) => text,
            ErrorV::UnexpectedColumnType(text) => text,
            ErrorV::MissingData(text) => text,
        }
    }
}

impl Error {
    /// The text that the error carries.
    pub fn text(&self) -> (r: &str)
        ensures
            r@ == self@.text(),
        decreases self,
    {
        match self {
            Error::Arrow(e) => match &**e {
                ArrowError::SchemaError(text) => text.as_str(),
                ArrowError::ExternalError(inner) => inner.text(),
            },
            Error::Generic(text) => text.as_str(),
            Error::Schema(text) => text.as_str(),
            Error::MissingColumn(text) => text.as_str(),
            Error::InvalidDecimal(text) => text.as_str(),
            Error::InternalError(text) => text.as_str(),
            Error::Unsupported(text) => text.as_str(),
            Error::StatsValidation(text) => text.as_str(),
            Error::CheckpointWrite(text) => text.as_str(),
            Error::Json(text) => text.as_str(),
            Error::UnexpectedColumnType(text) => text.as_str(),
            Error::MissingData(text) => text.as_str(),
        }
    }

    /// A failure that has no variant of its own.
    pub fn generic(text: &str) -> (r: Error)
        ensures
            r@ == ErrorV::Generic(text@),
    {
        Error::Generic(owned(text))
    }

    /// A broken rule for schemas.
    pub fn schema(text: &str) -> (r: Error)
        ensures
            r@ == ErrorV::Schema(text@),
    {
        Error::Schema(owned(text))
    }

    /// A column that is not there.
    pub fn missing_column(name: &str) -> (r: Error)
        ensures
            r@ == ErrorV::MissingColumn(name@),
    {
        Error::MissingColumn(owned(name))
    }

    /// A state that correct code does not reach.
    pub fn internal_error(text: &str) -> (r: Error)
        ensures
            r@ == ErrorV::InternalError(text@),
    {
        Error::InternalError(owned(text))
    }
}

} // verus!
