//! Column mapping: whether and how columns are found by ids or physical names.
use vstd::prelude::*;

verus! {

/// How the columns of a table are mapped to those of its files.
#[derive(Clone, Copy, Debug, PartialEq, Eq, Structural)]
pub enum ColumnMappingMode {
    /// No mapping: columns have their logical names in the files.
    Disabled,
    /// By the ids of fields.
    Id,
    /// By physical names.
    Name,
}

} // verus!
