//! Features of tables, and what a table must declare to use them.
use vstd::prelude::*;

use crate::error::{DeltaResult, Error};
use crate::schema::primitive::PrimitiveType;
use crate::schema::types::{DataType, Schema, StructType};
use crate::text::owned;

#[allow(unused_imports)]
use crate::error::ErrorV;
#[allow(unused_imports)]
use crate::schema::types::{lemma_struct_parts, lemma_type_parts, EntryV, TypeV};

verus! {

/// A feature that a table can declare.
#[derive(Clone, Copy, Debug, PartialEq, Eq, Structural)]
pub enum TableFeature {
    /// Columns of half-precision floating point numbers
    Float16,
}

/// The features that readers and writers of a table must support.
#[derive(Debug)]
pub struct Protocol {
    pub reader_features: Vec<TableFeature>,
    pub writer_features: Vec<TableFeature>,
}

impl Protocol {
    /// Whether a feature is declared for readers and for writers.
    pub open spec fn declares(self, feature: TableFeature) -> bool {
        self.reader_features@.contains(feature) && self.writer_features@.contains(feature)
    }

    /// Whether a feature is declared for readers and for writers.
    pub fn has_table_feature(&self, feature: &TableFeature) -> (r: bool)
        ensures
            r == self.declares(*feature),
    {
        among(&self.reader_features, feature) && among(&self.writer_features, feature)
    }
}

fn among(features: &Vec<TableFeature>, feature: &TableFeature) -> (r: bool)
    ensures
        r == features@.contains(*feature),
{
    let mut i: usize = 0;
    while i < features.len()
        invariant
            i <= features@.len(),
            forall|j: int| 0 <= j < i ==> features@[j] != *feature,
        decreases features@.len() - i,
    {
        if features[i] == *feature {
            return true;
        }
        i = i + 1;
    }
    false
}

/// Whether a type is that of half-precision floating point numbers, or holds it.
pub open spec fn holds_float16(t: TypeV) -> bool
    decreases t,
{
    match t {
        TypeV::Primitive(p) => p is Float16,
        TypeV::Array(a) => holds_float16(a.element),
        TypeV::MapOf(m) => holds_float16(m.key) || holds_float16(m.value),
        TypeV::Struct(s) => any_holds_float16(s.entries),
        TypeV::Variant(s) => any_holds_float16(s.entries),
    }
}

/// Whether one of the fields holds the type of half-precision floating point numbers.
pub open spec fn any_holds_float16(entries: Seq<EntryV>) -> bool
    decreases entries,
{
    if entries.len() == 0 {
        false
    } else {
        any_holds_float16(entries.drop_last()) || holds_float16(entries.last().field.data_type)
    }
}

proof fn lemma_any_grows(entries: Seq<EntryV>, n: int)
    requires
        0 <= n <= entries.len(),
        any_holds_float16(entries.take(n)),
    ensures
        any_holds_float16(entries),
    decreases entries.len(),
{
    if n == entries.len() {
        assert(entries.take(n) =~= entries);
    } else {
        assert(entries.drop_last().take(n) =~= entries.take(n));
        lemma_any_grows(entries.drop_last(), n);
    }
}

fn float16_in_type(t: &DataType) -> (r: bool)
    ensures
        r == holds_float16(t@),
    decreases t@,
{
    proof {
        lemma_type_parts(t@);
    }
    match t {
        DataType::Primitive(p) => *p == PrimitiveType::Float16,
        DataType::Array(a) => float16_in_type(&a.element_type),
        DataType::MapOf(m) => float16_in_type(&m.key_type) || float16_in_type(&m.value_type),
        DataType::Struct(s) => float16_in_struct(s),
        DataType::Variant(s) => float16_in_struct(s),
    }
}

fn float16_in_struct(s: &StructType) -> (r: bool)
    ensures
        r == any_holds_float16(s@.entries),
    decreases s@,
{
    let n: usize = s.num_fields();
    let ghost entries = s@.entries;
    let mut i: usize = 0;
    while i < n
        invariant
            i <= n,
            n == entries.len(),
            entries == s@.entries,
            !any_holds_float16(entries.take(i as int)),
        decreases n - i,
    {
        proof {
            lemma_struct_parts(s@, i as int);
            assert(entries.take(i + 1).drop_last() =~= entries.take(i as int));
            assert(entries.take(i + 1).last() == entries[i as int]);
        }
        if let Some(field) = s.field_at_index(i) {
            if float16_in_type(&field.data_type) {
                proof {
                    lemma_any_grows(entries, i + 1);
                }
                return true;
            }
        }
        i = i + 1;
    }
    assert(entries.take(n as int) =~= entries);
    false
}

/// Checks if any column in the schema (including nested structs, arrays, maps) uses the FLOAT16
/// primitive type.
pub fn schema_contains_float16(schema: &Schema) -> (r: bool)
    ensures
        r == any_holds_float16(schema@.entries),
{
    float16_in_struct(schema)
}

/// Validates that if a table schema contains FLOAT16 columns, the table has the Float16 feature in
/// both reader and writer features.
pub fn validate_float16_feature_support(protocol: &Protocol, logical_schema: &Schema) -> (r:
    DeltaResult<()>)
    ensures
        match r {
            Ok(_) => protocol.declares(TableFeature::Float16) || !any_holds_float16(
                logical_schema@.entries,
            ),
            Err(e) => !protocol.declares(TableFeature::Float16) && any_holds_float16(
                logical_schema@.entries,
            ) && e@ == ErrorV::Unsupported(
                "Table contains FLOAT16 columns but does not have the required 'float16' feature in reader and writer features"@,
            ),
        },
{
    if !protocol.has_table_feature(&TableFeature::Float16) {
        if schema_contains_float16(logical_schema) {
            return Err(
                Error::Unsupported(
                    owned(
                        "Table contains FLOAT16 columns but does not have the required 'float16' feature in reader and writer features",
                    ),
                ),
            );
        }
    }
    Ok(())
}

/// A table declares a feature where both its features for readers and those for writers name it.
pub proof fn law_declared_features(p: Protocol, f: TableFeature)
    ensures
        p.declares(f) <==> (exists|i: int|
            0 <= i < p.reader_features@.len() && #[trigger] p.reader_features@[i] == f) && (exists|
            i: int,
        |
            0 <= i < p.writer_features@.len() && #[trigger] p.writer_features@[i] == f),
{
}

} // verus!
