//! Metadata of fields: its keys and values, and the columns that it marks.
use vstd::prelude::*;

use crate::error::{DeltaResult, Error};
use crate::json::{json_clone, json_eq, json_to_debug_text, json_to_text};
use crate::text::{cat2, cat3, flag_text, i64_text, owned, text_eq};
use crate::text_map::TextMap;

#[allow(unused_imports)]
use crate::error::ErrorV;
#[allow(unused_imports)]
use crate::json::{json_equal, json_view, JsonV};

verus! {

/// A value in the metadata of a field. The protocol allows any JSON here; `Other` holds what is
/// neither an integer, nor a string, nor a boolean.
#[derive(Debug)]
pub enum MetadataValue {
    Number(i64),
    String(String),
    Boolean(bool),
    Other(serde_json::Value),
}

/// The model of [`MetadataValue`].
pub enum MetaV {
    Number(i64),
    String(Seq<char>),
    Boolean(bool),
    Other(JsonV),
}

/// The metadata of a field.
pub type MetadataMap = TextMap<MetadataValue>;

impl View for MetadataValue {
    type V = MetaV;

    open spec fn view(&self) -> MetaV {
        match self {
            MetadataValue::Number(n) => MetaV::Number(*n),
            MetadataValue::String(s) => MetaV::String(s@),
            MetadataValue::Boolean(b) => MetaV::Boolean(*b),
            MetadataValue::Other(v) => MetaV::Other(json_view(*v)),
        }
    }
}

/// Whether two metadata values are equal.
pub open spec fn same_value(a: MetaV, b: MetaV) -> bool {
    match (a, b) {
        (MetaV::Other(x), MetaV::Other(y)) => json_equal(x, y),
        _ => a == b,
    }
}

/// Metadata with its values as models.
pub open spec fn meta_view(m: Map<Seq<char>, MetadataValue>) -> Map<Seq<char>, MetaV> {
    m.map_values(|v: MetadataValue| v@)
}

/// Whether two metadata maps are equal: the same keys, with equal values.
pub open spec fn same_metadata(a: Map<Seq<char>, MetaV>, b: Map<Seq<char>, MetaV>) -> bool {
    &&& a.dom() == b.dom()
    &&& forall|k: Seq<char>| #[trigger] a.contains_key(k) ==> same_value(a[k], b[k])
}

/// The text of a metadata value: a string as it is, anything else as JSON.
pub open spec fn meta_text(v: MetaV) -> Seq<char> {
    match v {
        MetaV::Number(n) => crate::text::int_text(n as int),
        MetaV::String(s) => s,
        MetaV::Boolean(b) => crate::text::bool_text(b),
        MetaV::Other(j) => crate::json::json_text(j),
    }
}

/// What `{:?}` of std writes for a string: in quotes, with escapes.
pub uninterp spec fn quoted(s: Seq<char>) -> Seq<char>;

/// `Debug` of `str` of std, by the name of its result.
#[verifier::external_body]
pub(crate) fn quoted_text(s: &str) -> (r: String)
    ensures
        r@ == quoted(s@),
{
    format!("{s:?}")
}

/// A metadata value with its kind, as in the text of a field.
pub open spec fn meta_debug_text(v: MetaV) -> Seq<char> {
    match v {
        MetaV::Number(n) => "Number("@ + crate::text::int_text(n as int) + ")"@,
        MetaV::String(s) => "String("@ + quoted(s) + ")"@,
        MetaV::Boolean(b) => "Boolean("@ + crate::text::bool_text(b) + ")"@,
        MetaV::Other(j) => "Other("@ + crate::json::json_debug_text(j) + ")"@,
    }
}

impl MetadataValue {
    /// The text of the value: a string as it is, anything else as JSON.
    pub fn text(&self) -> (r: String)
        ensures
            r@ == meta_text(self@),
    {
        match self {
            MetadataValue::Number(n) => i64_text(*n),
            MetadataValue::String(s) => s.clone(),
            MetadataValue::Boolean(b) => owned(flag_text(*b)),
            MetadataValue::Other(v) => json_to_text(v),
        }
    }

    pub(crate) fn debug_text(&self) -> (r: String)
        ensures
            r@ == meta_debug_text(self@),
    {
        match self {
            MetadataValue::Number(n) => cat3("Number(", i64_text(*n).as_str(), ")"),
            MetadataValue::String(s) => cat3("String(", quoted_text(s.as_str()).as_str(), ")"),
            MetadataValue::Boolean(b) => cat3("Boolean(", flag_text(*b), ")"),
            MetadataValue::Other(v) => cat3("Other(", json_to_debug_text(v).as_str(), ")"),
        }
    }
}

impl Clone for MetadataValue {
    fn clone(&self) -> (r: Self)
        ensures
            r@ == self@,
    {
        match self {
            MetadataValue::Number(n) => MetadataValue::Number(*n),
            MetadataValue::String(s) => MetadataValue::String(s.clone()),
            MetadataValue::Boolean(b) => MetadataValue::Boolean(*b),
            MetadataValue::Other(v) => MetadataValue::Other(json_clone(v)),
        }
    }
}

impl PartialEq for MetadataValue {
    fn eq(&self, other: &Self) -> (r: bool) {
        match (self, other) {
            (MetadataValue::Number(a), MetadataValue::Number(b)) => *a == *b,
            (MetadataValue::String(a), MetadataValue::String(b)) => text_eq(a.as_str(), b.as_str()),
            (MetadataValue::Boolean(a), MetadataValue::Boolean(b)) => *a == *b,
            (MetadataValue::Other(a), MetadataValue::Other(b)) => json_eq(a, b),
            _ => false,
        }
    }
}

impl vstd::std_specs::cmp::PartialEqSpecImpl for MetadataValue {
    open spec fn obeys_eq_spec() -> bool {
        true
    }

    open spec fn eq_spec(&self, other: &Self) -> bool {
        same_value(self@, other@)
    }
}

impl Eq for MetadataValue {

}

impl From<String> for MetadataValue {
    fn from(value: String) -> (r: Self) {
        MetadataValue::String(value)
    }
}

impl vstd::std_specs::convert::FromSpecImpl<String> for MetadataValue {
    open spec fn obeys_from_spec() -> bool {
        true
    }

    open spec fn from_spec(value: String) -> MetadataValue {
        MetadataValue::String(value)
    }
}

impl From<&String> for MetadataValue {
    fn from(value: &String) -> (r: Self) {
        MetadataValue::String(value.clone())
    }
}

impl vstd::std_specs::convert::FromSpecImpl<&String> for MetadataValue {
    open spec fn obeys_from_spec() -> bool {
        true
    }

    open spec fn from_spec(value: &String) -> MetadataValue {
        MetadataValue::String(*value)
    }
}

impl From<&str> for MetadataValue {
    fn from(value: &str) -> (r: Self)
        ensures
            r@ == MetaV::String(value@),
    {
        MetadataValue::String(owned(value))
    }
}

impl vstd::std_specs::convert::FromSpecImpl<&str> for MetadataValue {
    open spec fn obeys_from_spec() -> bool {
        false
    }

    open spec fn from_spec(value: &str) -> MetadataValue {
        arbitrary()
    }
}

impl From<i64> for MetadataValue {
    fn from(value: i64) -> (r: Self) {
        MetadataValue::Number(value)
    }
}

impl vstd::std_specs::convert::FromSpecImpl<i64> for MetadataValue {
    open spec fn obeys_from_spec() -> bool {
        true
    }

    open spec fn from_spec(value: i64) -> MetadataValue {
        MetadataValue::Number(value)
    }
}

impl From<bool> for MetadataValue {
    fn from(value: bool) -> (r: Self) {
        MetadataValue::Boolean(value)
    }
}

impl vstd::std_specs::convert::FromSpecImpl<bool> for MetadataValue {
    open spec fn obeys_from_spec() -> bool {
        true
    }

    open spec fn from_spec(value: bool) -> MetadataValue {
        MetadataValue::Boolean(value)
    }
}

/// A copy of a metadata map.
pub(crate) fn clone_metadata(m: &MetadataMap) -> (r: MetadataMap)
    ensures
        meta_view(r@) == meta_view(m@),
{
    let n: usize = m.len();
    let mut r: MetadataMap = TextMap::new();
    let ghost list = m.list();
    let mut i: usize = 0;
    assert(list.take(0) =~= seq![]);
    while i < n
        invariant
            i <= n,
            n == list.len(),
            list == m.list(),
            meta_view(r@) == meta_view(crate::text_map::map_of(list.take(i as int))),
        decreases n - i,
    {
        let (key, value) = m.entry(i);
        assert(list.take(i + 1).drop_last() =~= list.take(i as int));
        let ghost before = r@;
        let ghost old_map = crate::text_map::map_of(list.take(i as int));
        let copy = value.clone();
        r.insert(key.clone(), copy);
        assert(meta_view(r@) =~= meta_view(before).insert(key@, value@));
        assert(meta_view(old_map.insert(key@, *value)) =~= meta_view(old_map).insert(key@, value@));
        i = i + 1;
    }
    assert(list.take(n as int) =~= list);
    r
}

/// Whether two metadata maps are equal.
pub(crate) fn metadata_eq(a: &MetadataMap, b: &MetadataMap) -> (r: bool)
    ensures
        r == same_metadata(meta_view(a@), meta_view(b@)),
{
    let n: usize = a.len();
    let m: usize = b.len();
    let ghost list = a.list();
    proof {
        crate::text_map::lemma_map_of(list);
    }
    if n != m {
        assert(meta_view(a@).dom() =~= a@.dom());
        assert(meta_view(b@).dom() =~= b@.dom());
        return false;
    }
    let mut i: usize = 0;
    while i < n
        invariant
            i <= n,
            n == list.len(),
            list == a.list(),
            forall|j: int|
                0 <= j < list.len() ==> a@.contains_key((#[trigger] list[j]).0) && a@[list[j].0]
                    == list[j].1,
            forall|j: int|
                0 <= j < i ==> b@.contains_key((#[trigger] list[j]).0) && same_value(
                    list[j].1@,
                    b@[list[j].0]@,
                ),
        decreases n - i,
    {
        let (key, value) = a.entry(i);
        assert(a@.contains_key(list[i as int].0));
        assert(meta_view(a@).contains_key(key@));
        match b.get(key.as_str()) {
            None => {
                assert(!meta_view(b@).contains_key(key@));
                return false;
            },
            Some(v) => {
                if *value != *v {
                    assert(!same_value(meta_view(a@)[key@], meta_view(b@)[key@]));
                    return false;
                }
            },
        }
        i = i + 1;
    }
    proof {
        assert forall|k: Seq<char>| #[trigger] a@.contains_key(k) implies b@.contains_key(k)
            && same_value(a@[k]@, b@[k]@) by {
            let j = choose|j: int| 0 <= j < list.len() && (#[trigger] list[j]).0 == k;
            assert(list[j].0 == k);
        }
        assert(a@.dom().subset_of(b@.dom()));
        vstd::set_lib::lemma_subset_equality(a@.dom(), b@.dom());
        assert(meta_view(a@).dom() =~= meta_view(b@).dom());
    }
    true
}

/// A key in the metadata of a field that has a meaning of its own.
#[derive(Debug)]
pub enum ColumnMetadataKey {
    ColumnMappingId,
    ColumnMappingPhysicalName,
    ParquetFieldId,
    GenerationExpression,
    IdentityStart,
    IdentityStep,
    IdentityHighWaterMark,
    IdentityAllowExplicitInsert,
    InternalColumn,
    Invariants,
    MetadataSpec,
}

impl ColumnMetadataKey {
    /// The key as it stands in the metadata.
    pub open spec fn key(self) -> Seq<char> {
        match self {
            ColumnMetadataKey::ColumnMappingId => "delta.columnMapping.id"@,
            ColumnMetadataKey::ColumnMappingPhysicalName => "delta.columnMapping.physicalName"@,
            ColumnMetadataKey::ParquetFieldId => "parquet.field.id"@,
            ColumnMetadataKey::GenerationExpression => "delta.generationExpression"@,
            ColumnMetadataKey::IdentityAllowExplicitInsert => "delta.identity.allowExplicitInsert"@,
            ColumnMetadataKey::IdentityHighWaterMark => "delta.identity.highWaterMark"@,
            ColumnMetadataKey::IdentityStart => "delta.identity.start"@,
            ColumnMetadataKey::IdentityStep => "delta.identity.step"@,
            ColumnMetadataKey::InternalColumn => "delta.isInternalColumn"@,
            ColumnMetadataKey::Invariants => "delta.invariants"@,
            ColumnMetadataKey::MetadataSpec => "delta.metadataSpec"@,
        }
    }

    /// The key as it stands in the metadata.
    pub fn as_ref(&self) -> (r: &'static str)
        ensures
            r@ == self.key(),
    {
        match self {
            ColumnMetadataKey::ColumnMappingId => "delta.columnMapping.id",
            ColumnMetadataKey::ColumnMappingPhysicalName => "delta.columnMapping.physicalName",
            // not defined by the Delta protocol, but the convention of Delta implementations for
            // Parquet field ids in the metadata of a field
            ColumnMetadataKey::ParquetFieldId => "parquet.field.id",
            ColumnMetadataKey::GenerationExpression => "delta.generationExpression",
            ColumnMetadataKey::IdentityAllowExplicitInsert => "delta.identity.allowExplicitInsert",
            ColumnMetadataKey::IdentityHighWaterMark => "delta.identity.highWaterMark",
            ColumnMetadataKey::IdentityStart => "delta.identity.start",
            ColumnMetadataKey::IdentityStep => "delta.identity.step",
            ColumnMetadataKey::InternalColumn => "delta.isInternalColumn",
            ColumnMetadataKey::Invariants => "delta.invariants",
            ColumnMetadataKey::MetadataSpec => "delta.metadataSpec",
        }
    }
}

/// The metadata columns: columns that tell about rows of a table rather than hold its data.
#[derive(Clone, Copy, Debug, PartialEq, Eq, Structural, Hash)]
pub enum MetadataColumnSpec {
    RowIndex,
    RowId,
    RowCommitVersion,
    FilePath,
}

/// The reserved field id of the column with the path of the file.
pub const FILE_NAME: i64 = 2147483646;

/// The name of a metadata column's kind.
pub open spec fn spec_text(s: MetadataColumnSpec) -> Seq<char> {
    match s {
        MetadataColumnSpec::RowIndex => "row_index"@,
        MetadataColumnSpec::RowId => "row_id"@,
        MetadataColumnSpec::RowCommitVersion => "row_commit_version"@,
        MetadataColumnSpec::FilePath => "_file"@,
    }
}

/// The kind of metadata column that a name stands for.
pub open spec fn spec_named(name: Seq<char>) -> Option<MetadataColumnSpec> {
    if name == "row_index"@ {
        Some(MetadataColumnSpec::RowIndex)
    } else if name == "row_id"@ {
        Some(MetadataColumnSpec::RowId)
    } else if name == "row_commit_version"@ {
        Some(MetadataColumnSpec::RowCommitVersion)
    } else if name == "_file"@ {
        Some(MetadataColumnSpec::FilePath)
    } else {
        None
    }
}

/// Each kind of metadata column is found again by its name.
pub proof fn law_spec_text_round_trip(s: MetadataColumnSpec)
    ensures
        spec_named(spec_text(s)) == Some(s),
{
    reveal_strlit("row_index");
    reveal_strlit("row_id");
    reveal_strlit("row_commit_version");
    reveal_strlit("_file");
    assert("row_index"@.len() == 9);
    assert("row_id"@.len() == 6);
    assert("row_commit_version"@.len() == 18);
    assert("_file"@.len() == 5);
}

/// The name of the variant, as `Debug` writes it.
pub open spec fn spec_debug_text(s: MetadataColumnSpec) -> Seq<char> {
    match s {
        MetadataColumnSpec::RowIndex => "RowIndex"@,
        MetadataColumnSpec::RowId => "RowId"@,
        MetadataColumnSpec::RowCommitVersion => "RowCommitVersion"@,
        MetadataColumnSpec::FilePath => "FilePath"@,
    }
}

impl MetadataColumnSpec {
    /// A human-readable name for the metadata column.
    pub fn text_value(&self) -> (r: &'static str)
        ensures
            r@ == spec_text(*self),
    {
        match self {
            MetadataColumnSpec::RowIndex => "row_index",
            MetadataColumnSpec::RowId => "row_id",
            MetadataColumnSpec::RowCommitVersion => "row_commit_version",
            MetadataColumnSpec::FilePath => "_file",
        }
    }

    /// Whether the metadata column can be null: none can.
    pub fn nullable(&self) -> (r: bool)
        ensures
            r == false,
    {
        match self {
            MetadataColumnSpec::RowIndex => false,
            MetadataColumnSpec::RowId => false,
            MetadataColumnSpec::RowCommitVersion => false,
            MetadataColumnSpec::FilePath => false,
        }
    }

    /// The reserved field id of the metadata column, if it has one.
    pub fn reserved_field_id(&self) -> (r: Option<i64>)
        ensures
            r == (if *self is FilePath {
                Some(FILE_NAME)
            } else {
                None
            }),
    {
        match self {
            MetadataColumnSpec::FilePath => Some(FILE_NAME),
            _ => None,
        }
    }

    pub(crate) fn debug_text(&self) -> (r: &'static str)
        ensures
            r@ == spec_debug_text(*self),
    {
        match self {
            MetadataColumnSpec::RowIndex => "RowIndex",
            MetadataColumnSpec::RowId => "RowId",
            MetadataColumnSpec::RowCommitVersion => "RowCommitVersion",
            MetadataColumnSpec::FilePath => "FilePath",
        }
    }

    /// The kind of metadata column that a name stands for.
    pub fn from_str(s: &str) -> (r: DeltaResult<Self>)
        ensures
            match r {
                Ok(spec) => spec_named(s@) == Some(spec),
                Err(e) => spec_named(s@) is None && e@ == ErrorV::Schema(
                    "Unknown metadata column spec: "@ + s@,
                ),
            },
    {
        if text_eq(s, "row_index") {
            Ok(MetadataColumnSpec::RowIndex)
        } else if text_eq(s, "row_id") {
            Ok(MetadataColumnSpec::RowId)
        } else if text_eq(s, "row_commit_version") {
            Ok(MetadataColumnSpec::RowCommitVersion)
        } else if text_eq(s, "_file") {
            Ok(MetadataColumnSpec::FilePath)
        } else {
            Err(Error::Schema(cat2("Unknown metadata column spec: ", s)))
        }
    }
}

/// The texts of metadata values with their kinds, one by one.
pub proof fn law_metadata_values_with_their_kinds(v: MetaV)
    ensures
        meta_debug_text(v) == (match v {
            MetaV::Number(n) => "Number("@ + crate::text::int_text(n as int) + ")"@,
            MetaV::String(s) => "String("@ + quoted(s) + ")"@,
            MetaV::Boolean(true) => "Boolean("@ + "true"@ + ")"@,
            MetaV::Boolean(false) => "Boolean("@ + "false"@ + ")"@,
            MetaV::Other(j) => "Other("@ + crate::json::json_debug_text(j) + ")"@,
        }),
{
}

} // verus!
