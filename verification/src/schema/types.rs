//! Data types and fields: their models, and how they are compared and copied.
use vstd::prelude::*;

use indexmap::IndexMap;

use crate::schema::metadata::{clone_metadata, metadata_eq, MetadataColumnSpec, MetadataMap};
use crate::schema::primitive::PrimitiveType;
use crate::text::text_eq;

#[allow(unused_imports)]
use crate::schema::metadata::{meta_view, same_metadata, MetaV};

verus! {

/// A (possibly nested) column.
#[derive(Debug)]
pub struct StructField {
    /// Name of this (possibly nested) column
    pub name: String,
    /// The data type of this field
    pub data_type: DataType,
    /// Denotes whether this field can be null
    pub nullable: bool,
    /// A JSON map containing information about this column
    pub metadata: MetadataMap,
}

/// A data type.
#[derive(Debug)]
pub enum DataType {
    /// A type without parts
    Primitive(PrimitiveType),
    /// An array stores a variable length collection of items of some type.
    Array(Box<ArrayType>),
    /// A struct is used to represent both the top-level schema of the table as well
    /// as struct columns that contain nested columns.
    Struct(Box<StructType>),
    /// A map stores an arbitrary length collection of key-value pairs
    /// with a single key type and a single value type
    MapOf(Box<MapType>),
    /// The variant type. Its unshredded form is a struct of two binary fields, `metadata` and
    /// `value`.
    Variant(Box<StructType>),
}

/// An array type.
#[derive(Debug)]
pub struct ArrayType {
    /// `array`
    pub type_label: String,
    /// The type of element stored in this array
    pub element_type: DataType,
    /// Denoting whether this array can contain one or more null values
    pub contains_null: bool,
}

/// A map type.
#[derive(Debug)]
pub struct MapType {
    /// `map`
    pub type_label: String,
    /// The type of element used for the key of this map
    pub key_type: DataType,
    /// The type of element used for the value of this map
    pub value_type: DataType,
    /// Denoting whether this map can contain one or more null values
    pub value_contains_null: bool,
}

/// A struct type: fields, each under a name of its own, in a fixed order.
#[derive(Debug)]
pub struct StructType {
    pub(crate) type_label: String,
    pub(crate) fields: FieldMap,
    pub(crate) metadata_columns: MetadataPositions,
}

/// A schema is the struct type of the rows of a table.
pub type Schema = StructType;

/// A schema that is shared.
pub type SchemaRef = std::sync::Arc<StructType>;

/// The fields of a struct type: an `IndexMap` of `indexmap`, from names to fields in the order in
/// which the names came.
#[verifier::external_body]
#[derive(Debug)]
pub struct FieldMap {
    inner: IndexMap<String, StructField>,
}

/// Where the metadata columns stand among the fields.
#[derive(Clone, Copy, Debug)]
pub struct MetadataPositions {
    row_index: Option<usize>,
    row_id: Option<usize>,
    row_commit_version: Option<usize>,
    file_path: Option<usize>,
}

/// The model of [`DataType`].
pub enum TypeV {
    Primitive(PrimitiveType),
    Array(Box<ArrayV>),
    Struct(Box<StructV>),
    MapOf(Box<MapV>),
    Variant(Box<StructV>),
}

/// The model of [`ArrayType`].
pub struct ArrayV {
    pub label: Seq<char>,
    pub element: TypeV,
    pub contains_null: bool,
}

/// The model of [`MapType`].
pub struct MapV {
    pub label: Seq<char>,
    pub key: TypeV,
    pub value: TypeV,
    pub value_contains_null: bool,
}

/// The model of [`StructType`].
pub struct StructV {
    pub label: Seq<char>,
    /// The fields in order, each with the name under which it is found.
    pub entries: Seq<EntryV>,
    /// Where the metadata columns stand among the fields.
    pub specials: Map<MetadataColumnSpec, int>,
}

/// A field and its name, under which a struct holds it.
pub struct EntryV {
    pub key: Seq<char>,
    pub field: FieldV,
}

/// The model of [`StructField`].
pub struct FieldV {
    pub name: Seq<char>,
    pub data_type: TypeV,
    pub nullable: bool,
    pub metadata: Map<Seq<char>, MetaV>,
}

/// What a field map holds, in order.
pub uninterp spec fn field_entries(m: FieldMap) -> Seq<EntryV>;

/// Whether one of the entries stands under this name.
pub open spec fn has_key(entries: Seq<EntryV>, key: Seq<char>) -> bool {
    exists|i: int| 0 <= i < entries.len() && (#[trigger] entries[i]).key == key
}

/// The position of the entry that stands under this name.
pub open spec fn key_index(entries: Seq<EntryV>, key: Seq<char>) -> int {
    choose|i: int| 0 <= i < entries.len() && (#[trigger] entries[i]).key == key
}

/// Whether no two entries stand under the same name.
pub open spec fn distinct_keys(entries: Seq<EntryV>) -> bool {
    forall|i: int, j: int|
        0 <= i < entries.len() && 0 <= j < entries.len() && (#[trigger] entries[i]).key == (
        #[trigger] entries[j]).key ==> i == j
}

/// The fields of entries.
pub open spec fn entry_fields(entries: Seq<EntryV>) -> Seq<FieldV> {
    Seq::new(entries.len(), |i: int| entries[i].field)
}

/// Where the metadata columns stand among the first `n` fields: of each kind the last one.
pub open spec fn positions(fields: Seq<FieldV>, n: int) -> Map<MetadataColumnSpec, int>
    decreases n,
{
    if n <= 0 {
        Map::empty()
    } else {
        match fields[n - 1].metadata_spec() {
            Some(s) => positions(fields, n - 1).insert(s, n - 1),
            None => positions(fields, n - 1),
        }
    }
}

/// Where the metadata columns stand among the fields of entries.
pub open spec fn entry_positions(entries: Seq<EntryV>) -> Map<MetadataColumnSpec, int> {
    positions(entry_fields(entries), entries.len() as int)
}

/// Whether each field stands under its own name.
pub open spec fn own_names(entries: Seq<EntryV>) -> bool {
    forall|i: int|
        0 <= i < entries.len() ==> (#[trigger] entries[i]).key == entries[i].field.name
}

/// What holds of every struct type: each field stands under its own name, the names are distinct,
/// and the positions of the metadata columns are those of the fields.
pub open spec fn valid_struct(s: StructV) -> bool {
    &&& own_names(s.entries)
    &&& distinct_keys(s.entries)
    &&& s.specials == entry_positions(s.entries)
}

/// The entries with a field under a name: in the place of the one that stood there, or at the end.
pub open spec fn put(entries: Seq<EntryV>, key: Seq<char>, field: FieldV) -> Seq<EntryV> {
    if has_key(entries, key) {
        entries.update(key_index(entries, key), EntryV { key, field })
    } else {
        entries.push(EntryV { key, field })
    }
}

impl DataType {
    /// The model of the type.
    pub open spec fn view(&self) -> TypeV
        decreases self,
    {
        match self {
            DataType::Primitive(p) => TypeV::Primitive(*p),
            DataType::Array(a) => TypeV::Array(
                Box::new(
                    ArrayV {
                        label: a.type_label@,
                        element: a.element_type.view(),
                        contains_null: a.contains_null,
                    },
                ),
            ),
            DataType::Struct(s) => TypeV::Struct(Box::new(s.view())),
            DataType::MapOf(m) => TypeV::MapOf(
                Box::new(
                    MapV {
                        label: m.type_label@,
                        key: m.key_type.view(),
                        value: m.value_type.view(),
                        value_contains_null: m.value_contains_null,
                    },
                ),
            ),
            DataType::Variant(s) => TypeV::Variant(Box::new(s.view())),
        }
    }
}

impl ArrayType {
    /// The model of the type.
    pub open spec fn view(&self) -> ArrayV {
        ArrayV {
            label: self.type_label@,
            element: self.element_type@,
            contains_null: self.contains_null,
        }
    }
}

impl MapType {
    /// The model of the type.
    pub open spec fn view(&self) -> MapV {
        MapV {
            label: self.type_label@,
            key: self.key_type@,
            value: self.value_type@,
            value_contains_null: self.value_contains_null,
        }
    }
}

impl StructType {
    /// The model of the type.
    pub open(crate) spec fn view(&self) -> StructV {
        StructV {
            label: self.type_label@,
            entries: field_entries(self.fields),
            specials: self.metadata_columns@,
        }
    }

    #[verifier::type_invariant]
    pub(crate) open(crate) spec fn well_formed(&self) -> bool {
        valid_struct(self@)
    }
}

impl StructField {
    /// The model of the field.
    pub open spec fn view(&self) -> FieldV {
        FieldV {
            name: self.name@,
            data_type: self.data_type@,
            nullable: self.nullable,
            metadata: meta_view(self.metadata@),
        }
    }
}

impl View for MetadataPositions {
    type V = Map<MetadataColumnSpec, int>;

    closed spec fn view(&self) -> Map<MetadataColumnSpec, int> {
        Map::new(|s: MetadataColumnSpec| self.position(s) is Some, |s: MetadataColumnSpec|
            self.position(s)->0 as int)
    }
}

impl MetadataPositions {
    closed spec fn position(self, s: MetadataColumnSpec) -> Option<usize> {
        match s {
            MetadataColumnSpec::RowIndex => self.row_index,
            MetadataColumnSpec::RowId => self.row_id,
            MetadataColumnSpec::RowCommitVersion => self.row_commit_version,
            MetadataColumnSpec::FilePath => self.file_path,
        }
    }

    /// No metadata column stands anywhere.
    pub fn new() -> (r: Self)
        ensures
            r@ == Map::<MetadataColumnSpec, int>::empty(),
    {
        let r = MetadataPositions {
            row_index: None,
            row_id: None,
            row_commit_version: None,
            file_path: None,
        };
        assert(r@ =~= Map::<MetadataColumnSpec, int>::empty());
        r
    }

    /// The position of a metadata column.
    pub fn get(&self, s: &MetadataColumnSpec) -> (r: Option<&usize>)
        ensures
            match r {
                Some(i) => self@.contains_key(*s) && *i == self@[*s],
                None => !self@.contains_key(*s),
            },
    {
        match s {
            MetadataColumnSpec::RowIndex => self.row_index.as_ref(),
            MetadataColumnSpec::RowId => self.row_id.as_ref(),
            MetadataColumnSpec::RowCommitVersion => self.row_commit_version.as_ref(),
            MetadataColumnSpec::FilePath => self.file_path.as_ref(),
        }
    }

    /// Records the position of a metadata column.
    pub fn insert(&mut self, s: MetadataColumnSpec, i: usize)
        ensures
            final(self)@ == old(self)@.insert(s, i as int),
    {
        match s {
            MetadataColumnSpec::RowIndex => {
                self.row_index = Some(i);
            },
            MetadataColumnSpec::RowId => {
                self.row_id = Some(i);
            },
            MetadataColumnSpec::RowCommitVersion => {
                self.row_commit_version = Some(i);
            },
            MetadataColumnSpec::FilePath => {
                self.file_path = Some(i);
            },
        }
        assert(self@ =~= old(self)@.insert(s, i as int));
    }

    fn same(&self, other: &Self) -> (r: bool)
        ensures
            r == (self@ == other@),
    {
        let r = self.row_index == other.row_index && self.row_id == other.row_id
            && self.row_commit_version == other.row_commit_version && self.file_path
            == other.file_path;
        proof {
            if r {
                assert(self@ =~= other@);
            } else {
                let s = if self.row_index != other.row_index {
                    MetadataColumnSpec::RowIndex
                } else if self.row_id != other.row_id {
                    MetadataColumnSpec::RowId
                } else if self.row_commit_version != other.row_commit_version {
                    MetadataColumnSpec::RowCommitVersion
                } else {
                    MetadataColumnSpec::FilePath
                };
                assert(self.position(s) != other.position(s));
                assert(self@.contains_key(s) != other@.contains_key(s) || self@[s] != other@[s]);
            }
        }
        r
    }
}

impl FieldMap {
    /// `IndexMap::new`: a map without entries.
    #[verifier::external_body]
    pub(crate) fn new() -> (r: Self)
        ensures
            field_entries(r) == Seq::<EntryV>::empty(),
    {
        FieldMap { inner: IndexMap::new() }
    }

    /// `IndexMap::len`: the number of entries.
    #[verifier::external_body]
    pub(crate) fn len(&self) -> (r: usize)
        ensures
            r == field_entries(*self).len(),
    {
        self.inner.len()
    }

    /// `IndexMap::get_index`: the entry at a position.
    #[verifier::external_body]
    pub(crate) fn get_index(&self, i: usize) -> (r: Option<(&String, &StructField)>)
        ensures
            match r {
                Some((key, field)) => i < field_entries(*self).len() && field_entries(
                    *self,
                )[i as int] == (EntryV { key: key@, field: field@ }),
                None => i >= field_entries(*self).len(),
            },
    {
        self.inner.get_index(i)
    }

    /// `IndexMap::get_index_of`: the position of the one entry under a name.
    #[verifier::external_body]
    pub(crate) fn get_index_of(&self, key: &str) -> (r: Option<usize>)
        ensures
            match r {
                Some(i) => i < field_entries(*self).len() && forall|j: int|
                    0 <= j < field_entries(*self).len() ==> ((#[trigger] field_entries(
                        *self,
                    )[j]).key == key@ <==> j == i),
                None => !has_key(field_entries(*self), key@),
            },
    {
        self.inner.get_index_of(key)
    }

    /// `IndexMap::insert`: puts a field under a name, in the place of the one that stood there, or
    /// at the end.
    #[verifier::external_body]
    pub(crate) fn insert(&mut self, key: String, field: StructField)
        ensures
            field_entries(*final(self)) == put(field_entries(*old(self)), key@, field@),
    {
        self.inner.insert(key, field);
    }

    /// `IndexMap::insert_before`: puts a field under a new name at a position, which moves what
    /// stands there and behind it up by one.
    #[verifier::external_body]
    pub(crate) fn insert_before(&mut self, i: usize, key: String, field: StructField)
        requires
            i <= field_entries(*old(self)).len(),
            !has_key(field_entries(*old(self)), key@),
        ensures
            field_entries(*final(self)) == field_entries(*old(self)).insert(
                i as int,
                EntryV { key: key@, field: field@ },
            ),
    {
        self.inner.insert_before(i, key, field);
    }

    /// `IndexMap::shift_remove`: takes out the entry under a name, if there is one, and keeps the
    /// order of the others.
    #[verifier::external_body]
    pub(crate) fn shift_remove(&mut self, key: &str)
        ensures
            field_entries(*final(self)) == if has_key(field_entries(*old(self)), key@) {
                field_entries(*old(self)).remove(key_index(field_entries(*old(self)), key@))
            } else {
                field_entries(*old(self))
            },
    {
        self.inner.shift_remove(key);
    }

    /// `IndexMap::into_values`: the fields in order.
    #[verifier::external_body]
    pub(crate) fn into_values(self) -> (r: Vec<StructField>)
        ensures
            r@.len() == field_entries(self).len(),
            forall|i: int|
                0 <= i < r@.len() ==> (#[trigger] r@[i])@ == field_entries(self)[i].field,
    {
        self.inner.into_values().collect()
    }
}

/// The parts of a type come before it in the order of recursion.
pub proof fn lemma_type_parts(t: TypeV)
    ensures
        match t {
            TypeV::Primitive(_) => true,
            TypeV::Array(a) => decreases_to!(t => a.element) && decreases_to!(t => *a),
            TypeV::MapOf(m) => decreases_to!(t => m.key) && decreases_to!(t => m.value)
                && decreases_to!(t => *m),
            TypeV::Struct(s) => decreases_to!(t => *s),
            TypeV::Variant(s) => decreases_to!(t => *s),
        },
{
    match t {
        TypeV::Array(a) => {
            assert(decreases_to!(t => *a));
            assert(decreases_to!(*a => a.element));
        },
        TypeV::MapOf(m) => {
            assert(decreases_to!(t => *m));
            assert(decreases_to!(*m => m.key));
            assert(decreases_to!(*m => m.value));
        },
        _ => {},
    }
}

/// The fields of a struct come before it in the order of recursion.
pub proof fn lemma_struct_parts(s: StructV, i: int)
    requires
        0 <= i < s.entries.len(),
    ensures
        decreases_to!(s => s.entries[i].field),
        decreases_to!(s => s.entries[i].field.data_type),
{
    assert(decreases_to!(s => s.entries));
    assert(decreases_to!(s.entries => s.entries[i]));
    assert(decreases_to!(s.entries[i] => s.entries[i].field));
    assert(decreases_to!(s.entries[i].field => s.entries[i].field.data_type));
}

/// Putting fields under names keeps the names distinct.
pub proof fn lemma_put_distinct(entries: Seq<EntryV>, key: Seq<char>, field: FieldV)
    requires
        distinct_keys(entries),
    ensures
        distinct_keys(put(entries, key, field)),
{
    let new = put(entries, key, field);
    assert forall|i: int, j: int|
        0 <= i < new.len() && 0 <= j < new.len() && (#[trigger] new[i]).key == (
        #[trigger] new[j]).key implies i == j by {
        if has_key(entries, key) {
            let k = key_index(entries, key);
            assert(new[i].key == entries[i].key);
            assert(new[j].key == entries[j].key);
        } else {
            if i < entries.len() {
                assert(new[i] == entries[i]);
            }
            if j < entries.len() {
                assert(new[j] == entries[j]);
            }
        }
    }
}

/// Whether two data types are equal.
pub open spec fn same_type(a: TypeV, b: TypeV) -> bool
    decreases a,
{
    match (a, b) {
        (TypeV::Primitive(x), TypeV::Primitive(y)) => x == y,
        (TypeV::Array(x), TypeV::Array(y)) => {
            &&& x.label == y.label
            &&& same_type(x.element, y.element)
            &&& x.contains_null == y.contains_null
        },
        (TypeV::Struct(x), TypeV::Struct(y)) => same_struct(*x, *y),
        (TypeV::MapOf(x), TypeV::MapOf(y)) => {
            &&& x.label == y.label
            &&& same_type(x.key, y.key)
            &&& same_type(x.value, y.value)
            &&& x.value_contains_null == y.value_contains_null
        },
        (TypeV::Variant(x), TypeV::Variant(y)) => same_struct(*x, *y),
        _ => false,
    }
}

/// Whether two struct types are equal: the same names with equal fields, in whatever order, and
/// the same positions of metadata columns.
pub open spec fn same_struct(a: StructV, b: StructV) -> bool
    decreases a,
{
    &&& a.label == b.label
    &&& a.entries.len() == b.entries.len()
    &&& all_found(a.entries, b.entries)
    &&& a.specials == b.specials
}

/// Whether `b` holds an equal field under the name of each entry of `a`.
pub open spec fn all_found(a: Seq<EntryV>, b: Seq<EntryV>) -> bool
    decreases a,
{
    if a.len() == 0 {
        true
    } else {
        &&& all_found(a.drop_last(), b)
        &&& has_key(b, a.last().key)
        &&& same_field(a.last().field, b[key_index(b, a.last().key)].field)
    }
}

/// Whether two fields are equal.
pub open spec fn same_field(a: FieldV, b: FieldV) -> bool
    decreases a,
{
    &&& a.name == b.name
    &&& same_type(a.data_type, b.data_type)
    &&& a.nullable == b.nullable
    &&& same_metadata(a.metadata, b.metadata)
}

fn type_eq(a: &DataType, b: &DataType) -> (r: bool)
    ensures
        r == same_type(a@, b@),
    decreases a@,
{
    proof {
        lemma_type_parts(a@);
    }
    match (a, b) {
        (DataType::Primitive(x), DataType::Primitive(y)) => *x == *y,
        (DataType::Array(x), DataType::Array(y)) => {
            text_eq(x.type_label.as_str(), y.type_label.as_str()) && type_eq(
                &x.element_type,
                &y.element_type,
            ) && x.contains_null == y.contains_null
        },
        (DataType::Struct(x), DataType::Struct(y)) => struct_eq(x, y),
        (DataType::MapOf(x), DataType::MapOf(y)) => {
            text_eq(x.type_label.as_str(), y.type_label.as_str()) && type_eq(
                &x.key_type,
                &y.key_type,
            ) && type_eq(&x.value_type, &y.value_type) && x.value_contains_null
                == y.value_contains_null
        },
        (DataType::Variant(x), DataType::Variant(y)) => struct_eq(x, y),
        _ => false,
    }
}

fn struct_eq(a: &StructType, b: &StructType) -> (r: bool)
    ensures
        r == same_struct(a@, b@),
    decreases a@,
{
    let n: usize = a.fields.len();
    if !text_eq(a.type_label.as_str(), b.type_label.as_str()) || n != b.fields.len()
        || !a.metadata_columns.same(&b.metadata_columns) {
        return false;
    }
    let ghost xs = a@.entries;
    let ghost ys = b@.entries;
    let mut i: usize = 0;
    while i < n
        invariant
            i <= n,
            n == xs.len(),
            xs == a@.entries,
            ys == b@.entries,
            xs == field_entries(a.fields),
            ys == field_entries(b.fields),
            all_found(xs.take(i as int), ys),
        decreases n - i,
    {
        let ghost next = xs.take(i + 1);
        proof {
            assert(next.drop_last() =~= xs.take(i as int));
            assert(next.last() == xs[i as int]);
            lemma_struct_parts(a@, i as int);
        }
        let found = match a.fields.get_index(i) {
            Some((key, x)) => match b.fields.get_index_of(key.as_str()) {
                Some(j) => match b.fields.get_index(j) {
                    Some((_, y)) => {
                        assert(ys[j as int].key == key@);
                        assert(key_index(ys, key@) == j);
                        field_eq(x, y)
                    },
                    None => false,
                },
                None => false,
            },
            None => false,
        };
        if !found {
            proof {
                if all_found(xs, ys) {
                    lemma_all_found_prefix(xs, ys, i + 1);
                }
            }
            return false;
        }
        i = i + 1;
    }
    assert(xs.take(n as int) =~= xs);
    true
}

proof fn lemma_all_found_prefix(a: Seq<EntryV>, b: Seq<EntryV>, n: int)
    requires
        0 <= n <= a.len(),
        all_found(a, b),
    ensures
        all_found(a.take(n), b),
    decreases a.len(),
{
    if n == a.len() {
        assert(a.take(n) =~= a);
    } else {
        assert(a.take(n) =~= a.drop_last().take(n));
        lemma_all_found_prefix(a.drop_last(), b, n);
    }
}

fn field_eq(a: &StructField, b: &StructField) -> (r: bool)
    ensures
        r == same_field(a@, b@),
    decreases a@,
{
    assert(decreases_to!(a@ => a@.data_type));
    text_eq(a.name.as_str(), b.name.as_str()) && type_eq(&a.data_type, &b.data_type) && a.nullable
        == b.nullable && metadata_eq(&a.metadata, &b.metadata)
}

fn clone_type(t: &DataType) -> (r: DataType)
    ensures
        r@ == t@,
    decreases t@,
{
    proof {
        lemma_type_parts(t@);
    }
    match t {
        DataType::Primitive(p) => DataType::Primitive(*p),
        DataType::Array(a) => DataType::Array(
            Box::new(
                ArrayType {
                    type_label: a.type_label.clone(),
                    element_type: clone_type(&a.element_type),
                    contains_null: a.contains_null,
                },
            ),
        ),
        DataType::Struct(s) => DataType::Struct(Box::new(clone_struct(s))),
        DataType::MapOf(m) => DataType::MapOf(
            Box::new(
                MapType {
                    type_label: m.type_label.clone(),
                    key_type: clone_type(&m.key_type),
                    value_type: clone_type(&m.value_type),
                    value_contains_null: m.value_contains_null,
                },
            ),
        ),
        DataType::Variant(s) => DataType::Variant(Box::new(clone_struct(s))),
    }
}

fn clone_struct(s: &StructType) -> (r: StructType)
    ensures
        r@ == s@,
    decreases s@,
{
    proof {
        use_type_invariant(s);
    }
    let n: usize = s.fields.len();
    let ghost entries = s@.entries;
    let mut fields = FieldMap::new();
    let mut i: usize = 0;
    while i < n
        invariant
            i <= n,
            n == entries.len(),
            entries == s@.entries,
            entries == field_entries(s.fields),
            distinct_keys(entries),
            field_entries(fields) == entries.take(i as int),
        decreases n - i,
    {
        proof {
            lemma_struct_parts(s@, i as int);
        }
        if let Some((key, field)) = s.fields.get_index(i) {
            let copy = clone_field(field);
            fields.insert(key.clone(), copy);
            proof {
                assert(!has_key(entries.take(i as int), entries[i as int].key));
                assert(field_entries(fields) =~= entries.take(i + 1));
            }
        }
        i = i + 1;
    }
    assert(entries.take(n as int) =~= entries);
    StructType {
        type_label: s.type_label.clone(),
        fields,
        metadata_columns: s.metadata_columns,
    }
}

fn clone_field(f: &StructField) -> (r: StructField)
    ensures
        r@ == f@,
    decreases f@,
{
    assert(decreases_to!(f@ => f@.data_type));
    StructField {
        name: f.name.clone(),
        data_type: clone_type(&f.data_type),
        nullable: f.nullable,
        metadata: clone_metadata(&f.metadata),
    }
}

impl Clone for DataType {
    fn clone(&self) -> (r: Self)
        ensures
            r@ == self@,
    {
        clone_type(self)
    }
}

impl Clone for StructType {
    fn clone(&self) -> (r: Self)
        ensures
            r@ == self@,
    {
        clone_struct(self)
    }
}

impl Clone for StructField {
    fn clone(&self) -> (r: Self)
        ensures
            r@ == self@,
    {
        clone_field(self)
    }
}

impl Clone for ArrayType {
    fn clone(&self) -> (r: Self)
        ensures
            r@ == self@,
    {
        ArrayType {
            type_label: self.type_label.clone(),
            element_type: self.element_type.clone(),
            contains_null: self.contains_null,
        }
    }
}

impl Clone for MapType {
    fn clone(&self) -> (r: Self)
        ensures
            r@ == self@,
    {
        MapType {
            type_label: self.type_label.clone(),
            key_type: self.key_type.clone(),
            value_type: self.value_type.clone(),
            value_contains_null: self.value_contains_null,
        }
    }
}

impl PartialEq for DataType {
    fn eq(&self, other: &Self) -> (r: bool) {
        type_eq(self, other)
    }
}

impl vstd::std_specs::cmp::PartialEqSpecImpl for DataType {
    open spec fn obeys_eq_spec() -> bool {
        true
    }

    open spec fn eq_spec(&self, other: &Self) -> bool {
        same_type(self@, other@)
    }
}

impl Eq for DataType {

}

impl PartialEq for StructType {
    fn eq(&self, other: &Self) -> (r: bool) {
        struct_eq(self, other)
    }
}

impl vstd::std_specs::cmp::PartialEqSpecImpl for StructType {
    open spec fn obeys_eq_spec() -> bool {
        true
    }

    open spec fn eq_spec(&self, other: &Self) -> bool {
        same_struct(self@, other@)
    }
}

impl Eq for StructType {

}

impl PartialEq for StructField {
    fn eq(&self, other: &Self) -> (r: bool) {
        field_eq(self, other)
    }
}

impl vstd::std_specs::cmp::PartialEqSpecImpl for StructField {
    open spec fn obeys_eq_spec() -> bool {
        true
    }

    open spec fn eq_spec(&self, other: &Self) -> bool {
        same_field(self@, other@)
    }
}

impl Eq for StructField {

}

impl PartialEq for ArrayType {
    fn eq(&self, other: &Self) -> (r: bool) {
        text_eq(self.type_label.as_str(), other.type_label.as_str()) && type_eq(
            &self.element_type,
            &other.element_type,
        ) && self.contains_null == other.contains_null
    }
}

impl vstd::std_specs::cmp::PartialEqSpecImpl for ArrayType {
    open spec fn obeys_eq_spec() -> bool {
        true
    }

    open spec fn eq_spec(&self, other: &Self) -> bool {
        same_type(TypeV::Array(Box::new(self@)), TypeV::Array(Box::new(other@)))
    }
}

impl Eq for ArrayType {

}

impl PartialEq for MapType {
    fn eq(&self, other: &Self) -> (r: bool) {
        text_eq(self.type_label.as_str(), other.type_label.as_str()) && type_eq(
            &self.key_type,
            &other.key_type,
        ) && type_eq(&self.value_type, &other.value_type) && self.value_contains_null
            == other.value_contains_null
    }
}

impl vstd::std_specs::cmp::PartialEqSpecImpl for MapType {
    open spec fn obeys_eq_spec() -> bool {
        true
    }

    open spec fn eq_spec(&self, other: &Self) -> bool {
        same_type(TypeV::MapOf(Box::new(self@)), TypeV::MapOf(Box::new(other@)))
    }
}

impl Eq for MapType {

}

/// Structs that are equal have equal fields under the same names, and as many of them.
pub proof fn law_equal_structs(a: StructV, b: StructV, i: int)
    requires
        same_struct(a, b),
        distinct_keys(b.entries),
        0 <= i < a.entries.len(),
    ensures
        a.label == b.label,
        a.entries.len() == b.entries.len(),
        exists|j: int|
            0 <= j < b.entries.len() && (#[trigger] b.entries[j]).key == a.entries[i].key && same_field(
                a.entries[i].field,
                b.entries[j].field,
            ),
{
    lemma_all_found_prefix(a.entries, b.entries, i + 1);
    let front = a.entries.take(i + 1);
    assert(front.last() == a.entries[i]);
    assert(all_found(front, b.entries));
    let j = key_index(b.entries, a.entries[i].key);
    assert(b.entries[j].key == a.entries[i].key);
}

/// Structs are equal where they have the same name, as many fields, the same places of metadata columns,
/// and for each field of one an equal field under the same name in the other.
pub proof fn law_structs_with_equal_fields(a: StructV, b: StructV)
    requires
        a.label == b.label,
        a.entries.len() == b.entries.len(),
        a.specials == b.specials,
        distinct_keys(b.entries),
        forall|i: int|
            0 <= i < a.entries.len() ==> exists|j: int|
                0 <= j < b.entries.len() && (#[trigger] b.entries[j]).key == (
                #[trigger] a.entries[i]).key && same_field(a.entries[i].field, b.entries[j].field),
    ensures
        same_struct(a, b),
{
    lemma_all_are_found(a.entries, b.entries);
}

proof fn lemma_all_are_found(a: Seq<EntryV>, b: Seq<EntryV>)
    requires
        distinct_keys(b),
        forall|i: int|
            0 <= i < a.len() ==> exists|j: int|
                0 <= j < b.len() && (#[trigger] b[j]).key == (#[trigger] a[i]).key && same_field(
                    a[i].field,
                    b[j].field,
                ),
    ensures
        all_found(a, b),
    decreases a.len(),
{
    if a.len() > 0 {
        let front = a.drop_last();
        assert forall|i: int| 0 <= i < front.len() implies exists|j: int|
            0 <= j < b.len() && (#[trigger] b[j]).key == (#[trigger] front[i]).key && same_field(
                front[i].field,
                b[j].field,
            ) by {
            assert(front[i] == a[i]);
        }
        lemma_all_are_found(front, b);
        let last = a[a.len() - 1];
        assert(a.last() == last);
        let j = choose|j: int|
            0 <= j < b.len() && (#[trigger] b[j]).key == last.key && same_field(
                last.field,
                b[j].field,
            );
        assert(has_key(b, last.key));
        let k = key_index(b, last.key);
        assert(0 <= k < b.len() && b[k].key == last.key);
        assert(k == j);
    }
}

} // verus!
