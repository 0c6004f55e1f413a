//! Fields: how they are made, and what their metadata says of them.
use vstd::prelude::*;

use crate::column_mapping::ColumnMappingMode;
use crate::schema::metadata::{
    clone_metadata, ColumnMetadataKey, MetadataColumnSpec, MetadataMap, MetadataValue,
};
use crate::schema::primitive::PrimitiveType;
use crate::schema::types::{DataType, StructField};
use crate::text::owned;
use crate::text_map::TextMap;

#[allow(unused_imports)]
use crate::schema::metadata::{meta_text, meta_view, spec_named, spec_text, MetaV};
#[allow(unused_imports)]
use crate::schema::types::{FieldV, TypeV};

verus! {

/// Pairs of keys and metadata values as models.
pub open spec fn pair_views(pairs: Seq<(String, MetadataValue)>) -> Seq<(Seq<char>, MetaV)> {
    Seq::new(pairs.len(), |i: int| (pairs[i].0@, pairs[i].1@))
}

/// A map with pairs added to it one after the other.
pub open spec fn extended(m: Map<Seq<char>, MetaV>, pairs: Seq<(Seq<char>, MetaV)>) -> Map<
    Seq<char>,
    MetaV,
>
    decreases pairs.len(),
{
    if pairs.len() == 0 {
        m
    } else {
        extended(m, pairs.drop_last()).insert(pairs.last().0, pairs.last().1)
    }
}

/// The data type of a metadata column.
pub open spec fn spec_type(s: MetadataColumnSpec) -> PrimitiveType {
    if s is FilePath {
        PrimitiveType::String
    } else {
        PrimitiveType::Long
    }
}

/// A metadata column.
pub open spec fn metadata_column_field(name: Seq<char>, s: MetadataColumnSpec) -> FieldV {
    FieldV {
        name,
        data_type: TypeV::Primitive(spec_type(s)),
        nullable: false,
        metadata: Map::empty().insert(
            ColumnMetadataKey::MetadataSpec.key(),
            MetaV::String(spec_text(s)),
        ),
    }
}

impl FieldV {
    /// A field without metadata.
    pub open spec fn plain(name: Seq<char>, data_type: TypeV, nullable: bool) -> FieldV {
        FieldV { name, data_type, nullable, metadata: Map::empty() }
    }

    /// What the metadata holds under a key.
    pub open spec fn config(self, key: ColumnMetadataKey) -> Option<MetaV> {
        if self.metadata.contains_key(key.key()) {
            Some(self.metadata[key.key()])
        } else {
            None
        }
    }

    /// Whether the field is marked as a metadata column.
    pub open spec fn is_metadata_column(self) -> bool {
        self.metadata.contains_key(ColumnMetadataKey::MetadataSpec.key())
    }

    /// The kind of metadata column, where the mark names one.
    pub open spec fn metadata_spec(self) -> Option<MetadataColumnSpec> {
        match self.config(ColumnMetadataKey::MetadataSpec) {
            Some(MetaV::String(s)) => spec_named(s),
            _ => None,
        }
    }

    /// The name of the field in files.
    pub open spec fn physical_name(self, mode: ColumnMappingMode) -> Seq<char> {
        if mode is Disabled {
            self.name
        } else {
            match self.config(ColumnMetadataKey::ColumnMappingPhysicalName) {
                Some(MetaV::String(s)) => s,
                _ => self.name,
            }
        }
    }
}

/// A metadata column is recognised as the kind that it was made of.
pub proof fn law_metadata_column_recognised(name: Seq<char>, s: MetadataColumnSpec)
    ensures
        metadata_column_field(name, s).is_metadata_column(),
        metadata_column_field(name, s).metadata_spec() == Some(s),
{
    crate::schema::metadata::law_spec_text_round_trip(s);
}

fn collect_pairs(m: &mut MetadataMap, pairs: Vec<(String, MetadataValue)>)
    ensures
        meta_view(final(m)@) == extended(meta_view(old(m)@), pair_views(pairs@)),
{
    let ghost all = pair_views(pairs@);
    let ghost start = meta_view(m@);
    let ghost mut count: int = 0;
    assert(all.take(0) =~= seq![]);
    for pair in iter: pairs
        invariant
            count == iter.index(),
            iter.seq() == pairs@,
            all == pair_views(pairs@),
            meta_view(m@) == extended(start, all.take(count)),
    {
        let ghost before = m@;
        let ghost view = (pair.0@, pair.1@);
        m.insert(pair.0, pair.1);
        proof {
            assert(view == all[count]);
            assert(all.take(count + 1).drop_last() =~= all.take(count));
            assert(meta_view(m@) =~= meta_view(before).insert(view.0, view.1));
            count = count + 1;
        }
    }
    assert(all.take(count) =~= all);
}

impl MetadataColumnSpec {
    /// The data type of the metadata column.
    pub fn data_type(&self) -> (r: DataType)
        ensures
            r@ == TypeV::Primitive(spec_type(*self)),
    {
        match self {
            MetadataColumnSpec::RowIndex => DataType::Primitive(PrimitiveType::Long),
            MetadataColumnSpec::RowId => DataType::Primitive(PrimitiveType::Long),
            MetadataColumnSpec::RowCommitVersion => DataType::Primitive(PrimitiveType::Long),
            MetadataColumnSpec::FilePath => DataType::Primitive(PrimitiveType::String),
        }
    }
}

impl StructField {
    /// Creates a new field
    pub fn new(name: &str, data_type: DataType, nullable: bool) -> (r: Self)
        ensures
            r@ == FieldV::plain(name@, data_type@, nullable),
    {
        let r = StructField { name: owned(name), data_type, nullable, metadata: TextMap::new() };
        assert(r@.metadata =~= Map::empty());
        r
    }

    /// Creates a new nullable field
    pub fn nullable(name: &str, data_type: DataType) -> (r: Self)
        ensures
            r@ == FieldV::plain(name@, data_type@, true),
    {
        StructField::new(name, data_type, true)
    }

    /// Creates a new non-nullable field
    pub fn not_null(name: &str, data_type: DataType) -> (r: Self)
        ensures
            r@ == FieldV::plain(name@, data_type@, false),
    {
        StructField::new(name, data_type, false)
    }

    /// Creates a metadata column of the given kind with the given name.
    pub fn create_metadata_column(name: &str, spec: MetadataColumnSpec) -> (r: Self)
        ensures
            r@ == metadata_column_field(name@, spec),
    {
        let mut metadata: MetadataMap = TextMap::new();
        metadata.insert(
            owned(ColumnMetadataKey::MetadataSpec.as_ref()),
            MetadataValue::String(owned(spec.text_value())),
        );
        let r = StructField {
            name: owned(name),
            data_type: spec.data_type(),
            nullable: spec.nullable(),
            metadata,
        };
        assert(r@.metadata =~= metadata_column_field(name@, spec).metadata);
        r
    }

    /// Returns the default row index metadata column.
    pub fn default_row_index_column() -> (r: StructField)
        ensures
            r@ == metadata_column_field("_metadata.row_index"@, MetadataColumnSpec::RowIndex),
    {
        StructField::create_metadata_column("_metadata.row_index", MetadataColumnSpec::RowIndex)
    }

    /// Replaces the metadata with the given pairs; of two with the same key the later one stays.
    pub fn with_metadata(self, metadata: Vec<(String, MetadataValue)>) -> (r: Self)
        ensures
            r@ == (FieldV { metadata: extended(Map::empty(), pair_views(metadata@)), ..self@ }),
    {
        let mut m: MetadataMap = TextMap::new();
        assert(meta_view(m@) =~= Map::empty());
        collect_pairs(&mut m, metadata);
        StructField {
            name: self.name,
            data_type: self.data_type,
            nullable: self.nullable,
            metadata: m,
        }
    }

    /// Adds the given pairs to the metadata, in place of those with the same keys.
    pub fn add_metadata(self, metadata: Vec<(String, MetadataValue)>) -> (r: Self)
        ensures
            r@ == (FieldV { metadata: extended(self@.metadata, pair_views(metadata@)), ..self@ }),
    {
        let mut m = self.metadata;
        collect_pairs(&mut m, metadata);
        StructField {
            name: self.name,
            data_type: self.data_type,
            nullable: self.nullable,
            metadata: m,
        }
    }

    /// Returns true if this field is a metadata column.
    pub fn is_metadata_column(&self) -> (r: bool)
        ensures
            r == self@.is_metadata_column(),
    {
        self.metadata.contains_key(ColumnMetadataKey::MetadataSpec.as_ref())
    }

    /// Returns the kind of metadata column if this is one of a known kind, otherwise `None`.
    pub fn get_metadata_column_spec(&self) -> (r: Option<MetadataColumnSpec>)
        ensures
            r == self@.metadata_spec(),
    {
        match self.metadata.get(ColumnMetadataKey::MetadataSpec.as_ref()) {
            Some(MetadataValue::String(s)) => match MetadataColumnSpec::from_str(s.as_str()) {
                Ok(spec) => Some(spec),
                Err(_) => None,
            },
            _ => None,
        }
    }

    /// Returns true if this field is an internal column, which is removed before scan results are
    /// returned.
    pub fn is_internal_column(&self) -> (r: bool)
        ensures
            r == (self@.config(ColumnMetadataKey::InternalColumn) == Some(MetaV::Boolean(true))),
    {
        match self.metadata.get(ColumnMetadataKey::InternalColumn.as_ref()) {
            Some(MetadataValue::Boolean(b)) => *b,
            _ => false,
        }
    }

    /// Marks this field as an internal column.
    pub fn as_internal_column(self) -> (r: Self)
        ensures
            r@ == (FieldV {
                metadata: self@.metadata.insert(
                    ColumnMetadataKey::InternalColumn.key(),
                    MetaV::Boolean(true),
                ),
                ..self@
            }),
    {
        let mut pairs: Vec<(String, MetadataValue)> = Vec::new();
        pairs.push(
            (owned(ColumnMetadataKey::InternalColumn.as_ref()), MetadataValue::Boolean(true)),
        );
        proof {
            let views = pair_views(pairs@);
            assert(views.drop_last() =~= seq![]);
            reveal_with_fuel(extended, 2);
        }
        self.add_metadata(pairs)
    }

    /// The metadata value under a key.
    pub fn get_config_value(&self, key: &ColumnMetadataKey) -> (r: Option<&MetadataValue>)
        ensures
            match r {
                Some(v) => self@.config(*key) == Some(v@),
                None => self@.config(*key) is None,
            },
    {
        self.metadata.get(key.as_ref())
    }

    /// The name of this field as it should be read from Parquet: the logical name without column
    /// mapping, else the physical name in the metadata where there is one.
    pub fn physical_name(&self, column_mapping_mode: ColumnMappingMode) -> (r: &str)
        ensures
            r@ == self@.physical_name(column_mapping_mode),
    {
        match column_mapping_mode {
            ColumnMappingMode::Disabled => self.name.as_str(),
            ColumnMappingMode::Id | ColumnMappingMode::Name => {
                match self.metadata.get(ColumnMetadataKey::ColumnMappingPhysicalName.as_ref()) {
                    Some(MetadataValue::String(physical_name)) => physical_name.as_str(),
                    _ => self.name.as_str(),
                }
            },
        }
    }

    /// Returns true if this field has a physical name annotation.
    pub fn has_physical_name_annotation(&self) -> (r: bool)
        ensures
            r == (self@.config(ColumnMetadataKey::ColumnMappingPhysicalName) matches Some(
                MetaV::String(_),
            )),
    {
        match self.metadata.get(ColumnMetadataKey::ColumnMappingPhysicalName.as_ref()) {
            Some(MetadataValue::String(_)) => true,
            _ => false,
        }
    }

    /// Returns true if this field has a column mapping id annotation.
    pub fn has_id_annotation(&self) -> (r: bool)
        ensures
            r == (self@.config(ColumnMetadataKey::ColumnMappingId) matches Some(MetaV::Number(_))),
    {
        match self.metadata.get(ColumnMetadataKey::ColumnMappingId.as_ref()) {
            Some(MetadataValue::Number(_)) => true,
            _ => false,
        }
    }

    /// Returns true if this field has invariants defined.
    pub fn has_invariants(&self) -> (r: bool)
        ensures
            r == self@.metadata.contains_key(ColumnMetadataKey::Invariants.key()),
    {
        self.metadata.contains_key(ColumnMetadataKey::Invariants.as_ref())
    }

    /// A copy of this field under another name.
    pub fn with_name(&self, new_name: &str) -> (r: Self)
        ensures
            r@ == (FieldV { name: new_name@, ..self@ }),
    {
        StructField {
            name: owned(new_name),
            data_type: self.data_type.clone(),
            nullable: self.nullable,
            metadata: clone_metadata(&self.metadata),
        }
    }

    /// The name of the field.
    pub fn name(&self) -> (r: &String)
        ensures
            r@ == self@.name,
    {
        &self.name
    }

    /// Whether the field can be null.
    pub fn is_nullable(&self) -> (r: bool)
        ensures
            r == self@.nullable,
    {
        self.nullable
    }

    /// The data type of the field.
    pub fn data_type(&self) -> (r: &DataType)
        ensures
            r@ == self@.data_type,
    {
        &self.data_type
    }

    /// The metadata of the field.
    pub fn metadata(&self) -> (r: &MetadataMap)
        ensures
            meta_view(r@) == self@.metadata,
    {
        &self.metadata
    }

    /// The metadata with its values as texts.
    pub fn metadata_with_string_values(&self) -> (r: TextMap<String>)
        ensures
            r@.dom() == self@.metadata.dom(),
            forall|k: Seq<char>| #[trigger]
                self@.metadata.contains_key(k) ==> r@[k]@ == meta_text(self@.metadata[k]),
    {
        let n: usize = self.metadata.len();
        let mut r: TextMap<String> = TextMap::new();
        let ghost list = self.metadata.list();
        let mut i: usize = 0;
        while i < n
            invariant
                i <= n,
                n == list.len(),
                list == self.metadata.list(),
                r@.dom() == crate::text_map::map_of(list.take(i as int)).dom(),
                forall|k: Seq<char>| #[trigger]
                    r@.contains_key(k) ==> r@[k]@ == meta_text(
                        crate::text_map::map_of(list.take(i as int))[k]@,
                    ),
            decreases n - i,
        {
            let (key, value) = self.metadata.entry(i);
            assert(list.take(i + 1).drop_last() =~= list.take(i as int));
            assert(list.take(i + 1).last() == list[i as int]);
            r.insert(key.clone(), value.text());
            assert(r@.dom() =~= crate::text_map::map_of(list.take(i + 1)).dom());
            i = i + 1;
        }
        assert(list.take(n as int) =~= list);
        assert(r@.dom() =~= self@.metadata.dom());
        r
    }
}

} // verus!
