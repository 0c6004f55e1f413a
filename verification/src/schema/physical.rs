//! From logical to physical fields: names and ids of columns under column mapping.
use vstd::prelude::*;

use std::collections::HashMap;

use crate::column_mapping::ColumnMappingMode;
use crate::column_name::path_text;
use crate::error::{DeltaResult, Error};
use crate::schema::metadata::{
    clone_metadata, ColumnMetadataKey, MetadataMap, MetadataValue,
};
use crate::schema::struct_type::checked_struct;
use crate::schema::types::{ArrayType, DataType, MapType, StructField, StructType};
use crate::text::{cat3, cat5, i64_text, owned};

#[allow(unused_imports)]
use crate::column_name::column_text;
#[allow(unused_imports)]
use crate::error::ErrorV;
#[allow(unused_imports)]
use crate::schema::metadata::{meta_view, MetaV};
#[allow(unused_imports)]
use crate::schema::struct_type::{field_views, struct_result, unchecked_struct};
#[allow(unused_imports)]
use crate::schema::types::{
    lemma_struct_parts, lemma_type_parts, ArrayV, EntryV, FieldV, MapV, StructV, TypeV,
};
#[allow(unused_imports)]
use crate::text::{int_text, texts};

verus! {

/// The ids of columns that were met, each with the name of its field.
pub type SeenV = Map<i64, Seq<char>>;

/// The error for an annotation on a field that should not have it.
pub open spec fn unexpected_annotation_error(path: Seq<Seq<char>>, key: ColumnMetadataKey) -> ErrorV {
    ErrorV::Schema(
        "Column mapping is not enabled but field '"@ + column_text(path) + "' is annotated with "@
            + key.key(),
    )
}

/// The error for an annotation that a field lacks.
pub open spec fn missing_annotation_error(path: Seq<Seq<char>>, key: ColumnMetadataKey) -> ErrorV {
    ErrorV::Schema(
        "Column mapping is enabled but field '"@ + column_text(path) + "' lacks the "@ + key.key()
            + " annotation"@,
    )
}

/// The error for an annotation of the wrong kind.
pub open spec fn annotation_kind_error(
    path: Seq<Seq<char>>,
    key: ColumnMetadataKey,
    kind: Seq<char>,
) -> ErrorV {
    ErrorV::Schema(
        "The "@ + key.key() + " annotation on field '"@ + column_text(path) + "' must be a "@ + kind,
    )
}

/// The error for an id that two fields have.
pub open spec fn duplicate_id_error(path: Seq<Seq<char>>, id: i64, first: Seq<char>) -> ErrorV {
    ErrorV::Schema(
        "Duplicate column mapping ID "@ + int_text(id as int) + " on field '"@ + column_text(path)
            + "', already used by field '"@ + first + "'"@,
    )
}

/// What the annotations of a field say: its physical name and, under column mapping, its id, which
/// no field that was met before may have.
pub open spec fn mapping_info(
    f: FieldV,
    mode: ColumnMappingMode,
    path: Seq<Seq<char>>,
    seen: SeenV,
) -> Result<(Seq<char>, Option<i64>), ErrorV> {
    let name_key = ColumnMetadataKey::ColumnMappingPhysicalName;
    let id_key = ColumnMetadataKey::ColumnMappingId;
    let name = f.config(name_key);
    let id = f.config(id_key);
    if f.is_metadata_column() {
        if name is Some || id is Some {
            Err(
                ErrorV::Schema(
                    "Metadata column '"@ + column_text(path)
                        + "' must not have column mapping annotations"@,
                ),
            )
        } else {
            Ok((f.name, None))
        }
    } else if mode is Disabled {
        if name is Some {
            Err(unexpected_annotation_error(path, name_key))
        } else if id is Some {
            Err(unexpected_annotation_error(path, id_key))
        } else {
            Ok((f.name, None))
        }
    } else {
        match (name, id) {
            (Some(MetaV::String(s)), Some(MetaV::Number(n))) => if seen.contains_key(n) {
                Err(duplicate_id_error(path, n, seen[n]))
            } else {
                Ok((s, Some(n)))
            },
            (None, _) => Err(missing_annotation_error(path, name_key)),
            (Some(MetaV::String(_)), None) => Err(missing_annotation_error(path, id_key)),
            (Some(MetaV::String(_)), Some(_)) => Err(
                annotation_kind_error(path, id_key, "number"@),
            ),
            (Some(_), _) => Err(annotation_kind_error(path, name_key, "string"@)),
        }
    }
}

/// The ids that were met, with that of one more field.
pub open spec fn seen_with(seen: SeenV, id: Option<i64>, name: Seq<char>) -> SeenV {
    match id {
        Some(n) => seen.insert(n, name),
        None => seen,
    }
}

/// The metadata of the physical field: with the column's id as Parquet field id under column
/// mapping, without any ids and names otherwise.
pub open spec fn physical_metadata(m: Map<Seq<char>, MetaV>, mode: ColumnMappingMode) -> Map<
    Seq<char>,
    MetaV,
> {
    if mode is Disabled {
        m.remove(ColumnMetadataKey::ColumnMappingPhysicalName.key()).remove(
            ColumnMetadataKey::ColumnMappingId.key(),
        ).remove(ColumnMetadataKey::ParquetFieldId.key())
    } else {
        m.insert(
            ColumnMetadataKey::ParquetFieldId.key(),
            m[ColumnMetadataKey::ColumnMappingId.key()],
        )
    }
}

/// The error for a struct without fields below the top level.
pub open spec fn nothing_left_error() -> ErrorV {
    ErrorV::InternalError("make_physical: transform returned None without setting an error"@)
}

/// The physical field of a logical one at the end of a path, and the ids that were then met.
pub open spec fn physical_field(
    f: FieldV,
    mode: ColumnMappingMode,
    path: Seq<Seq<char>>,
    seen: SeenV,
) -> Result<(FieldV, SeenV), ErrorV>
    decreases f,
{
    let at = path.push(f.name);
    match mapping_info(f, mode, at, seen) {
        Err(e) => Err(e),
        Ok((name, id)) => {
            let now_seen = seen_with(seen, id, f.name);
            if f.is_metadata_column() {
                Ok((f, now_seen))
            } else {
                match physical_type(f.data_type, mode, at, now_seen) {
                    Err(e) => Err(e),
                    Ok((data_type, then_seen)) => Ok(
                        (
                            FieldV {
                                name,
                                data_type,
                                nullable: f.nullable,
                                metadata: physical_metadata(f.metadata, mode),
                            },
                            then_seen,
                        ),
                    ),
                }
            }
        },
    }
}

/// The type with the physical fields in place of the logical ones. A variant has no column mapping
/// inside, so it stays as it is.
pub open spec fn physical_type(
    t: TypeV,
    mode: ColumnMappingMode,
    path: Seq<Seq<char>>,
    seen: SeenV,
) -> Result<(TypeV, SeenV), ErrorV>
    decreases t,
{
    match t {
        TypeV::Primitive(_) => Ok((t, seen)),
        TypeV::Variant(_) => Ok((t, seen)),
        TypeV::Array(a) => match physical_type(
            a.element,
            mode,
            path.push("<array element>"@),
            seen,
        ) {
            Err(e) => Err(e),
            Ok((element, now_seen)) => Ok(
                (
                    TypeV::Array(
                        Box::new(
                            ArrayV { label: a.label, element, contains_null: a.contains_null },
                        ),
                    ),
                    now_seen,
                ),
            ),
        },
        TypeV::MapOf(m) => match physical_type(m.key, mode, path.push("<map key>"@), seen) {
            Err(e) => Err(e),
            Ok((key, now_seen)) => match physical_type(
                m.value,
                mode,
                path.push("<map value>"@),
                now_seen,
            ) {
                Err(e) => Err(e),
                Ok((value, then_seen)) => Ok(
                    (
                        TypeV::MapOf(
                            Box::new(
                                MapV {
                                    label: m.label,
                                    key,
                                    value,
                                    value_contains_null: m.value_contains_null,
                                },
                            ),
                        ),
                        then_seen,
                    ),
                ),
            },
        },
        TypeV::Struct(s) => match physical_entries(s.entries, mode, path, seen) {
            Err(e) => Err(e),
            Ok((fields, now_seen)) => if fields.len() == 0 {
                Err(nothing_left_error())
            } else {
                Ok((TypeV::Struct(Box::new(unchecked_struct(fields))), now_seen))
            },
        },
    }
}

/// The physical fields of the fields of a struct.
pub open spec fn physical_entries(
    entries: Seq<EntryV>,
    mode: ColumnMappingMode,
    path: Seq<Seq<char>>,
    seen: SeenV,
) -> Result<(Seq<FieldV>, SeenV), ErrorV>
    decreases entries,
{
    if entries.len() == 0 {
        Ok((seq![], seen))
    } else {
        match physical_entries(entries.drop_last(), mode, path, seen) {
            Err(e) => Err(e),
            Ok((fields, now_seen)) => match physical_field(
                entries.last().field,
                mode,
                path,
                now_seen,
            ) {
                Err(e) => Err(e),
                Ok((field, then_seen)) => Ok((fields.push(field), then_seen)),
            },
        }
    }
}

/// The physical schema of a logical one, checked as a new struct type.
pub open spec fn physical_struct(s: StructV, mode: ColumnMappingMode) -> Result<StructV, ErrorV> {
    match physical_entries(s.entries, mode, seq![], Map::empty()) {
        Err(e) => Err(e),
        Ok((fields, _)) => checked_struct(fields),
    }
}

proof fn lemma_physical_entries_fail(
    entries: Seq<EntryV>,
    mode: ColumnMappingMode,
    path: Seq<Seq<char>>,
    seen: SeenV,
    n: int,
)
    requires
        0 <= n <= entries.len(),
        physical_entries(entries.take(n), mode, path, seen) is Err,
    ensures
        physical_entries(entries, mode, path, seen) == physical_entries(
            entries.take(n),
            mode,
            path,
            seen,
        ),
    decreases entries.len(),
{
    if n == entries.len() {
        assert(entries.take(n) =~= entries);
    } else {
        assert(entries.drop_last().take(n) =~= entries.take(n));
        lemma_physical_entries_fail(entries.drop_last(), mode, path, seen, n);
    }
}

/// Column mapping gives each field its physical name and, as Parquet field id, its column id, and
/// keeps everything else of it but the types of nested fields.
pub proof fn law_physical_field_under_mapping(
    f: FieldV,
    mode: ColumnMappingMode,
    path: Seq<Seq<char>>,
    seen: SeenV,
)
    requires
        !(mode is Disabled),
        !f.is_metadata_column(),
        physical_field(f, mode, path, seen) is Ok,
    ensures
        ({
            let p = physical_field(f, mode, path, seen)->Ok_0.0;
            &&& p.name == f.physical_name(mode)
            &&& p.nullable == f.nullable
            &&& p.config(ColumnMetadataKey::ParquetFieldId) == f.config(
                ColumnMetadataKey::ColumnMappingId,
            )
            &&& p.config(ColumnMetadataKey::ColumnMappingId) == f.config(
                ColumnMetadataKey::ColumnMappingId,
            )
            &&& p.config(ColumnMetadataKey::ParquetFieldId) matches Some(MetaV::Number(_))
        }),
{
    reveal_strlit("parquet.field.id");
    reveal_strlit("delta.columnMapping.id");
    assert("parquet.field.id"@.len() != "delta.columnMapping.id"@.len());
}

/// Without column mapping a field keeps its name and all metadata that is not about column mapping.
pub proof fn law_physical_field_without_mapping(f: FieldV, path: Seq<Seq<char>>, seen: SeenV)
    requires
        physical_field(f, ColumnMappingMode::Disabled, path, seen) is Ok,
    ensures
        ({
            let p = physical_field(f, ColumnMappingMode::Disabled, path, seen)->Ok_0.0;
            &&& p.name == f.name
            &&& p.nullable == f.nullable
            &&& p.config(ColumnMetadataKey::ColumnMappingId) is None
            &&& p.config(ColumnMetadataKey::ColumnMappingPhysicalName) is None
            &&& forall|k: Seq<char>| #[trigger]
                p.metadata.contains_key(k) ==> f.metadata.contains_key(k) && p.metadata[k]
                    == f.metadata[k]
        }),
{
}

/// A metadata column is left as it is.
pub proof fn law_physical_metadata_column(
    f: FieldV,
    mode: ColumnMappingMode,
    path: Seq<Seq<char>>,
    seen: SeenV,
)
    requires
        f.is_metadata_column(),
        f.config(ColumnMetadataKey::ColumnMappingId) is None,
        f.config(ColumnMetadataKey::ColumnMappingPhysicalName) is None,
    ensures
        physical_field(f, mode, path, seen) == Ok::<(FieldV, SeenV), ErrorV>((f, seen)),
{
}

/// The names that ids were met with.
pub open spec fn seen_view(seen: Map<i64, String>) -> SeenV {
    seen.map_values(|s: String| s@)
}

/// Reads the column mapping annotations of a field and records its id. The path leads to the field
/// and is used in errors.
pub fn get_field_column_mapping_info(
    field: &StructField,
    column_mapping_mode: ColumnMappingMode,
    path: &Vec<String>,
    seen: &mut HashMap<i64, String>,
) -> (r: DeltaResult<(String, Option<i64>)>)
    ensures
        match r {
            Ok((name, id)) => {
                &&& mapping_info(
                    field@,
                    column_mapping_mode,
                    texts(path@),
                    seen_view(old(seen)@),
                ) == Ok::<(Seq<char>, Option<i64>), ErrorV>((name@, id))
                &&& seen_view(final(seen)@) == seen_with(
                    seen_view(old(seen)@),
                    id,
                    field@.name,
                )
            },
            Err(e) => {
                &&& mapping_info(
                    field@,
                    column_mapping_mode,
                    texts(path@),
                    seen_view(old(seen)@),
                ) == Err::<(Seq<char>, Option<i64>), ErrorV>(e@)
                &&& final(seen)@ == old(seen)@
            },
        },
{
    broadcast use vstd::std_specs::hash::group_hash_axioms;

    let name = field.get_config_value(&ColumnMetadataKey::ColumnMappingPhysicalName);
    let id = field.get_config_value(&ColumnMetadataKey::ColumnMappingId);
    if field.is_metadata_column() {
        if name.is_some() || id.is_some() {
            return Err(
                Error::Schema(
                    cat3(
                        "Metadata column '",
                        path_text(path).as_str(),
                        "' must not have column mapping annotations",
                    ),
                ),
            );
        }
        return Ok((field.name.clone(), None));
    }
    match column_mapping_mode {
        ColumnMappingMode::Disabled => {
            if name.is_some() {
                return Err(
                    Error::Schema(
                        unexpected_annotation(path, &ColumnMetadataKey::ColumnMappingPhysicalName),
                    ),
                );
            }
            if id.is_some() {
                return Err(
                    Error::Schema(unexpected_annotation(path, &ColumnMetadataKey::ColumnMappingId)),
                );
            }
            Ok((field.name.clone(), None))
        },
        ColumnMappingMode::Id | ColumnMappingMode::Name => {
            let name = match name {
                Some(MetadataValue::String(s)) => s,
                Some(_) => {
                    return Err(
                        Error::Schema(
                            annotation_kind(
                                path,
                                &ColumnMetadataKey::ColumnMappingPhysicalName,
                                "string",
                            ),
                        ),
                    );
                },
                None => {
                    return Err(
                        Error::Schema(
                            missing_annotation(path, &ColumnMetadataKey::ColumnMappingPhysicalName),
                        ),
                    );
                },
            };
            let id = match id {
                Some(MetadataValue::Number(n)) => *n,
                Some(_) => {
                    return Err(
                        Error::Schema(
                            annotation_kind(path, &ColumnMetadataKey::ColumnMappingId, "number"),
                        ),
                    );
                },
                None => {
                    return Err(
                        Error::Schema(missing_annotation(path, &ColumnMetadataKey::ColumnMappingId)),
                    );
                },
            };
            if let Some(first) = seen.get(&id) {
                let mut text = cat5(
                    "Duplicate column mapping ID ",
                    i64_text(id).as_str(),
                    " on field '",
                    path_text(path).as_str(),
                    "', already used by field '",
                );
                text.push_str(first.as_str());
                text.push_str("'");
                return Err(Error::Schema(text));
            }
            let _ = seen.insert(id, field.name.clone());
            assert(seen_view(seen@) =~= seen_view(old(seen)@).insert(id, field@.name));
            Ok((name.clone(), Some(id)))
        },
    }
}

fn unexpected_annotation(path: &Vec<String>, key: &ColumnMetadataKey) -> (r: String)
    ensures
        ErrorV::Schema(r@) == unexpected_annotation_error(texts(path@), *key),
{
    let mut text = cat3(
        "Column mapping is not enabled but field '",
        path_text(path).as_str(),
        "' is annotated with ",
    );
    text.push_str(key.as_ref());
    text
}

fn missing_annotation(path: &Vec<String>, key: &ColumnMetadataKey) -> (r: String)
    ensures
        ErrorV::Schema(r@) == missing_annotation_error(texts(path@), *key),
{
    cat5(
        "Column mapping is enabled but field '",
        path_text(path).as_str(),
        "' lacks the ",
        key.as_ref(),
        " annotation",
    )
}

fn annotation_kind(path: &Vec<String>, key: &ColumnMetadataKey, kind: &str) -> (r: String)
    ensures
        ErrorV::Schema(r@) == annotation_kind_error(texts(path@), *key, kind@),
{
    let mut text = cat5(
        "The ",
        key.as_ref(),
        " annotation on field '",
        path_text(path).as_str(),
        "' must be a ",
    );
    text.push_str(kind);
    text
}

/// Makes physical fields of logical ones: the path to the current field, and the ids that were met.
struct MakePhysical {
    column_mapping_mode: ColumnMappingMode,
    path: Vec<String>,
    seen: HashMap<i64, String>,
}

impl MakePhysical {
    spec fn at(self) -> Seq<Seq<char>> {
        texts(self.path@)
    }

    spec fn met(self) -> SeenV {
        seen_view(self.seen@)
    }

    fn new(column_mapping_mode: ColumnMappingMode) -> (r: Self)
        ensures
            r.column_mapping_mode == column_mapping_mode,
            r.at() == Seq::<Seq<char>>::empty(),
            r.met() == Map::<i64, Seq<char>>::empty(),
    {
        broadcast use vstd::std_specs::hash::group_hash_axioms;

        let r = MakePhysical { column_mapping_mode, path: Vec::new(), seen: HashMap::new() };
        assert(r.at() =~= seq![]);
        assert(r.met() =~= Map::empty());
        r
    }

    fn enter(&mut self, name: &str)
        ensures
            final(self).column_mapping_mode == old(self).column_mapping_mode,
            final(self).at() == old(self).at().push(name@),
            final(self).path@.len() == old(self).path@.len() + 1,
            final(self).path@.drop_last() == old(self).path@,
            final(self).met() == old(self).met(),
    {
        self.path.push(owned(name));
        assert(self.at() =~= old(self).at().push(name@));
        assert(self.path@.drop_last() =~= old(self).path@);
    }

    fn exit(&mut self)
        requires
            old(self).path@.len() > 0,
        ensures
            final(self).column_mapping_mode == old(self).column_mapping_mode,
            final(self).path@ == old(self).path@.drop_last(),
            final(self).met() == old(self).met(),
    {
        let _ = self.path.pop();
    }

    fn run_type(&mut self, t: &DataType) -> (r: DeltaResult<DataType>)
        ensures
            final(self).column_mapping_mode == old(self).column_mapping_mode,
            match r {
                Ok(p) => {
                    &&& final(self).path@ == old(self).path@
                    &&& physical_type(
                        t@,
                        old(self).column_mapping_mode,
                        old(self).at(),
                        old(self).met(),
                    ) == Ok::<(TypeV, SeenV), ErrorV>((p@, final(self).met()))
                },
                Err(e) => physical_type(
                    t@,
                    old(self).column_mapping_mode,
                    old(self).at(),
                    old(self).met(),
                ) == Err::<(TypeV, SeenV), ErrorV>(e@),
            },
        decreases t@,
    {
        proof {
            lemma_type_parts(t@);
        }
        match t {
            DataType::Primitive(_) => Ok(t.clone()),
            DataType::Variant(_) => Ok(t.clone()),
            DataType::Array(a) => {
                self.enter("<array element>");
                let element_type = match self.run_type(&a.element_type) {
                    Ok(p) => p,
                    Err(e) => {
                        return Err(e);
                    },
                };
                self.exit();
                Ok(
                    DataType::Array(
                        Box::new(
                            ArrayType {
                                type_label: a.type_label.clone(),
                                element_type,
                                contains_null: a.contains_null,
                            },
                        ),
                    ),
                )
            },
            DataType::MapOf(m) => {
                self.enter("<map key>");
                let key_type = match self.run_type(&m.key_type) {
                    Ok(p) => p,
                    Err(e) => {
                        return Err(e);
                    },
                };
                self.exit();
                self.enter("<map value>");
                let value_type = match self.run_type(&m.value_type) {
                    Ok(p) => p,
                    Err(e) => {
                        return Err(e);
                    },
                };
                self.exit();
                Ok(
                    DataType::MapOf(
                        Box::new(
                            MapType {
                                type_label: m.type_label.clone(),
                                key_type,
                                value_type,
                                value_contains_null: m.value_contains_null,
                            },
                        ),
                    ),
                )
            },
            DataType::Struct(s) => {
                let fields = match self.run_struct(s) {
                    Ok(fields) => fields,
                    Err(e) => {
                        return Err(e);
                    },
                };
                if fields.len() == 0 {
                    return Err(
                        Error::internal_error(
                            "make_physical: transform returned None without setting an error",
                        ),
                    );
                }
                Ok(DataType::Struct(Box::new(StructType::new_unchecked(fields))))
            },
        }
    }

    fn run_struct(&mut self, s: &StructType) -> (r: DeltaResult<Vec<StructField>>)
        ensures
            final(self).column_mapping_mode == old(self).column_mapping_mode,
            match r {
                Ok(fields) => {
                    &&& final(self).path@ == old(self).path@
                    &&& physical_entries(
                        s@.entries,
                        old(self).column_mapping_mode,
                        old(self).at(),
                        old(self).met(),
                    ) == Ok::<(Seq<FieldV>, SeenV), ErrorV>(
                        (field_views(fields@), final(self).met()),
                    )
                },
                Err(e) => physical_entries(
                    s@.entries,
                    old(self).column_mapping_mode,
                    old(self).at(),
                    old(self).met(),
                ) == Err::<(Seq<FieldV>, SeenV), ErrorV>(e@),
            },
        decreases s@,
    {
        let n: usize = s.num_fields();
        let ghost entries = s@.entries;
        let ghost mode = self.column_mapping_mode;
        let ghost at = self.at();
        let ghost met = self.met();
        let mut fields: Vec<StructField> = Vec::new();
        let mut i: usize = 0;
        assert(field_views(fields@) =~= seq![]);
        while i < n
            invariant
                i <= n,
                n == entries.len(),
                entries == s@.entries,
                mode == old(self).column_mapping_mode,
                at == old(self).at(),
                met == old(self).met(),
                self.column_mapping_mode == mode,
                self.path@ == old(self).path@,
                physical_entries(entries.take(i as int), mode, at, met) == Ok::<
                    (Seq<FieldV>, SeenV),
                    ErrorV,
                >((field_views(fields@), self.met())),
            decreases n - i,
        {
            proof {
                lemma_struct_parts(s@, i as int);
                assert(entries.take(i + 1).drop_last() =~= entries.take(i as int));
                assert(entries.take(i + 1).last() == entries[i as int]);
            }
            if let Some(field) = s.field_at_index(i) {
                match self.run_field(field) {
                    Ok(p) => {
                        let ghost before = field_views(fields@);
                        fields.push(p);
                        assert(field_views(fields@) =~= before.push(p@));
                    },
                    Err(e) => {
                        proof {
                            lemma_physical_entries_fail(entries, mode, at, met, i + 1);
                        }
                        return Err(e);
                    },
                }
            }
            i = i + 1;
        }
        assert(entries.take(n as int) =~= entries);
        Ok(fields)
    }

    /// Makes the physical field of a logical one, or the first error on the way.
    fn run_field(&mut self, field: &StructField) -> (r: DeltaResult<StructField>)
        ensures
            final(self).column_mapping_mode == old(self).column_mapping_mode,
            match r {
                Ok(p) => {
                    &&& final(self).path@ == old(self).path@
                    &&& physical_field(
                        field@,
                        old(self).column_mapping_mode,
                        old(self).at(),
                        old(self).met(),
                    ) == Ok::<(FieldV, SeenV), ErrorV>((p@, final(self).met()))
                },
                Err(e) => physical_field(
                    field@,
                    old(self).column_mapping_mode,
                    old(self).at(),
                    old(self).met(),
                ) == Err::<(FieldV, SeenV), ErrorV>(e@),
            },
        decreases field@,
    {
        assert(decreases_to!(field@ => field@.data_type));
        self.enter(field.name.as_str());
        let name = match get_field_column_mapping_info(
            field,
            self.column_mapping_mode,
            &self.path,
            &mut self.seen,
        ) {
            Ok((name, _)) => name,
            Err(e) => {
                return Err(e);
            },
        };
        if field.is_metadata_column() {
            self.exit();
            return Ok(field.clone());
        }
        let metadata = field.logical_to_physical_metadata(self.column_mapping_mode);
        let data_type = match self.run_type(&field.data_type) {
            Ok(p) => p,
            Err(e) => {
                return Err(e);
            },
        };
        self.exit();
        Ok(StructField { name, data_type, nullable: field.nullable, metadata })
    }
}

impl StructField {
    /// The metadata of the physical field.
    ///
    /// Under column mapping the field has been checked to have an id and a physical name.
    fn logical_to_physical_metadata(&self, column_mapping_mode: ColumnMappingMode) -> (r:
        MetadataMap)
        requires
            !(column_mapping_mode is Disabled) ==> {
                &&& self@.config(ColumnMetadataKey::ColumnMappingId) matches Some(MetaV::Number(_))
                &&& self@.config(ColumnMetadataKey::ColumnMappingPhysicalName) is Some
            },
        ensures
            meta_view(r@) == physical_metadata(self@.metadata, column_mapping_mode),
    {
        let mut base_metadata = clone_metadata(&self.metadata);
        let ghost start = base_metadata@;
        let physical_name_key = ColumnMetadataKey::ColumnMappingPhysicalName.as_ref();
        let field_id_key = ColumnMetadataKey::ColumnMappingId.as_ref();
        let parquet_field_id_key = ColumnMetadataKey::ParquetFieldId.as_ref();
        match column_mapping_mode {
            ColumnMappingMode::Id | ColumnMappingMode::Name => {
                // the column mapping id stays, so that files carry field ids in both modes
                if let Some(MetadataValue::Number(fid)) = self.metadata.get(field_id_key) {
                    base_metadata.insert(
                        owned(parquet_field_id_key),
                        MetadataValue::Number(*fid),
                    );
                    assert(meta_view(base_metadata@) =~= meta_view(start).insert(
                        parquet_field_id_key@,
                        MetaV::Number(*fid),
                    ));
                }
            },
            ColumnMappingMode::Disabled => {
                base_metadata.remove(physical_name_key);
                base_metadata.remove(field_id_key);
                base_metadata.remove(parquet_field_id_key);
                assert(meta_view(base_metadata@) =~= physical_metadata(
                    self@.metadata,
                    column_mapping_mode,
                ));
            },
        }
        base_metadata
    }

    /// Applies physical names and field ids to this field.
    ///
    /// Under column mapping the field gets its physical name, and its id as Parquet field id; else
    /// it keeps its logical name. The same holds of the fields below it.
    ///
    /// Returns an error if a field has column mapping annotations where it must not, lacks them
    /// where it must have them, or has them in the wrong type, and if two fields have the same id.
    pub fn make_physical(&self, column_mapping_mode: ColumnMappingMode) -> (r: DeltaResult<Self>)
        ensures
            match r {
                Ok(p) => physical_field(self@, column_mapping_mode, seq![], Map::empty()) is Ok
                    && p@ == physical_field(
                    self@,
                    column_mapping_mode,
                    seq![],
                    Map::empty(),
                )->Ok_0.0,
                Err(e) => physical_field(self@, column_mapping_mode, seq![], Map::empty()) == Err::<
                    (FieldV, SeenV),
                    ErrorV,
                >(e@),
            },
    {
        let mut transformer = MakePhysical::new(column_mapping_mode);
        transformer.run_field(self)
    }
}

impl StructType {
    /// Applies physical names and field ids to the fields of this schema. No two fields in the
    /// whole schema may have the same id.
    pub fn make_physical(&self, column_mapping_mode: ColumnMappingMode) -> (r: DeltaResult<Self>)
        ensures
            struct_result(r, physical_struct(self@, column_mapping_mode)),
    {
        let mut transformer = MakePhysical::new(column_mapping_mode);
        match transformer.run_struct(self) {
            Ok(fields) => StructType::try_new(fields),
            Err(e) => Err(e),
        }
    }
}

} // verus!
