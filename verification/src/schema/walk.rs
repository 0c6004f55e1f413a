//! Looking through the nested fields of a schema.
use vstd::prelude::*;

use crate::column_name::{clone_strings, ColumnName};
use crate::error::{DeltaResult, Error};
use crate::schema::types::{DataType, Schema, StructField, StructType};
use crate::text::{cat5, owned};

#[allow(unused_imports)]
use crate::column_name::column_text;
#[allow(unused_imports)]
use crate::error::ErrorV;
#[allow(unused_imports)]
use crate::schema::metadata::ColumnMetadataKey;
#[allow(unused_imports)]
use crate::schema::struct_type::{field_named, field_ref_views};
#[allow(unused_imports)]
use crate::schema::types::{
    lemma_struct_parts, lemma_type_parts, EntryV, FieldV, StructV, TypeV,
};
#[allow(unused_imports)]
use crate::text::texts;

verus! {

/// The error for a part of a column path that names no field.
pub open spec fn not_found_error(path: Seq<Seq<char>>, at: int) -> ErrorV {
    ErrorV::Generic(
        "Could not resolve column '"@ + column_text(path) + "': field '"@ + path[at]
            + "' not found in schema"@,
    )
}

/// The error for a part of a column path that should lead on and does not.
pub open spec fn not_struct_error(path: Seq<Seq<char>>, at: int) -> ErrorV {
    ErrorV::Generic(
        "Cannot resolve column '"@ + column_text(path) + "': intermediate field '"@ + path[at]
            + "' is not a struct type"@,
    )
}

/// The fields along a column path from its part `at` on, starting in the struct `s`.
pub open spec fn walk(s: StructV, path: Seq<Seq<char>>, at: int) -> Result<Seq<FieldV>, ErrorV>
    decreases path.len() - at,
{
    if at >= path.len() {
        Ok(seq![])
    } else {
        match field_named(s, path[at]) {
            None => Err(not_found_error(path, at)),
            Some(f) => if at == path.len() - 1 {
                Ok(seq![f])
            } else {
                match f.data_type {
                    TypeV::Struct(inner) => match walk(*inner, path, at + 1) {
                        Ok(rest) => Ok(seq![f] + rest),
                        Err(e) => Err(e),
                    },
                    _ => Err(not_struct_error(path, at)),
                }
            },
        }
    }
}

/// The fields along a column path.
pub open spec fn column_fields(s: StructV, path: Seq<Seq<char>>) -> Result<Seq<FieldV>, ErrorV> {
    if path.len() == 0 {
        Err(ErrorV::Generic("Column path cannot be empty"@))
    } else {
        walk(s, path, 0)
    }
}

/// Whether a search can give this result for a name in a struct.
pub open spec fn search_gives<F: for <'b>Fn(&'b StructType, &str) -> Option<&'b StructField>>(
    find_field: F,
    s: StructType,
    name: Seq<char>,
    found: Option<&StructField>,
) -> bool {
    exists|n: &str| #[trigger] n@ == name && call_ensures(find_field, (&s, n), found)
}

/// The struct in which the field at position `i` of a path of fields was searched.
pub open spec fn struct_before(s: StructType, fields: Seq<&StructField>, i: int) -> StructType {
    if i <= 0 {
        s
    } else {
        *fields[i - 1].data_type->Struct_0
    }
}

/// Whether each of the fields was found by the search in the one before it.
pub open spec fn found_in_turn<F: for <'b>Fn(&'b StructType, &str) -> Option<&'b StructField>>(
    find_field: F,
    s: StructType,
    path: Seq<Seq<char>>,
    fields: Seq<&StructField>,
) -> bool {
    &&& fields.len() <= path.len()
    &&& forall|i: int|
        0 <= i < fields.len() ==> search_gives(
            find_field,
            struct_before(s, fields, i),
            path[i],
            Some(#[trigger] fields[i]),
        )
    &&& forall|i: int|
        0 <= i < fields.len() - 1 ==> (#[trigger] fields[i]).data_type is Struct
}

/// What a walk along a path with some search can give.
pub open spec fn walk_gives<F: for <'b>Fn(&'b StructType, &str) -> Option<&'b StructField>>(
    find_field: F,
    s: StructType,
    path: Seq<Seq<char>>,
    r: Result<Seq<&StructField>, ErrorV>,
) -> bool {
    match r {
        Ok(fields) => path.len() > 0 && fields.len() == path.len() && found_in_turn(
            find_field,
            s,
            path,
            fields,
        ),
        Err(e) => if path.len() == 0 {
            e == ErrorV::Generic("Column path cannot be empty"@)
        } else {
            exists|fields: Seq<&StructField>| #[trigger]
                found_in_turn(find_field, s, path, fields) && {
                    ||| fields.len() < path.len() && (fields.len() > 0
                        ==> fields.last().data_type is Struct) && search_gives(
                        find_field,
                        struct_before(s, fields, fields.len() as int),
                        path[fields.len() as int],
                        None,
                    ) && e == not_found_error(path, fields.len() as int)
                    ||| 0 < fields.len() < path.len() && !(fields.last().data_type is Struct) && e
                        == not_struct_error(path, fields.len() - 1)
                }
        },
    }
}

fn find_by_name<'b>(s: &'b StructType, name: &str) -> (r: Option<&'b StructField>)
    ensures
        match r {
            Some(f) => field_named(s@, name@) == Some(f@),
            None => field_named(s@, name@) is None,
        },
{
    s.field(name)
}

impl StructType {
    /// Resolves a column path through nested structs: the fields along the path, of which the last
    /// one is the column itself.
    ///
    /// Returns an error if the path is empty, a field is not found, or a field that should lead on
    /// is not a struct.
    pub fn walk_column_fields<'a>(&'a self, col: &ColumnName) -> (r: DeltaResult<
        Vec<&'a StructField>,
    >)
        ensures
            match r {
                Ok(fields) => column_fields(self@, col@) == Ok::<Seq<FieldV>, ErrorV>(
                    field_ref_views(fields@),
                ),
                Err(e) => column_fields(self@, col@) == Err::<Seq<FieldV>, ErrorV>(e@),
            },
    {
        let r = self.walk_column_fields_by(col, find_by_name);
        proof {
            let path = col@;
            match &r {
                Ok(fields) => {
                    lemma_walked(*self, path, fields@, 0);
                    assert(fields@.skip(0) =~= fields@);
                },
                Err(e) => {
                    if path.len() > 0 {
                        let fields = choose|fields: Seq<&StructField>| #[trigger]
                            found_in_turn(find_by_name, *self, path, fields) && {
                                ||| fields.len() < path.len() && (fields.len() > 0
                                    ==> fields.last().data_type is Struct) && search_gives(
                                    find_by_name,
                                    struct_before(*self, fields, fields.len() as int),
                                    path[fields.len() as int],
                                    None,
                                ) && e@ == not_found_error(path, fields.len() as int)
                                ||| 0 < fields.len() < path.len() && !(
                                fields.last().data_type is Struct) && e@ == not_struct_error(
                                    path,
                                    fields.len() - 1,
                                )
                            };
                        lemma_walk_fails(*self, path, fields, 0, e@);
                    }
                },
            }
        }
        r
    }

    /// Walks along a column path. For each part of the path, `find_field` finds the field in the
    /// current struct; the next struct is that field's.
    pub fn walk_column_fields_by<
        'a,
        F: for <'b>Fn(&'b StructType, &str) -> Option<&'b StructField>,
    >(&'a self, col: &ColumnName, find_field: F) -> (r: DeltaResult<Vec<&'a StructField>>)
        requires
            forall|s: &StructType, name: &str| call_requires(find_field, (s, name)),
        ensures
            walk_gives(
                find_field,
                *self,
                col@,
                match r {
                    Ok(fields) => Ok(fields@),
                    Err(e) => Err(e@),
                },
            ),
    {
        let path = col.path();
        if path.len() == 0 {
            return Err(Error::generic("Column path cannot be empty"));
        }
        let n: usize = path.len();
        let mut current_struct = self;
        let mut fields: Vec<&'a StructField> = Vec::new();
        let mut i: usize = 0;
        while i < n
            invariant
                0 < n == path@.len(),
                i <= n,
                texts(path@) == col@,
                forall|s: &StructType, name: &str| call_requires(find_field, (s, name)),
                fields@.len() == i,
                found_in_turn(find_field, *self, col@, fields@),
                i < n ==> *current_struct == struct_before(*self, fields@, i as int),
                0 < i < n ==> fields@.last().data_type is Struct,
            decreases n - i,
        {
            let name = path[i].as_str();
            assert(name@ == col@[i as int]);
            let found = find_field(current_struct, name);
            assert(search_gives(find_field, *current_struct, col@[i as int], found));
            let field = match found {
                Some(field) => field,
                None => {
                    assert(found_in_turn(find_field, *self, col@, fields@));
                    return Err(
                        Error::Generic(
                            cat5(
                                "Could not resolve column '",
                                col.text().as_str(),
                                "': field '",
                                name,
                                "' not found in schema",
                            ),
                        ),
                    );
                },
            };
            let ghost before = fields@;
            fields.push(field);
            proof {
                assert forall|j: int| 0 <= j < fields@.len() implies search_gives(
                    find_field,
                    struct_before(*self, fields@, j),
                    col@[j],
                    Some(#[trigger] fields@[j]),
                ) by {
                    if j < before.len() {
                        assert(fields@[j] == before[j]);
                        assert(struct_before(*self, fields@, j) == struct_before(*self, before, j));
                    } else {
                        assert(struct_before(*self, fields@, j) == struct_before(*self, before, j));
                    }
                }
                assert forall|j: int| 0 <= j < fields@.len() - 1 implies (
                #[trigger] fields@[j]).data_type is Struct by {
                    assert(fields@[j] == before[j]);
                    if j == before.len() - 1 {
                        assert(before.last() == before[j]);
                    }
                }
            }
            if i < n - 1 {
                match &field.data_type {
                    DataType::Struct(inner) => {
                        current_struct = inner;
                    },
                    _ => {
                        assert(found_in_turn(find_field, *self, col@, fields@));
                        return Err(
                            Error::Generic(
                                cat5(
                                    "Cannot resolve column '",
                                    col.text().as_str(),
                                    "': intermediate field '",
                                    name,
                                    "' is not a struct type",
                                ),
                            ),
                        );
                    },
                }
            }
            i = i + 1;
        }
        Ok(fields)
    }
}

proof fn lemma_walked(s: StructType, path: Seq<Seq<char>>, fields: Seq<&StructField>, at: int)
    requires
        0 <= at < path.len(),
        fields.len() == path.len(),
        found_in_turn(find_by_name, s, path, fields),
    ensures
        walk(struct_before(s, fields, at)@, path, at) == Ok::<Seq<FieldV>, ErrorV>(
            field_ref_views(fields.skip(at)),
        ),
    decreases path.len() - at,
{
    assert(search_gives(find_by_name, struct_before(s, fields, at), path[at], Some(fields[at])));
    assert(field_named(struct_before(s, fields, at)@, path[at]) == Some(fields[at]@));
    if at < path.len() - 1 {
        assert(fields[at].data_type is Struct);
        lemma_walked(s, path, fields, at + 1);
        assert(field_ref_views(fields.skip(at)) =~= seq![fields[at]@] + field_ref_views(
            fields.skip(at + 1),
        ));
    } else {
        assert(field_ref_views(fields.skip(at)) =~= seq![fields[at]@]);
    }
}

proof fn lemma_walk_fails(
    s: StructType,
    path: Seq<Seq<char>>,
    fields: Seq<&StructField>,
    at: int,
    e: ErrorV,
)
    requires
        0 <= at <= fields.len(),
        found_in_turn(find_by_name, s, path, fields),
        ({
            ||| fields.len() < path.len() && (fields.len() > 0 ==> fields.last().data_type is Struct)
                && search_gives(
                find_by_name,
                struct_before(s, fields, fields.len() as int),
                path[fields.len() as int],
                None,
            ) && e == not_found_error(path, fields.len() as int)
            ||| at < fields.len() < path.len() && !(fields.last().data_type is Struct) && e
                == not_struct_error(path, fields.len() - 1)
        }),
    ensures
        walk(struct_before(s, fields, at)@, path, at) == Err::<Seq<FieldV>, ErrorV>(e),
    decreases fields.len() - at,
{
    if at < fields.len() {
        assert(search_gives(find_by_name, struct_before(s, fields, at), path[at], Some(fields[at])));
        assert(field_named(struct_before(s, fields, at)@, path[at]) == Some(fields[at]@));
        if at < fields.len() - 1 {
            assert(fields[at].data_type is Struct);
            lemma_walk_fails(s, path, fields, at + 1, e);
        } else if fields.last().data_type is Struct {
            lemma_walk_fails(s, path, fields, at + 1, e);
        }
    }
}

/// The number of fields in a type, at every level.
pub open spec fn count_fields(t: TypeV) -> nat
    decreases t,
{
    match t {
        TypeV::Struct(s) => count_entries(s.entries),
        TypeV::Array(a) => count_fields(a.element),
        TypeV::MapOf(m) => count_fields(m.key) + count_fields(m.value),
        _ => 0,
    }
}

/// The number of fields among entries and below them.
pub open spec fn count_entries(entries: Seq<EntryV>) -> nat
    decreases entries,
{
    if entries.len() == 0 {
        0
    } else {
        count_entries(entries.drop_last()) + 1 + count_fields(entries.last().field.data_type)
    }
}

proof fn lemma_count_prefix(entries: Seq<EntryV>, n: int)
    requires
        0 <= n <= entries.len(),
    ensures
        count_entries(entries.take(n)) <= count_entries(entries),
    decreases entries.len(),
{
    if n == entries.len() {
        assert(entries.take(n) =~= entries);
    } else {
        assert(entries.drop_last().take(n) =~= entries.take(n));
        lemma_count_prefix(entries.drop_last(), n);
    }
}

fn count_data_type(t: &DataType) -> (r: usize)
    requires
        count_fields(t@) <= usize::MAX,
    ensures
        r == count_fields(t@),
    decreases t@,
{
    proof {
        lemma_type_parts(t@);
    }
    match t {
        DataType::Struct(inner) => count_struct(inner),
        DataType::Array(array) => count_data_type(&array.element_type),
        DataType::MapOf(map) => count_data_type(&map.key_type) + count_data_type(&map.value_type),
        _ => 0,
    }
}

fn count_struct(s: &StructType) -> (r: usize)
    requires
        count_entries(s@.entries) <= usize::MAX,
    ensures
        r == count_entries(s@.entries),
    decreases s@,
{
    let n: usize = s.num_fields();
    let ghost entries = s@.entries;
    let mut total: usize = 0;
    let mut i: usize = 0;
    while i < n
        invariant
            i <= n,
            n == entries.len(),
            entries == s@.entries,
            count_entries(entries) <= usize::MAX,
            total == count_entries(entries.take(i as int)),
        decreases n - i,
    {
        proof {
            lemma_struct_parts(s@, i as int);
            assert(entries.take(i + 1).drop_last() =~= entries.take(i as int));
            lemma_count_prefix(entries, i + 1);
        }
        if let Some(field) = s.field_at_index(i) {
            total = total + 1 + count_data_type(&field.data_type);
        }
        i = i + 1;
    }
    assert(entries.take(n as int) =~= entries);
    total
}

/// Whether a field, or one below it, has invariants defined.
pub open spec fn field_has_invariants(f: FieldV) -> bool
    decreases f,
{
    f.metadata.contains_key(ColumnMetadataKey::Invariants.key()) || type_has_invariants(f.data_type)
}

/// Whether a field in a type has invariants defined.
pub open spec fn type_has_invariants(t: TypeV) -> bool
    decreases t,
{
    match t {
        TypeV::Primitive(_) => false,
        TypeV::Array(a) => type_has_invariants(a.element),
        TypeV::MapOf(m) => type_has_invariants(m.key) || type_has_invariants(m.value),
        TypeV::Struct(s) => any_has_invariants(s.entries),
        TypeV::Variant(s) => any_has_invariants(s.entries),
    }
}

/// Whether one of the entries has invariants defined.
pub open spec fn any_has_invariants(entries: Seq<EntryV>) -> bool
    decreases entries,
{
    if entries.len() == 0 {
        false
    } else {
        any_has_invariants(entries.drop_last()) || field_has_invariants(entries.last().field)
    }
}

proof fn lemma_any_invariants_grows(entries: Seq<EntryV>, n: int)
    requires
        0 <= n <= entries.len(),
        any_has_invariants(entries.take(n)),
    ensures
        any_has_invariants(entries),
    decreases entries.len(),
{
    if n == entries.len() {
        assert(entries.take(n) =~= entries);
    } else {
        assert(entries.drop_last().take(n) =~= entries.take(n));
        lemma_any_invariants_grows(entries.drop_last(), n);
    }
}

fn invariants_in_type(t: &DataType) -> (r: bool)
    ensures
        r == type_has_invariants(t@),
    decreases t@,
{
    proof {
        lemma_type_parts(t@);
    }
    match t {
        DataType::Primitive(_) => false,
        DataType::Array(a) => invariants_in_type(&a.element_type),
        DataType::MapOf(m) => invariants_in_type(&m.key_type) || invariants_in_type(&m.value_type),
        DataType::Struct(s) => invariants_in_struct(s),
        DataType::Variant(s) => invariants_in_struct(s),
    }
}

fn invariants_in_struct(s: &StructType) -> (r: bool)
    ensures
        r == any_has_invariants(s@.entries),
    decreases s@,
{
    let n: usize = s.num_fields();
    let ghost entries = s@.entries;
    let mut i: usize = 0;
    while i < n
        invariant
            i <= n,
            n == entries.len(),
            entries == s@.entries,
            !any_has_invariants(entries.take(i as int)),
        decreases n - i,
    {
        proof {
            lemma_struct_parts(s@, i as int);
            assert(entries.take(i + 1).drop_last() =~= entries.take(i as int));
            assert(entries.take(i + 1).last() == entries[i as int]);
        }
        if let Some(field) = s.field_at_index(i) {
            let found = field.has_invariants() || invariants_in_type(&field.data_type);
            assert(found == field_has_invariants(field@));
            if found {
                proof {
                    lemma_any_invariants_grows(entries, i + 1);
                }
                return true;
            }
        }
        i = i + 1;
    }
    assert(entries.take(n as int) =~= entries);
    false
}

/// Checks if any column in the schema, nested ones included, has invariants defined.
pub fn schema_has_invariants(schema: &Schema) -> (r: bool)
    ensures
        r == any_has_invariants(schema@.entries),
{
    invariants_in_struct(schema)
}

/// A leaf column: its path and its type.
pub struct LeafV {
    pub path: Seq<Seq<char>>,
    pub data_type: TypeV,
}

/// The leaf columns among entries, below the given path. Only structs are looked into.
pub open spec fn leaf_columns(entries: Seq<EntryV>, path: Seq<Seq<char>>) -> Seq<LeafV>
    decreases entries,
{
    if entries.len() == 0 {
        seq![]
    } else {
        leaf_columns(entries.drop_last(), path) + field_leaves(entries.last().field, path)
    }
}

/// The leaf columns of a field below the given path: the field itself, or those of its struct.
pub open spec fn field_leaves(f: FieldV, path: Seq<Seq<char>>) -> Seq<LeafV>
    decreases f,
{
    match f.data_type {
        TypeV::Struct(s) => leaf_columns(s.entries, path.push(f.name)),
        _ => seq![LeafV { path: path.push(f.name), data_type: f.data_type }],
    }
}

/// Names of columns, and their types.
#[derive(Debug)]
pub struct ColumnNamesAndTypes {
    names: Vec<ColumnName>,
    types: Vec<DataType>,
}

impl View for ColumnNamesAndTypes {
    type V = (Seq<Seq<Seq<char>>>, Seq<TypeV>);

    closed spec fn view(&self) -> (Seq<Seq<Seq<char>>>, Seq<TypeV>) {
        (column_views(self.names@), type_views(self.types@))
    }
}

/// Column names as models.
pub open spec fn column_views(names: Seq<ColumnName>) -> Seq<Seq<Seq<char>>> {
    Seq::new(names.len(), |i: int| names[i]@)
}

/// Data types as models.
pub open spec fn type_views(types: Seq<DataType>) -> Seq<TypeV> {
    Seq::new(types.len(), |i: int| types[i]@)
}

/// The paths of leaf columns.
pub open spec fn leaf_paths(leaves: Seq<LeafV>) -> Seq<Seq<Seq<char>>> {
    Seq::new(leaves.len(), |i: int| leaves[i].path)
}

/// The types of leaf columns.
pub open spec fn leaf_types(leaves: Seq<LeafV>) -> Seq<TypeV> {
    Seq::new(leaves.len(), |i: int| leaves[i].data_type)
}

impl ColumnNamesAndTypes {
    /// The names and the types of columns.
    pub fn new(names: Vec<ColumnName>, types: Vec<DataType>) -> (r: Self)
        ensures
            r@ == (column_views(names@), type_views(types@)),
    {
        ColumnNamesAndTypes { names, types }
    }

    /// The names and the types.
    pub fn as_ref(&self) -> (r: (&Vec<ColumnName>, &Vec<DataType>))
        ensures
            (column_views(r.0@), type_views(r.1@)) == self@,
    {
        (&self.names, &self.types)
    }
}

/// Copies of column names.
pub(crate) fn clone_columns(names: &Vec<ColumnName>) -> (r: Vec<ColumnName>)
    ensures
        column_views(r@) == column_views(names@),
{
    let mut r: Vec<ColumnName> = Vec::new();
    let mut i: usize = 0;
    while i < names.len()
        invariant
            i <= names@.len(),
            r@.len() == i,
            forall|j: int| 0 <= j < i ==> (#[trigger] r@[j])@ == names@[j]@,
        decreases names@.len() - i,
    {
        r.push(names[i].clone());
        i = i + 1;
    }
    assert(column_views(r@) =~= column_views(names@));
    r
}

/// Copies of data types.
pub(crate) fn clone_types(types: &Vec<DataType>) -> (r: Vec<DataType>)
    ensures
        type_views(r@) == type_views(types@),
{
    let mut r: Vec<DataType> = Vec::new();
    let mut i: usize = 0;
    while i < types.len()
        invariant
            i <= types@.len(),
            r@.len() == i,
            forall|j: int| 0 <= j < i ==> (#[trigger] r@[j])@ == types@[j]@,
        decreases types@.len() - i,
    {
        r.push(types[i].clone());
        i = i + 1;
    }
    assert(type_views(r@) =~= type_views(types@));
    r
}

impl Clone for ColumnNamesAndTypes {
    fn clone(&self) -> (r: Self)
        ensures
            r@ == self@,
    {
        ColumnNamesAndTypes { names: clone_columns(&self.names), types: clone_types(&self.types) }
    }
}

impl Default for ColumnNamesAndTypes {
    fn default() -> (r: Self)
        ensures
            r@.0 == Seq::<Seq<Seq<char>>>::empty(),
            r@.1 == Seq::<TypeV>::empty(),
    {
        ColumnNamesAndTypes { names: Vec::new(), types: Vec::new() }
    }
}

fn collect_leaves(
    s: &StructType,
    path: &mut Vec<String>,
    names: &mut Vec<ColumnName>,
    types: &mut Vec<DataType>,
)
    ensures
        final(path)@ == old(path)@,
        column_views(final(names)@) == column_views(old(names)@) + leaf_paths(
            leaf_columns(s@.entries, texts(old(path)@)),
        ),
        type_views(final(types)@) == type_views(old(types)@) + leaf_types(
            leaf_columns(s@.entries, texts(old(path)@)),
        ),
    decreases s@,
{
    let n: usize = s.num_fields();
    let ghost entries = s@.entries;
    let ghost at = texts(path@);
    let ghost names0 = column_views(names@);
    let ghost types0 = type_views(types@);
    let mut i: usize = 0;
    assert(column_views(names@) =~= names0 + leaf_paths(leaf_columns(entries.take(0), at)));
    assert(type_views(types@) =~= types0 + leaf_types(leaf_columns(entries.take(0), at)));
    while i < n
        invariant
            i <= n,
            n == entries.len(),
            entries == s@.entries,
            path@ == old(path)@,
            at == texts(path@),
            column_views(names@) == names0 + leaf_paths(leaf_columns(entries.take(i as int), at)),
            type_views(types@) == types0 + leaf_types(leaf_columns(entries.take(i as int), at)),
        decreases n - i,
    {
        let ghost next = entries.take(i + 1);
        let ghost path0 = path@;
        let ghost names1 = column_views(names@);
        let ghost types1 = type_views(types@);
        proof {
            lemma_struct_parts(s@, i as int);
            assert(next.drop_last() =~= entries.take(i as int));
            assert(next.last() == entries[i as int]);
        }
        if let Some(field) = s.field_at_index(i) {
            path.push(field.name.clone());
            proof {
                assert(texts(path@) =~= at.push(field@.name));
                lemma_type_parts(field@.data_type);
            }
            match &field.data_type {
                DataType::Struct(inner) => {
                    collect_leaves(inner, path, names, types);
                },
                _ => {
                    let name = ColumnName::new(clone_strings(path));
                    let data_type = field.data_type.clone();
                    let ghost leaf = LeafV { path: name@, data_type: data_type@ };
                    names.push(name);
                    types.push(data_type);
                    proof {
                        assert(column_views(names@) =~= names1.push(leaf.path));
                        assert(type_views(types@) =~= types1.push(leaf.data_type));
                        assert(field_leaves(field@, at) =~= seq![leaf]);
                    }
                },
            }
            let _ = path.pop();
            proof {
                assert(path@ =~= path0);
                let leaves = field_leaves(field@, at);
                assert(column_views(names@) =~= names1 + leaf_paths(leaves));
                assert(type_views(types@) =~= types1 + leaf_types(leaves));
                let before = leaf_columns(entries.take(i as int), at);
                assert(leaf_columns(next, at) == before + leaves);
                assert(leaf_paths(before + leaves) =~= leaf_paths(before) + leaf_paths(leaves));
                assert(leaf_types(before + leaves) =~= leaf_types(before) + leaf_types(leaves));
                assert(column_views(names@) =~= names0 + leaf_paths(leaf_columns(next, at)));
                assert(type_views(types@) =~= types0 + leaf_types(leaf_columns(next, at)));
            }
        }
        i = i + 1;
    }
    assert(entries.take(n as int) =~= entries);
}

impl StructType {
    /// Counts all fields in this schema: those of nested structs too, wherever they stand in arrays
    /// and maps, but not the arrays and maps themselves.
    pub fn total_struct_fields(&self) -> (r: usize)
        requires
            count_entries(self@.entries) <= usize::MAX,
        ensures
            r == count_entries(self@.entries),
    {
        count_struct(self)
    }

    /// The names and types of all leaf columns, in schema order. `own_name` is the name of this
    /// schema in a larger one, if it is part of one.
    ///
    /// Only structs are looked into: arrays, maps and variants are leaves.
    pub fn leaves(&self, own_name: Option<&str>) -> (r: ColumnNamesAndTypes)
        ensures
            ({
                let path = match own_name {
                    Some(name) => seq![name@],
                    None => seq![],
                };
                r@ == (
                    leaf_paths(leaf_columns(self@.entries, path)),
                    leaf_types(leaf_columns(self@.entries, path)),
                )
            }),
    {
        let mut path: Vec<String> = Vec::new();
        if let Some(name) = own_name {
            path.push(owned(name));
            assert(texts(path@) =~= seq![name@]);
        } else {
            assert(texts(path@) =~= seq![]);
        }
        let mut names: Vec<ColumnName> = Vec::new();
        let mut types: Vec<DataType> = Vec::new();
        let ghost leaves = leaf_columns(self@.entries, texts(path@));
        collect_leaves(self, &mut path, &mut names, &mut types);
        assert(column_views(names@) =~= leaf_paths(leaves));
        assert(type_views(types@) =~= leaf_types(leaves));
        ColumnNamesAndTypes::new(names, types)
    }
}

} // verus!
