//! Struct types: how they are built and checked, and what can be asked of them.
use vstd::prelude::*;

use crate::error::{DeltaResult, Error};
use crate::schema::metadata::MetadataColumnSpec;
use crate::schema::types::{
    DataType, FieldMap, MetadataPositions, SchemaRef, StructField, StructType,
};
use crate::text::{cat2, cat3, owned, text_eq};

#[allow(unused_imports)]
use crate::error::ErrorV;
#[allow(unused_imports)]
use crate::schema::field::metadata_column_field;
#[allow(unused_imports)]
use crate::schema::metadata::spec_debug_text;
#[allow(unused_imports)]
use crate::schema::types::{
    distinct_keys, entry_fields, entry_positions, field_entries, has_key, key_index,
    lemma_put_distinct, lemma_struct_parts, lemma_type_parts, own_names, positions, put,
    valid_struct, EntryV, FieldV, StructV, TypeV,
};
#[allow(unused_imports)]
use crate::text::texts;

verus! {

/// What `str::to_lowercase` of std makes of a text.
pub uninterp spec fn lowercase(s: Seq<char>) -> Seq<char>;

/// `str::to_lowercase` of std, by the name of its result.
#[verifier::external_body]
pub(crate) fn to_lowercase(s: &str) -> (r: String)
    ensures
        r@ == lowercase(s@),
{
    s.to_lowercase()
}

/// Fields as models.
pub open spec fn field_views(fields: Seq<StructField>) -> Seq<FieldV> {
    Seq::new(fields.len(), |i: int| fields[i]@)
}

/// Borrowed fields as models.
pub open spec fn field_ref_views(fields: Seq<&StructField>) -> Seq<FieldV> {
    Seq::new(fields.len(), |i: int| fields[i]@)
}

/// The fields of a struct, in order.
pub open spec fn fields_of(s: StructV) -> Seq<FieldV> {
    Seq::new(s.entries.len(), |i: int| s.entries[i].field)
}

/// Whether a field is a metadata column or has one below it.
pub open spec fn holds_metadata_column(f: FieldV) -> bool
    decreases f,
{
    f.is_metadata_column() || type_holds_metadata_column(f.data_type)
}

/// Whether there is a metadata column somewhere in a type.
pub open spec fn type_holds_metadata_column(t: TypeV) -> bool
    decreases t,
{
    match t {
        TypeV::Primitive(_) => false,
        TypeV::Array(a) => type_holds_metadata_column(a.element),
        TypeV::MapOf(m) => type_holds_metadata_column(m.key) || type_holds_metadata_column(m.value),
        TypeV::Struct(s) => any_holds_metadata_column(s.entries),
        TypeV::Variant(s) => any_holds_metadata_column(s.entries),
    }
}

/// Whether one of the entries is a metadata column or has one below it.
pub open spec fn any_holds_metadata_column(entries: Seq<EntryV>) -> bool
    decreases entries,
{
    if entries.len() == 0 {
        false
    } else {
        any_holds_metadata_column(entries.drop_last()) || holds_metadata_column(
            entries.last().field,
        )
    }
}

/// The error for a metadata column below the top level.
pub open spec fn nested_metadata_error() -> ErrorV {
    ErrorV::Schema("Metadata columns are only allowed at the top level of a schema"@)
}

/// The names of fields in lower case.
pub open spec fn lowered_names(fields: Seq<FieldV>) -> Seq<Seq<char>> {
    Seq::new(fields.len(), |i: int| lowercase(fields[i].name))
}

/// Whether a list has a name for each field, and the same one for fields of the same name.
pub open spec fn names_each(lowered: Seq<Seq<char>>, fields: Seq<FieldV>) -> bool {
    &&& lowered.len() == fields.len()
    &&& forall|i: int, j: int|
        0 <= i < fields.len() && 0 <= j < fields.len() && (#[trigger] fields[i]).name == (
        #[trigger] fields[j]).name ==> lowered[i] == lowered[j]
}

/// What is wrong with a field, given those before it and all names in lower case: a metadata
/// column below it, a metadata column of a kind that is already there, or a name that is already
/// there up to case.
pub open spec fn field_error(fields: Seq<FieldV>, lowered: Seq<Seq<char>>, i: int) -> Option<
    ErrorV,
> {
    let f = fields[i];
    if !(f.data_type is Primitive) && holds_metadata_column(f) {
        Some(nested_metadata_error())
    } else if f.metadata_spec() is Some && exists|j: int|
        0 <= j < i && (#[trigger] fields[j]).metadata_spec() == f.metadata_spec() {
        Some(ErrorV::Schema("Duplicate metadata column: "@ + spec_debug_text(f.metadata_spec()->0)))
    } else if exists|j: int| 0 <= j < i && #[trigger] lowered[j] == lowered[i] {
        Some(ErrorV::Schema("Duplicate field name (case-insensitive): '"@ + f.name + "'"@))
    } else {
        None
    }
}

/// The first thing that is wrong with the first `n` fields.
pub open spec fn first_error(fields: Seq<FieldV>, lowered: Seq<Seq<char>>, n: int) -> Option<ErrorV>
    decreases n,
{
    if n <= 0 {
        None
    } else {
        match first_error(fields, lowered, n - 1) {
            Some(e) => Some(e),
            None => field_error(fields, lowered, n - 1),
        }
    }
}

/// Fields under their own names.
pub open spec fn entries_of(fields: Seq<FieldV>) -> Seq<EntryV> {
    Seq::new(fields.len(), |i: int| EntryV { key: fields[i].name, field: fields[i] })
}

/// The struct of the given fields.
pub open spec fn struct_of(fields: Seq<FieldV>) -> StructV {
    StructV {
        label: "struct"@,
        entries: entries_of(fields),
        specials: positions(fields, fields.len() as int),
    }
}

/// The struct of the given fields with the given names in lower case, or the first thing that is
/// wrong with them.
pub open spec fn checked_with_lowered(fields: Seq<FieldV>, lowered: Seq<Seq<char>>) -> Result<
    StructV,
    ErrorV,
> {
    match first_error(fields, lowered, fields.len() as int) {
        None => Ok(struct_of(fields)),
        Some(e) => Err(e),
    }
}

/// The struct of the given fields, or the first thing that is wrong with them.
pub open spec fn checked_struct(fields: Seq<FieldV>) -> Result<StructV, ErrorV> {
    checked_with_lowered(fields, lowered_names(fields))
}

/// The first `n` fields under their names, each in the place of an earlier one of its name.
pub open spec fn put_all(fields: Seq<FieldV>, n: int) -> Seq<EntryV>
    decreases n,
{
    if n <= 0 {
        seq![]
    } else {
        put(put_all(fields, n - 1), fields[n - 1].name, fields[n - 1])
    }
}

/// The struct of the given fields when nothing is checked.
pub open spec fn unchecked_struct(fields: Seq<FieldV>) -> StructV {
    StructV {
        label: "struct"@,
        entries: put_all(fields, fields.len() as int),
        specials: entry_positions(put_all(fields, fields.len() as int)),
    }
}

/// Whether a result shows a struct or an error as expected.
pub open spec fn struct_result(r: DeltaResult<StructType>, expected: Result<StructV, ErrorV>) -> bool {
    match r {
        Ok(s) => expected == Ok::<StructV, ErrorV>(s@),
        Err(e) => expected == Err::<StructV, ErrorV>(e@),
    }
}

proof fn lemma_first_error(fields: Seq<FieldV>, lowered: Seq<Seq<char>>, n: int, i: int)
    requires
        0 <= i < n,
        first_error(fields, lowered, n) is None,
    ensures
        field_error(fields, lowered, i) is None,
    decreases n,
{
    if i < n - 1 {
        lemma_first_error(fields, lowered, n - 1, i);
    }
}

proof fn lemma_first_error_stays(fields: Seq<FieldV>, lowered: Seq<Seq<char>>, m: int, n: int)
    requires
        m <= n,
        first_error(fields, lowered, m) is Some,
    ensures
        first_error(fields, lowered, n) == first_error(fields, lowered, m),
    decreases n,
{
    if m < n && n > 0 {
        lemma_first_error_stays(fields, lowered, m, n - 1);
    }
}

/// In a struct whose fields passed the checks, no two names are the same up to case.
pub proof fn law_names_distinct_up_to_case(fields: Seq<FieldV>, i: int, j: int)
    requires
        checked_struct(fields) is Ok,
        0 <= i < j < fields.len(),
    ensures
        lowercase(fields[i].name) != lowercase(fields[j].name),
        fields[i].name != fields[j].name,
{
    let lowered = lowered_names(fields);
    lemma_first_error(fields, lowered, fields.len() as int, j);
    assert(lowered[i] == lowercase(fields[i].name));
}

/// In a struct whose fields passed the checks, there is no metadata column below the top level.
pub proof fn law_metadata_columns_at_top_level(fields: Seq<FieldV>, i: int)
    requires
        checked_struct(fields) is Ok,
        0 <= i < fields.len(),
    ensures
        !type_holds_metadata_column(fields[i].data_type),
{
    lemma_first_error(fields, lowered_names(fields), fields.len() as int, i);
}

/// In a struct whose fields passed the checks, the position of a kind of metadata column is that
/// of the one field of this kind.
pub proof fn law_metadata_position(fields: Seq<FieldV>, s: MetadataColumnSpec)
    requires
        checked_struct(fields) is Ok,
    ensures
        ({
            let specials = struct_of(fields).specials;
            if specials.contains_key(s) {
                &&& 0 <= specials[s] < fields.len()
                &&& forall|i: int|
                    0 <= i < fields.len() ==> ((#[trigger] fields[i]).metadata_spec() == Some(s)
                        <==> i == specials[s])
            } else {
                forall|i: int|
                    0 <= i < fields.len() ==> (#[trigger] fields[i]).metadata_spec() != Some(s)
            }
        }),
{
    lemma_last_position(fields, fields.len() as int, s);
    let specials = struct_of(fields).specials;
    if specials.contains_key(s) {
        assert forall|i: int| 0 <= i < fields.len() && (#[trigger] fields[i]).metadata_spec()
            == Some(s) implies i == specials[s] by {
            let p = specials[s];
            if i < p {
                lemma_first_error(fields, lowered_names(fields), fields.len() as int, p);
            } else if p < i {
                lemma_first_error(fields, lowered_names(fields), fields.len() as int, i);
            }
        }
    }
}

/// Fields whose names are all different stand in a struct in their order, checked or not.
pub proof fn law_unchecked_keeps_distinct_names(fields: Seq<FieldV>)
    requires
        forall|i: int, j: int|
            0 <= i < j < fields.len() ==> (#[trigger] fields[i]).name != (#[trigger] fields[j]).name,
    ensures
        unchecked_struct(fields) == struct_of(fields),
{
    lemma_put_all(fields, fields.len() as int);
    assert(entries_of(fields).take(fields.len() as int) =~= entries_of(fields));
    assert(entry_fields(entries_of(fields)) =~= fields);
}

proof fn lemma_put_all(fields: Seq<FieldV>, n: int)
    requires
        0 <= n <= fields.len(),
        forall|i: int, j: int|
            0 <= i < j < fields.len() ==> (#[trigger] fields[i]).name != (#[trigger] fields[j]).name,
    ensures
        put_all(fields, n) == entries_of(fields).take(n),
    decreases n,
{
    if n > 0 {
        lemma_put_all(fields, n - 1);
        let before = entries_of(fields).take(n - 1);
        assert(!has_key(before, fields[n - 1].name)) by {
            if has_key(before, fields[n - 1].name) {
                let i = key_index(before, fields[n - 1].name);
                assert(before[i].key == fields[i].name);
            }
        }
        assert(put_all(fields, n) =~= entries_of(fields).take(n));
    } else {
        assert(put_all(fields, n) =~= entries_of(fields).take(n));
    }
}

fn any_metadata_column(s: &StructType) -> (r: bool)
    ensures
        r == any_holds_metadata_column(s@.entries),
    decreases s@, 0int,
{
    let n: usize = s.fields.len();
    let ghost entries = s@.entries;
    let mut i: usize = 0;
    while i < n
        invariant
            i <= n,
            n == entries.len(),
            entries == s@.entries,
            !any_holds_metadata_column(entries.take(i as int)),
        decreases n - i,
    {
        proof {
            lemma_struct_parts(s@, i as int);
            assert(entries.take(i + 1).drop_last() =~= entries.take(i as int));
            assert(entries.take(i + 1).last() == entries[i as int]);
        }
        if let Some((_, field)) = s.fields.get_index(i) {
            if field_holds_metadata_column(field) {
                proof {
                    assert(any_holds_metadata_column(entries.take(i + 1)));
                    lemma_any_grows(entries, i + 1);
                }
                return true;
            }
        }
        i = i + 1;
    }
    assert(entries.take(n as int) =~= entries);
    false
}

proof fn lemma_any_grows(entries: Seq<EntryV>, n: int)
    requires
        0 <= n <= entries.len(),
        any_holds_metadata_column(entries.take(n)),
    ensures
        any_holds_metadata_column(entries),
    decreases entries.len(),
{
    if n == entries.len() {
        assert(entries.take(n) =~= entries);
    } else {
        assert(entries.drop_last().take(n) =~= entries.take(n));
        lemma_any_grows(entries.drop_last(), n);
    }
}

fn field_holds_metadata_column(field: &StructField) -> (r: bool)
    ensures
        r == holds_metadata_column(field@),
    decreases field@, 0int,
{
    assert(decreases_to!(field@ => field@.data_type));
    field.is_metadata_column() || metadata_column_in_type(&field.data_type)
}

fn metadata_column_in_type(t: &DataType) -> (r: bool)
    ensures
        r == type_holds_metadata_column(t@),
    decreases t@, 0int,
{
    proof {
        lemma_type_parts(t@);
    }
    match t {
        DataType::Primitive(_) => false,
        DataType::Array(a) => metadata_column_in_type(&a.element_type),
        DataType::MapOf(m) => metadata_column_in_type(&m.key_type) || metadata_column_in_type(
            &m.value_type,
        ),
        DataType::Struct(s) => any_metadata_column(s),
        DataType::Variant(s) => any_metadata_column(s),
    }
}

/// Where the metadata columns stand among fields.
pub(crate) fn metadata_positions(fields: &FieldMap) -> (r: MetadataPositions)
    ensures
        r@ == entry_positions(field_entries(*fields)),
{
    let ghost all = entry_fields(field_entries(*fields));
    let n: usize = fields.len();
    let mut r = MetadataPositions::new();
    let mut i: usize = 0;
    while i < n
        invariant
            i <= n == all.len(),
            all == entry_fields(field_entries(*fields)),
            r@ == positions(all, i as int),
        decreases n - i,
    {
        if let Some((_, field)) = fields.get_index(i) {
            assert(field@ == all[i as int]);
            if let Some(spec) = field.get_metadata_column_spec() {
                r.insert(spec, i);
            }
        }
        i = i + 1;
    }
    r
}

fn stands_before(names: &Vec<String>, n: usize) -> (r: bool)
    requires
        n < names@.len(),
    ensures
        r == exists|j: int| 0 <= j < n && #[trigger] texts(names@)[j] == texts(names@)[n as int],
{
    let mut i: usize = 0;
    while i < n
        invariant
            i <= n < names@.len(),
            forall|j: int| 0 <= j < i ==> #[trigger] texts(names@)[j] != texts(names@)[n as int],
        decreases n - i,
    {
        if text_eq(names[i].as_str(), names[n].as_str()) {
            assert(texts(names@)[i as int] == texts(names@)[n as int]);
            return true;
        }
        i = i + 1;
    }
    false
}

impl StructType {
    /// Creates a struct type of the given fields.
    ///
    /// Returns an error if
    /// - two fields have the same name up to case (Delta column names are case-insensitive),
    /// - two fields are metadata columns of the same kind,
    /// - there is a metadata column below the top level.
    pub fn try_new(fields: Vec<StructField>) -> (r: DeltaResult<Self>)
        ensures
            struct_result(r, checked_struct(field_views(fields@))),
    {
        let ghost all = field_views(fields@);
        let mut lowered: Vec<String> = Vec::new();
        let mut i: usize = 0;
        while i < fields.len()
            invariant
                i <= fields@.len(),
                all == field_views(fields@),
                texts(lowered@) == lowered_names(all).take(i as int),
            decreases fields.len() - i,
        {
            let ghost before = texts(lowered@);
            let name = to_lowercase(fields[i].name.as_str());
            assert(lowered_names(all)[i as int] == name@);
            lowered.push(name);
            assert(texts(lowered@) =~= before.push(name@));
            assert(before.push(name@) =~= lowered_names(all).take(i + 1));
            i = i + 1;
        }
        assert(lowered_names(all).take(i as int) =~= lowered_names(all));
        StructType::try_new_with_lowered(fields, &lowered)
    }

    /// Creates a struct type of the given fields, as [`StructType::try_new`] does, with their names
    /// in lower case at hand.
    pub fn try_new_with_lowered(fields: Vec<StructField>, lowered: &Vec<String>) -> (r: DeltaResult<
        Self,
    >)
        requires
            names_each(texts(lowered@), field_views(fields@)),
        ensures
            struct_result(r, checked_with_lowered(field_views(fields@), texts(lowered@))),
    {
        let ghost names = texts(lowered@);
        let ghost all = field_views(fields@);
        let ghost total = all.len() as int;
        let mut field_map = FieldMap::new();
        let mut metadata_columns = MetadataPositions::new();
        let n: usize = fields.len();
        let mut i: usize = 0;
        assert(entries_of(all).take(0) =~= seq![]);
        for field in iter: fields
            invariant
                i == iter.index(),
                iter.seq() == fields@,
                i <= n == fields@.len(),
                total == all.len(),
                all == field_views(fields@),
                first_error(all, names, i as int) is None,
                names == texts(lowered@),
                names_each(names, all),
                field_entries(field_map) == entries_of(all).take(i as int),
                metadata_columns@ == positions(all, i as int),
        {
            assert(i < fields@.len());
            assert(field@ == all[i as int]);
            proof {
                if field_error(all, names, i as int) is Some {
                    lemma_first_error_stays(all, names, i + 1, total);
                }
            }
            let primitive = match &field.data_type {
                DataType::Primitive(_) => true,
                _ => false,
            };
            if !primitive && field_holds_metadata_column(&field) {
                return Err(
                    Error::schema("Metadata columns are only allowed at the top level of a schema"),
                );
            }
            if let Some(spec) = field.get_metadata_column_spec() {
                proof {
                    lemma_last_position(all, i as int, spec);
                }
                if metadata_columns.get(&spec).is_some() {
                    return Err(
                        Error::Schema(cat2("Duplicate metadata column: ", spec.debug_text())),
                    );
                }
                metadata_columns.insert(spec, i);
            }
            if stands_before(lowered, i) {
                return Err(
                    Error::Schema(
                        cat3(
                            "Duplicate field name (case-insensitive): '",
                            field.name.as_str(),
                            "'",
                        ),
                    ),
                );
            }
            proof {
                assert(field_error(all, names, i as int) is None);
                let before = entries_of(all).take(i as int);
                assert(!has_key(before, all[i as int].name)) by {
                    if has_key(before, all[i as int].name) {
                        let j = key_index(before, all[i as int].name);
                        assert(all[j].name == all[i as int].name);
                        assert(names[j] == names[i as int]);
                    }
                }
                assert(before.push(EntryV { key: all[i as int].name, field: all[i as int] })
                    =~= entries_of(all).take(i + 1));
            }
            let name = field.name.clone();
            field_map.insert(name, field);
            i = i + 1;
        }
        proof {
            assert(entries_of(all).take(total) =~= entries_of(all));
            assert(entry_fields(entries_of(all)) =~= all);
            assert forall|x: int, y: int|
                0 <= x < total && 0 <= y < total && (#[trigger] entries_of(all)[x]).key == (
                #[trigger] entries_of(all)[y]).key implies x == y by {
                assert(all[x].name == all[y].name);
                assert(names[x] == names[y]);
                if x < y {
                    lemma_first_error(all, names, total, y);
                } else if y < x {
                    lemma_first_error(all, names, total, x);
                }
            }
        }
        Ok(StructType { type_label: owned("struct"), fields: field_map, metadata_columns })
    }

    /// Creates a struct type of fields of which each may have failed. An error in the fields before
    /// the first failure comes first, then that failure.
    pub fn try_from_results(fields: Vec<DeltaResult<StructField>>) -> (r: DeltaResult<Self>)
        ensures
            struct_result(r, checked_struct_of_results(result_views(fields@))),
    {
        let mut good: Vec<StructField> = Vec::new();
        let mut failure: Option<Error> = None;
        let ghost all = result_views(fields@);
        let ghost mut i: int = 0;
        for result in iter: fields
            invariant
                i == iter.index(),
                iter.seq() == fields@,
                all == result_views(fields@),
                ok_len(all.take(i)) == good@.len(),
                good@.len() <= i <= all.len(),
                forall|j: int| 0 <= j < good@.len() ==> all[j] == Ok::<FieldV, ErrorV>((#[trigger] good@[j])@),
                match failure {
                    None => good@.len() == i,
                    Some(e) => good@.len() < i && all[good@.len() as int] == Err::<FieldV, ErrorV>(
                        e@,
                    ),
                },
        {
            proof {
                assert(all[i] == result_view(result));
                assert(all.take(i + 1).drop_last() =~= all.take(i));
                assert(all.take(i + 1).last() == all[i]);
            }
            if failure.is_none() {
                match result {
                    Ok(field) => {
                        good.push(field);
                    },
                    Err(e) => {
                        failure = Some(e);
                    },
                }
            }
            proof {
                i = i + 1;
            }
        }
        proof {
            assert(all.take(i) =~= all);
            assert(field_views(good@) =~= ok_fields(all));
        }
        match StructType::try_new(good) {
            Err(e) => Err(e),
            Ok(s) => match failure {
                Some(e) => Err(e),
                None => Ok(s),
            },
        }
    }
}

impl StructType {
    /// Creates a struct type of the given fields without checking them. Of two fields with the same
    /// name the later one takes the place of the earlier one.
    pub fn new_unchecked(fields: Vec<StructField>) -> (r: Self)
        ensures
            r@ == unchecked_struct(field_views(fields@)),
    {
        let ghost all = field_views(fields@);
        let n: usize = fields.len();
        let mut field_map = FieldMap::new();
        let mut i: usize = 0;
        for field in iter: fields
            invariant
                i == iter.index(),
                iter.seq() == fields@,
                i <= n == fields@.len(),
                all == field_views(fields@),
                distinct_keys(field_entries(field_map)),
                own_names(field_entries(field_map)),
                field_entries(field_map) == put_all(all, i as int),
        {
            assert(field@ == all[i as int]);
            proof {
                lemma_put_distinct(field_entries(field_map), field@.name, field@);
            }
            let name = field.name.clone();
            field_map.insert(name, field);
            i = i + 1;
        }
        let metadata_columns = metadata_positions(&field_map);
        StructType { type_label: owned("struct"), fields: field_map, metadata_columns }
    }

    /// Gets a struct type of the fields of the given names, in the order of the names. Returns an
    /// error if one of them does not exist.
    pub fn project_as_struct(&self, names: &[&str]) -> (r: DeltaResult<StructType>)
        ensures
            struct_result(r, checked_struct_of_results(projection(self@, str_views(names@)))),
    {
        let ghost wanted = str_views(names@);
        let mut results: Vec<DeltaResult<StructField>> = Vec::new();
        let mut i: usize = 0;
        while i < names.len()
            invariant
                i <= names@.len(),
                wanted == str_views(names@),
                result_views(results@) == projection(self@, wanted).take(i as int),
            decreases names@.len() - i,
        {
            let name: &str = names[i];
            let result = match self.field(name) {
                Some(field) => Ok(field.clone()),
                None => Err(Error::missing_column(name)),
            };
            let ghost before = result_views(results@);
            let ghost item = result_view(result);
            results.push(result);
            proof {
                assert(before.len() == i);
                assert(result_views(results@) =~= before.push(item));
                assert(wanted[i as int] == name@);
                assert(item == projection(self@, wanted)[i as int]);
                assert(result_views(results@) =~= projection(self@, wanted).take(i + 1));
            }
            i = i + 1;
        }
        assert(projection(self@, wanted).take(i as int) =~= projection(self@, wanted));
        StructType::try_from_results(results)
    }

    /// Gets a shared schema of the fields of the given names, in the order of the names. Returns an
    /// error if one of them does not exist.
    pub fn project(&self, names: &[&str]) -> (r: DeltaResult<SchemaRef>)
        ensures
            match r {
                Ok(s) => checked_struct_of_results(projection(self@, str_views(names@))) == Ok::<
                    StructV,
                    ErrorV,
                >(s@),
                Err(e) => checked_struct_of_results(projection(self@, str_views(names@))) == Err::<
                    StructV,
                    ErrorV,
                >(e@),
            },
    {
        match self.project_as_struct(names) {
            Ok(s) => Ok(std::sync::Arc::new(s)),
            Err(e) => Err(e),
        }
    }

    /// Returns a new struct type with more fields behind those of this one.
    pub fn add(&self, fields: Vec<StructField>) -> (r: DeltaResult<Self>)
        ensures
            struct_result(r, checked_struct(fields_of(self@) + field_views(fields@))),
    {
        let mut all = self.clone_fields();
        let ghost own = all@;
        let ghost more = fields@;
        let mut fields = fields;
        all.append(&mut fields);
        assert(field_views(all@) =~= fields_of(self@) + field_views(more));
        StructType::try_new(all)
    }

    /// Returns a new struct type with a metadata column behind the fields of this one.
    pub fn add_metadata_column(&self, name: &str, spec: MetadataColumnSpec) -> (r: DeltaResult<
        Self,
    >)
        ensures
            struct_result(
                r,
                checked_struct(fields_of(self@).push(metadata_column_field(name@, spec))),
            ),
    {
        let mut more: Vec<StructField> = Vec::new();
        more.push(StructField::create_metadata_column(name, spec));
        assert(fields_of(self@) + field_views(more@) =~= fields_of(self@).push(
            metadata_column_field(name@, spec),
        ));
        self.add(more)
    }

    /// Copies of the fields, in order.
    pub(crate) fn clone_fields(&self) -> (r: Vec<StructField>)
        ensures
            field_views(r@) == fields_of(self@),
    {
        let n: usize = self.fields.len();
        let mut r: Vec<StructField> = Vec::new();
        let mut i: usize = 0;
        while i < n
            invariant
                i <= n,
                n == self@.entries.len(),
                field_views(r@) == fields_of(self@).take(i as int),
            decreases n - i,
        {
            if let Some((_, field)) = self.fields.get_index(i) {
                let ghost before = field_views(r@);
                assert(before.len() == i);
                let copy = field.clone();
                r.push(copy);
                assert(field_views(r@) =~= before.push(copy@));
                assert(before.push(copy@) =~= fields_of(self@).take(i + 1));
            }
            i = i + 1;
        }
        assert(fields_of(self@).take(n as int) =~= fields_of(self@));
        r
    }

    /// Returns the position of the field with the given name, or `None` if there is none.
    pub fn index_of(&self, name: &str) -> (r: Option<usize>)
        ensures
            match r {
                Some(i) => has_key(self@.entries, name@) && i == key_index(self@.entries, name@)
                    && stands_at(self@, name@, i as int),
                None => !has_key(self@.entries, name@) && none_named(self@, name@),
            },
    {
        let r = self.fields.get_index_of(name);
        proof {
            use_type_invariant(self);
            law_found_by_name(self@, name@);
            if let Some(i) = r {
                assert(self@.entries[i as int].key == name@);
            }
        }
        r
    }

    /// Returns the position of the metadata column of the given kind, of several that of the last,
    /// or `None` if there is none.
    pub fn index_of_metadata_column(&self, spec: &MetadataColumnSpec) -> (r: Option<&usize>)
        ensures
            match r {
                Some(i) => stands_last(self@, *spec, *i as int) && self@.specials[*spec] == *i,
                None => none_of_kind(self@, *spec),
            },
            r is Some == self@.specials.contains_key(*spec),
    {
        proof {
            use_type_invariant(self);
            law_special_positions(self@, *spec);
        }
        self.metadata_columns.get(spec)
    }

    /// Whether there is a field with the given name.
    pub fn contains(&self, name: &str) -> (r: bool)
        ensures
            r == has_key(self@.entries, name@),
            r == !none_named(self@, name@),
    {
        proof {
            use_type_invariant(self);
            law_found_by_name(self@, name@);
        }
        self.index_of(name).is_some()
    }

    /// Whether there is a metadata column of the given kind.
    pub fn contains_metadata_column(&self, spec: &MetadataColumnSpec) -> (r: bool)
        ensures
            r == !none_of_kind(self@, *spec),
            r == self@.specials.contains_key(*spec),
    {
        proof {
            use_type_invariant(self);
            law_special_positions(self@, *spec);
        }
        self.metadata_columns.get(spec).is_some()
    }

    /// Gets the field with the given name.
    pub fn field(&self, name: &str) -> (r: Option<&StructField>)
        ensures
            match r {
                Some(f) => field_named(self@, name@) == Some(f@) && f@.name == name@,
                None => field_named(self@, name@) is None && none_named(self@, name@),
            },
    {
        match self.field_with_index(name) {
            Some((_, field)) => Some(field),
            None => None,
        }
    }

    /// Gets the field with the given name and its position.
    pub fn field_with_index(&self, name: &str) -> (r: Option<(usize, &StructField)>)
        ensures
            match r {
                Some((i, f)) => has_key(self@.entries, name@) && i == key_index(
                    self@.entries,
                    name@,
                ) && stands_at(self@, name@, i as int) && f@ == self@.entries[i as int].field,
                None => !has_key(self@.entries, name@) && none_named(self@, name@),
            },
    {
        match self.index_of(name) {
            Some(i) => match self.field_at_index(i) {
                Some(field) => Some((i, field)),
                None => None,
            },
            None => None,
        }
    }

    /// Gets the field at the given position.
    pub fn field_at_index(&self, index: usize) -> (r: Option<&StructField>)
        ensures
            match r {
                Some(f) => index < self@.entries.len() && f@ == self@.entries[index as int].field,
                None => index >= self@.entries.len(),
            },
    {
        match self.fields.get_index(index) {
            Some((_, field)) => Some(field),
            None => None,
        }
    }

    /// The fields, in order.
    pub fn fields(&self) -> (r: Vec<&StructField>)
        ensures
            field_ref_views(r@) == fields_of(self@),
    {
        let n: usize = self.fields.len();
        let mut r: Vec<&StructField> = Vec::new();
        let mut i: usize = 0;
        while i < n
            invariant
                i <= n,
                n == self@.entries.len(),
                field_ref_views(r@) == fields_of(self@).take(i as int),
            decreases n - i,
        {
            if let Some((_, field)) = self.fields.get_index(i) {
                let ghost before = field_ref_views(r@);
                assert(before.len() == i);
                r.push(field);
                assert(field_ref_views(r@) =~= before.push(field@));
                assert(before.push(field@) =~= fields_of(self@).take(i + 1));
            }
            i = i + 1;
        }
        assert(fields_of(self@).take(n as int) =~= fields_of(self@));
        r
    }

    /// The fields themselves, in order.
    pub fn into_fields(self) -> (r: Vec<StructField>)
        ensures
            field_views(r@) == fields_of(self@),
    {
        let r = self.fields.into_values();
        assert(field_views(r@) =~= fields_of(self@));
        r
    }

    /// The names of the fields, in order.
    pub fn field_names(&self) -> (r: Vec<&String>)
        ensures
            r@.len() == self@.entries.len(),
            forall|i: int| 0 <= i < r@.len() ==> (#[trigger] r@[i])@ == self@.entries[i].key,
            forall|i: int| 0 <= i < r@.len() ==> (#[trigger] r@[i])@ == self@.entries[i].field.name,
    {
        proof {
            use_type_invariant(self);
        }
        let n: usize = self.fields.len();
        let mut r: Vec<&String> = Vec::new();
        let mut i: usize = 0;
        while i < n
            invariant
                i <= n,
                n == self@.entries.len(),
                r@.len() == i,
                forall|j: int| 0 <= j < i ==> (#[trigger] r@[j])@ == self@.entries[j].key,
            decreases n - i,
        {
            if let Some((key, _)) = self.fields.get_index(i) {
                r.push(key);
            }
            i = i + 1;
        }
        r
    }

    /// The number of fields.
    pub fn num_fields(&self) -> (r: usize)
        ensures
            r == self@.entries.len(),
    {
        self.fields.len()
    }

    /// Gets the metadata column of the given kind, of several the last.
    pub fn metadata_column(&self, spec: &MetadataColumnSpec) -> (r: Option<&StructField>)
        ensures
            match r {
                Some(f) => special_field(self@, *spec) == Some(f@) && f@.metadata_spec() == Some(
                    *spec,
                ),
                None => special_field(self@, *spec) is None && none_of_kind(self@, *spec),
            },
    {
        proof {
            use_type_invariant(self);
            law_special_positions(self@, *spec);
        }
        match self.metadata_columns.get(spec) {
            Some(i) => self.field_at_index(*i),
            None => None,
        }
    }

    /// The metadata columns: row index, row id, row commit version, and file path, as far as they
    /// are there.
    pub fn metadata_columns(&self) -> (r: Vec<&StructField>)
        ensures
            field_ref_views(r@) == special_fields(self@),
    {
        let mut r: Vec<&StructField> = Vec::new();
        let ghost s = self@;
        if let Some(field) = self.metadata_column(&MetadataColumnSpec::RowIndex) {
            r.push(field);
        }
        assert(field_ref_views(r@) =~= some_field(special_field(s, MetadataColumnSpec::RowIndex)));
        let ghost one = field_ref_views(r@);
        if let Some(field) = self.metadata_column(&MetadataColumnSpec::RowId) {
            r.push(field);
        }
        assert(field_ref_views(r@) =~= one + some_field(
            special_field(s, MetadataColumnSpec::RowId),
        ));
        let ghost two = field_ref_views(r@);
        if let Some(field) = self.metadata_column(&MetadataColumnSpec::RowCommitVersion) {
            r.push(field);
        }
        assert(field_ref_views(r@) =~= two + some_field(
            special_field(s, MetadataColumnSpec::RowCommitVersion),
        ));
        let ghost three = field_ref_views(r@);
        if let Some(field) = self.metadata_column(&MetadataColumnSpec::FilePath) {
            r.push(field);
        }
        assert(field_ref_views(r@) =~= three + some_field(
            special_field(s, MetadataColumnSpec::FilePath),
        ));
        r
    }

    /// Checks that there are no metadata columns in the given fields.
    pub fn ensure_no_metadata_columns(fields: &Vec<&StructField>) -> (r: DeltaResult<()>)
        ensures
            match r {
                Ok(_) => forall|i: int|
                    0 <= i < fields@.len() ==> !holds_metadata_column((#[trigger] fields@[i])@),
                Err(e) => e@ == nested_metadata_error() && exists|i: int|
                    0 <= i < fields@.len() && holds_metadata_column((#[trigger] fields@[i])@),
            },
    {
        let mut i: usize = 0;
        while i < fields.len()
            invariant
                i <= fields@.len(),
                forall|j: int| 0 <= j < i ==> !holds_metadata_column((#[trigger] fields@[j])@),
            decreases fields@.len() - i,
        {
            let checked = StructType::ensure_no_metadata_columns_in_field(fields[i]);
            if let Err(e) = checked {
                return Err(e);
            }
            i = i + 1;
        }
        Ok(())
    }

    /// Checks that there are no metadata columns in the given field.
    pub fn ensure_no_metadata_columns_in_field(field: &StructField) -> (r: DeltaResult<()>)
        ensures
            match r {
                Ok(_) => !holds_metadata_column(field@),
                Err(e) => holds_metadata_column(field@) && e@ == nested_metadata_error(),
            },
    {
        if field_holds_metadata_column(field) {
            Err(Error::schema("Metadata columns are only allowed at the top level of a schema"))
        } else {
            Ok(())
        }
    }
}

/// The field that stands under a name.
pub open spec fn field_named(s: StructV, name: Seq<char>) -> Option<FieldV> {
    if has_key(s.entries, name) {
        Some(s.entries[key_index(s.entries, name)].field)
    } else {
        None
    }
}

/// Whether the one field of a name stands at a position.
pub open spec fn stands_at(s: StructV, name: Seq<char>, i: int) -> bool {
    0 <= i < s.entries.len() && forall|j: int|
        0 <= j < s.entries.len() ==> ((#[trigger] s.entries[j]).field.name == name <==> j == i)
}

/// Whether there is no field of a name.
pub open spec fn none_named(s: StructV, name: Seq<char>) -> bool {
    forall|j: int| 0 <= j < s.entries.len() ==> (#[trigger] s.entries[j]).field.name != name
}

/// In every struct, however it came about, what is found under a name is the one field of this
/// name, and nothing is found exactly where there is no such field.
pub proof fn law_found_by_name(s: StructV, name: Seq<char>)
    requires
        valid_struct(s),
    ensures
        has_key(s.entries, name) ==> stands_at(s, name, key_index(s.entries, name)),
        !has_key(s.entries, name) <==> none_named(s, name),
        field_named(s, name) matches Some(f) ==> f.name == name,
{
    if has_key(s.entries, name) {
        let k = key_index(s.entries, name);
        assert forall|j: int| 0 <= j < s.entries.len() implies ((
        #[trigger] s.entries[j]).field.name == name <==> j == k) by {
            assert(s.entries[j].key == s.entries[j].field.name);
            assert(s.entries[k].key == name);
        }
        assert(s.entries[k].field.name == name);
    } else {
        assert forall|j: int| 0 <= j < s.entries.len() implies (
        #[trigger] s.entries[j]).field.name != name by {
            assert(s.entries[j].key == s.entries[j].field.name);
        }
    }
}

/// Whether the field at a position is the last of a kind of metadata column.
pub open spec fn stands_last(s: StructV, spec: MetadataColumnSpec, i: int) -> bool {
    &&& 0 <= i < s.entries.len()
    &&& s.entries[i].field.metadata_spec() == Some(spec)
    &&& forall|j: int|
        i < j < s.entries.len() ==> (#[trigger] s.entries[j]).field.metadata_spec() != Some(spec)
}

/// Whether there is no metadata column of a kind.
pub open spec fn none_of_kind(s: StructV, spec: MetadataColumnSpec) -> bool {
    forall|j: int|
        0 <= j < s.entries.len() ==> (#[trigger] s.entries[j]).field.metadata_spec() != Some(spec)
}

/// In every struct, however it came about, the recorded position of a kind of metadata column is
/// that of the last field of this kind, and there is none exactly where there is no such field.
pub proof fn law_special_positions(s: StructV, spec: MetadataColumnSpec)
    requires
        valid_struct(s),
    ensures
        s.specials.contains_key(spec) ==> stands_last(s, spec, s.specials[spec]),
        !s.specials.contains_key(spec) ==> none_of_kind(s, spec),
{
    let fields = entry_fields(s.entries);
    lemma_last_position(fields, s.entries.len() as int, spec);
    assert forall|j: int|
        0 <= j < s.entries.len() && (!s.specials.contains_key(spec) || s.specials[spec]
            < j) implies (#[trigger] s.entries[j]).field.metadata_spec() != Some(spec) by {
        assert(fields[j].metadata_spec() != Some(spec));
    }
}

proof fn lemma_last_position(fields: Seq<FieldV>, n: int, s: MetadataColumnSpec)
    requires
        0 <= n <= fields.len(),
    ensures
        positions(fields, n).contains_key(s) ==> 0 <= positions(fields, n)[s] < n
            && fields[positions(fields, n)[s]].metadata_spec() == Some(s) && forall|j: int|
            positions(fields, n)[s] < j < n ==> (#[trigger] fields[j]).metadata_spec() != Some(s),
        !positions(fields, n).contains_key(s) ==> forall|j: int|
            0 <= j < n ==> (#[trigger] fields[j]).metadata_spec() != Some(s),
    decreases n,
{
    if n > 0 {
        lemma_last_position(fields, n - 1, s);
    }
}

/// The metadata column of a kind, of several the last.
pub open spec fn special_field(s: StructV, spec: MetadataColumnSpec) -> Option<FieldV> {
    if s.specials.contains_key(spec) {
        Some(s.entries[s.specials[spec]].field)
    } else {
        None
    }
}

/// The list of at most one field.
pub open spec fn some_field(f: Option<FieldV>) -> Seq<FieldV> {
    match f {
        Some(field) => seq![field],
        None => seq![],
    }
}

/// The metadata columns of a struct, of each kind the last.
pub open spec fn special_fields(s: StructV) -> Seq<FieldV> {
    some_field(special_field(s, MetadataColumnSpec::RowIndex)) + some_field(
        special_field(s, MetadataColumnSpec::RowId),
    ) + some_field(special_field(s, MetadataColumnSpec::RowCommitVersion)) + some_field(
        special_field(s, MetadataColumnSpec::FilePath),
    )
}

/// Borrowed strings as texts.
pub open spec fn str_views(names: Seq<&str>) -> Seq<Seq<char>> {
    Seq::new(names.len(), |i: int| names[i]@)
}

/// The fields of the given names, or for each name without a field the error.
pub open spec fn projection(s: StructV, names: Seq<Seq<char>>) -> Seq<Result<FieldV, ErrorV>> {
    Seq::new(
        names.len(),
        |i: int|
            match field_named(s, names[i]) {
                Some(f) => Ok(f),
                None => Err(ErrorV::MissingColumn(names[i])),
            },
    )
}

/// A projection that succeeds holds the fields of the given names, in the order of the names.
pub proof fn law_projection_order(s: StructV, names: Seq<Seq<char>>, i: int)
    requires
        checked_struct_of_results(projection(s, names)) is Ok,
        0 <= i < names.len(),
    ensures
        ({
            let projected = checked_struct_of_results(projection(s, names))->Ok_0;
            &&& projected.entries.len() == names.len()
            &&& field_named(s, names[i]) == Some(projected.entries[i].field)
        }),
{
    lemma_ok_len(projection(s, names));
}

/// What comes before the first failure has not failed.
pub proof fn lemma_ok_len(results: Seq<Result<FieldV, ErrorV>>)
    ensures
        0 <= ok_len(results) <= results.len(),
        forall|i: int| 0 <= i < ok_len(results) ==> #[trigger] results[i] is Ok,
        ok_len(results) < results.len() ==> results[ok_len(results)] is Err,
    decreases results.len(),
{
    if results.len() > 0 {
        let front = results.drop_last();
        lemma_ok_len(front);
        assert forall|i: int| 0 <= i < ok_len(results) implies #[trigger] results[i] is Ok by {
            if i < front.len() {
                assert(front[i] == results[i]);
            }
        }
        if ok_len(results) < front.len() {
            assert(front[ok_len(results)] == results[ok_len(results)]);
        }
    }
}

/// The number of results before the first failure.
pub open spec fn ok_len(results: Seq<Result<FieldV, ErrorV>>) -> int
    decreases results.len(),
{
    if results.len() == 0 {
        0
    } else {
        let before = ok_len(results.drop_last());
        if before == results.len() - 1 && results.last() is Ok {
            before + 1
        } else {
            before
        }
    }
}

/// The fields before the first failure.
pub open spec fn ok_fields(results: Seq<Result<FieldV, ErrorV>>) -> Seq<FieldV> {
    Seq::new(ok_len(results) as nat, |i: int| results[i]->Ok_0)
}

/// The struct of fields of which each may have failed, or the first error: one in the fields before
/// the first failure, or that failure.
pub open spec fn checked_struct_of_results(results: Seq<Result<FieldV, ErrorV>>) -> Result<
    StructV,
    ErrorV,
> {
    match checked_struct(ok_fields(results)) {
        Err(e) => Err(e),
        Ok(s) => if ok_len(results) < results.len() {
            Err(results[ok_len(results)]->Err_0)
        } else {
            Ok(s)
        },
    }
}

/// A result with its two sides as models.
pub open spec fn result_view(r: DeltaResult<StructField>) -> Result<FieldV, ErrorV> {
    match r {
        Ok(f) => Ok(f@),
        Err(e) => Err(e@),
    }
}

/// Results with their two sides as models.
pub open spec fn result_views(results: Seq<DeltaResult<StructField>>) -> Seq<
    Result<FieldV, ErrorV>,
> {
    Seq::new(results.len(), |i: int| result_view(results[i]))
}

} // verus!
