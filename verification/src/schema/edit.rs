//! Struct types that are made of others: with fields put in, taken out, filtered or replaced.
use vstd::prelude::*;

use crate::error::{DeltaResult, Error};
use crate::schema::struct_type::{checked_struct, metadata_positions};
use crate::schema::types::{FieldMap, SchemaRef, StructField, StructType};
use crate::text::{cat3, text_eq};

#[allow(unused_imports)]
use crate::error::ErrorV;
#[allow(unused_imports)]
use crate::schema::struct_type::{
    field_named, field_views, fields_of, struct_result, unchecked_struct,
};
#[allow(unused_imports)]
use crate::schema::types::{
    distinct_keys, entry_fields, entry_positions, field_entries, has_key, key_index,
    own_names, put, valid_struct, EntryV, FieldV, StructV,
};

verus! {

/// A struct with other entries.
pub open spec fn with_entries(s: StructV, entries: Seq<EntryV>) -> StructV {
    StructV { label: s.label, entries, specials: entry_positions(entries) }
}

/// A struct with a field put in at a position.
pub open spec fn inserted(s: StructV, i: int, field: FieldV) -> StructV {
    with_entries(s, s.entries.insert(i, EntryV { key: field.name, field }))
}

/// A struct without the field of a name.
pub open spec fn removed(s: StructV, name: Seq<char>) -> StructV {
    if has_key(s.entries, name) {
        with_entries(s, s.entries.remove(key_index(s.entries, name)))
    } else {
        s
    }
}

/// A struct with a field put in behind the one of a name, or at the end.
pub open spec fn inserted_after(s: StructV, after: Option<Seq<char>>, field: FieldV) -> Result<
    StructV,
    ErrorV,
> {
    if has_key(s.entries, field.name) {
        Err(ErrorV::Generic("Field "@ + field.name + " already exists"@))
    } else {
        match after {
            None => Ok(inserted(s, s.entries.len() as int, field)),
            Some(name) => if has_key(s.entries, name) {
                Ok(inserted(s, key_index(s.entries, name) + 1, field))
            } else {
                Err(ErrorV::Generic("Field "@ + name + " not found"@))
            },
        }
    }
}

/// A struct with a field put in before the one of a name, or at the start.
pub open spec fn inserted_before(s: StructV, before: Option<Seq<char>>, field: FieldV) -> Result<
    StructV,
    ErrorV,
> {
    if has_key(s.entries, field.name) {
        Err(ErrorV::Generic("Field "@ + field.name + " already exists"@))
    } else {
        match before {
            None => Ok(inserted(s, 0, field)),
            Some(name) => if has_key(s.entries, name) {
                Ok(inserted(s, key_index(s.entries, name), field))
            } else {
                Err(ErrorV::Generic("Field "@ + name + " not found"@))
            },
        }
    }
}

/// A struct with another field, under its own name, in the place of the one of a name.
pub open spec fn replaced(s: StructV, name: Seq<char>, field: FieldV) -> Result<StructV, ErrorV> {
    if !has_key(s.entries, name) {
        Err(ErrorV::Generic("Field "@ + name + " not found"@))
    } else if field.name != name && has_key(s.entries, field.name) {
        Err(ErrorV::Generic("Field "@ + field.name + " already exists"@))
    } else {
        Ok(
            with_entries(
                s,
                s.entries.update(
                    key_index(s.entries, name),
                    EntryV { key: field.name, field },
                ),
            ),
        )
    }
}

/// The items of a list for which the flag at the same position is set.
pub open spec fn kept(fields: Seq<FieldV>, keep: Seq<bool>) -> Seq<FieldV>
    decreases fields.len(),
{
    if fields.len() == 0 {
        seq![]
    } else if keep[fields.len() - 1] {
        kept(fields.drop_last(), keep).push(fields.last())
    } else {
        kept(fields.drop_last(), keep)
    }
}

/// Whether a predicate can say this of a field.
pub open spec fn says<F: Fn(&StructField) -> bool>(predicate: F, field: FieldV, flag: bool) -> bool {
    exists|f: &StructField| #[trigger] f@ == field && call_ensures(predicate, (f,), flag)
}

/// Whether the flags are what a predicate says of the fields of a struct.
pub open spec fn flags_of<F: Fn(&StructField) -> bool>(
    predicate: F,
    s: StructV,
    keep: Seq<bool>,
) -> bool {
    &&& keep.len() == s.entries.len()
    &&& forall|i: int|
        0 <= i < keep.len() ==> says(predicate, s.entries[i].field, #[trigger] keep[i])
}

/// Taking out the field that was put in gives back the struct as it was.
pub proof fn law_insert_then_remove(s: StructV, i: int, field: FieldV)
    requires
        valid_struct(s),
        0 <= i <= s.entries.len(),
        !has_key(s.entries, field.name),
    ensures
        removed(inserted(s, i, field), field.name) == s,
{
    let new = inserted(s, i, field).entries;
    assert(new[i].key == field.name);
    let k = key_index(new, field.name);
    if k < i {
        assert(s.entries[k] == new[k]);
    } else if k > i {
        assert(s.entries[k - 1] == new[k]);
    }
    assert(new.remove(i) =~= s.entries);
}

/// A field that was put in is found under its name, and the others are found as before.
pub proof fn law_insert_then_find(s: StructV, i: int, field: FieldV, name: Seq<char>)
    requires
        0 <= i <= s.entries.len(),
        distinct_keys(s.entries),
        !has_key(s.entries, field.name),
    ensures
        field_named(inserted(s, i, field), name) == (if name
            == field.name {
            Some(field)
        } else {
            field_named(s, name)
        }),
{
    let new = inserted(s, i, field).entries;
    assert(new[i].key == field.name);
    if name == field.name {
        let k = key_index(new, field.name);
        if k < i {
            assert(s.entries[k] == new[k]);
        } else if k > i {
            assert(s.entries[k - 1] == new[k]);
        }
    } else {
        if has_key(s.entries, name) {
            let k = key_index(s.entries, name);
            if k < i {
                assert(new[k].key == name);
            } else {
                assert(new[k + 1].key == name);
            }
            let j = key_index(new, name);
            if j < i {
                assert(s.entries[j].key == name);
            } else {
                assert(s.entries[j - 1].key == name);
            }
        } else if has_key(new, name) {
            let j = key_index(new, name);
            if j < i {
                assert(s.entries[j].key == name);
            } else {
                assert(s.entries[j - 1].key == name);
            }
        }
    }
}

/// A field that replaces another is found under its own name, in the place of the other. Nothing is
/// found under the name of the other, unless the two names are the same, and all other names and
/// places are as before.
pub proof fn law_replace_then_find(
    s: StructV,
    name: Seq<char>,
    field: FieldV,
    other: Seq<char>,
)
    requires
        valid_struct(s),
        has_key(s.entries, name),
        field.name == name || !has_key(s.entries, field.name),
    ensures
        ({
            let r = replaced(s, name, field)->Ok_0;
            &&& replaced(s, name, field) is Ok
            &&& valid_struct(r)
            &&& field_named(r, field.name) == Some(field)
            &&& key_index(r.entries, field.name) == key_index(s.entries, name)
            &&& field.name != name ==> field_named(r, name) is None
            &&& other != name && other != field.name ==> field_named(r, other) == field_named(
                s,
                other,
            )
            &&& r.entries.len() == s.entries.len()
            &&& forall|i: int|
                0 <= i < s.entries.len() && s.entries[i].key != name ==> #[trigger] r.entries[i]
                    == s.entries[i]
        }),
{
    let r = replaced(s, name, field)->Ok_0;
    let k = key_index(s.entries, name);
    lemma_update_distinct(s.entries, name, field);
    assert(r.entries[k].key == field.name);
    assert(s.entries[k].key == name);
    if has_key(r.entries, name) && field.name != name {
        let j = key_index(r.entries, name);
        assert(s.entries[j].key == name);
    }
    if other != name && other != field.name {
        if has_key(s.entries, other) {
            let j = key_index(s.entries, other);
            assert(r.entries[j] == s.entries[j]);
            assert(r.entries[j].key == other);
        }
        if has_key(r.entries, other) {
            let j = key_index(r.entries, other);
            assert(r.entries[j] == s.entries[j]);
            assert(s.entries[j].key == other);
        }
    }
}

proof fn lemma_update_distinct(entries: Seq<EntryV>, name: Seq<char>, field: FieldV)
    requires
        distinct_keys(entries),
        own_names(entries),
        has_key(entries, name),
        field.name == name || !has_key(entries, field.name),
    ensures
        ({
            let new = entries.update(
                key_index(entries, name),
                EntryV { key: field.name, field },
            );
            distinct_keys(new) && own_names(new)
        }),
{
    let k = key_index(entries, name);
    let new = entries.update(k, EntryV { key: field.name, field });
    assert forall|x: int, y: int|
        0 <= x < new.len() && 0 <= y < new.len() && (#[trigger] new[x]).key == (
        #[trigger] new[y]).key implies x == y by {
        if x != k {
            assert(entries[x] == new[x]);
        }
        if y != k {
            assert(entries[y] == new[y]);
        }
        assert(entries[k].key == name);
    }
}

proof fn lemma_insert_distinct(entries: Seq<EntryV>, i: int, e: EntryV)
    requires
        distinct_keys(entries),
        0 <= i <= entries.len(),
        !has_key(entries, e.key),
    ensures
        distinct_keys(entries.insert(i, e)),
{
    let new = entries.insert(i, e);
    assert forall|x: int, y: int|
        0 <= x < new.len() && 0 <= y < new.len() && (#[trigger] new[x]).key == (
        #[trigger] new[y]).key implies x == y by {
        let a = if x < i {
            x
        } else {
            x - 1
        };
        let b = if y < i {
            y
        } else {
            y - 1
        };
        if x != i {
            assert(entries[a] == new[x]);
        }
        if y != i {
            assert(entries[b] == new[y]);
        }
    }
}

impl StructType {
    fn put_in(self, i: usize, new_field: StructField) -> (r: Self)
        requires
            i <= self@.entries.len(),
            !has_key(self@.entries, new_field@.name),
        ensures
            r@ == inserted(self@, i as int, new_field@),
    {
        proof {
            use_type_invariant(&self);
            lemma_insert_distinct(
                self@.entries,
                i as int,
                EntryV { key: new_field@.name, field: new_field@ },
            );
        }
        let mut fields = self.fields;
        let name = new_field.name.clone();
        fields.insert_before(i, name, new_field);
        let metadata_columns = metadata_positions(&fields);
        StructType { type_label: self.type_label, fields, metadata_columns }
    }

    /// Returns a struct type with `new_field` inserted after the field named `after`, or at the
    /// end. Returns an error if a field of the same name is already there, or `after` is not found.
    pub fn with_field_inserted_after(self, after: Option<&str>, new_field: StructField) -> (r:
        DeltaResult<Self>)
        ensures
            struct_result(
                r,
                inserted_after(
                    self@,
                    match after {
                        Some(name) => Some(name@),
                        None => None,
                    },
                    new_field@,
                ),
            ),
    {
        if self.contains(new_field.name.as_str()) {
            return Err(
                Error::Generic(cat3("Field ", new_field.name.as_str(), " already exists")),
            );
        }
        let n: usize = self.num_fields();
        let at = match after {
            None => n,
            Some(name) => match self.index_of(name) {
                Some(i) => i + 1,
                None => {
                    return Err(Error::Generic(cat3("Field ", name, " not found")));
                },
            },
        };
        Ok(self.put_in(at, new_field))
    }

    /// Returns a struct type with `new_field` inserted before the field named `before`, or at the
    /// start. Returns an error if a field of the same name is already there, or `before` is not
    /// found.
    pub fn with_field_inserted_before(self, before: Option<&str>, new_field: StructField) -> (r:
        DeltaResult<Self>)
        ensures
            struct_result(
                r,
                inserted_before(
                    self@,
                    match before {
                        Some(name) => Some(name@),
                        None => None,
                    },
                    new_field@,
                ),
            ),
    {
        if self.contains(new_field.name.as_str()) {
            return Err(
                Error::Generic(cat3("Field ", new_field.name.as_str(), " already exists")),
            );
        }
        let at = match before {
            None => 0usize,
            Some(name) => match self.index_of(name) {
                Some(i) => i,
                None => {
                    return Err(Error::Generic(cat3("Field ", name, " not found")));
                },
            },
        };
        Ok(self.put_in(at, new_field))
    }

    /// Returns a struct type without the named field; unchanged if there is no such field.
    pub fn with_field_removed(self, name: &str) -> (r: Self)
        ensures
            r@ == removed(self@, name@),
    {
        proof {
            use_type_invariant(&self);
        }
        let ghost entries = self@.entries;
        let mut fields = self.fields;
        fields.shift_remove(name);
        proof {
            if has_key(entries, name@) {
                let k = key_index(entries, name@);
                let new = entries.remove(k);
                assert forall|x: int, y: int|
                    0 <= x < new.len() && 0 <= y < new.len() && (#[trigger] new[x]).key == (
                    #[trigger] new[y]).key implies x == y by {
                    assert(new[x] == entries[if x < k {
                        x
                    } else {
                        x + 1
                    }]);
                    assert(new[y] == entries[if y < k {
                        y
                    } else {
                        y + 1
                    }]);
                }
            }
        }
        let metadata_columns = metadata_positions(&fields);
        StructType { type_label: self.type_label, fields, metadata_columns }
    }

    /// Returns a new struct type of the top-level fields for which `predicate` returns `true`. This
    /// does not look into nested struct types.
    pub fn with_fields_filtered<F: Fn(&StructField) -> bool>(&self, predicate: F) -> (r: DeltaResult<
        Self,
    >)
        requires
            forall|f: &StructField| call_requires(predicate, (f,)),
        ensures
            exists|keep: Seq<bool>| #[trigger]
                flags_of(predicate, self@, keep) && struct_result(
                    r,
                    checked_struct(kept(fields_of(self@), keep)),
                ),
    {
        let n: usize = self.num_fields();
        let mut chosen: Vec<StructField> = Vec::new();
        let ghost mut keep: Seq<bool> = seq![];
        let ghost all = fields_of(self@);
        let mut i: usize = 0;
        assert(all.take(0) =~= seq![]);
        while i < n
            invariant
                i <= n,
                n == self@.entries.len(),
                all == fields_of(self@),
                forall|f: &StructField| call_requires(predicate, (f,)),
                keep.len() == i,
                forall|j: int|
                    0 <= j < i ==> says(predicate, self@.entries[j].field, #[trigger] keep[j]),
                field_views(chosen@) == kept(all.take(i as int), keep),
            decreases n - i,
        {
            if let Some(field) = self.field_at_index(i) {
                let flag = predicate(field);
                let ghost before = keep;
                proof {
                    keep = keep.push(flag);
                    assert(all.take(i + 1).drop_last() =~= all.take(i as int));
                    assert(all.take(i + 1).last() == field@);
                    lemma_kept_grows(all.take(i as int), before, keep);
                    assert(keep[i as int] == flag);
                    assert(says(predicate, self@.entries[i as int].field, flag));
                    assert forall|j: int| 0 <= j < i + 1 implies says(
                        predicate,
                        self@.entries[j].field,
                        #[trigger] keep[j],
                    ) by {
                        if j < i {
                            assert(keep[j] == before[j]);
                        }
                    }
                }
                if flag {
                    let ghost so_far = field_views(chosen@);
                    let copy = field.clone();
                    chosen.push(copy);
                    assert(field_views(chosen@) =~= so_far.push(copy@));
                }
            }
            i = i + 1;
        }
        assert(all.take(n as int) =~= all);
        assert(flags_of(predicate, self@, keep));
        StructType::try_new(chosen)
    }

    /// As [`StructType::with_fields_filtered`], but with `None` in place of a struct type without
    /// fields.
    pub fn with_fields_filtered_nonempty<F: Fn(&StructField) -> bool>(&self, predicate: F) -> (r:
        DeltaResult<Option<Self>>)
        requires
            forall|f: &StructField| call_requires(predicate, (f,)),
        ensures
            exists|keep: Seq<bool>| #[trigger]
                flags_of(predicate, self@, keep) && match r {
                    Ok(Some(s)) => kept(fields_of(self@), keep).len() > 0 && checked_struct(
                        kept(fields_of(self@), keep),
                    ) == Ok::<StructV, ErrorV>(s@),
                    Ok(None) => kept(fields_of(self@), keep).len() == 0,
                    Err(e) => checked_struct(kept(fields_of(self@), keep)) == Err::<
                        StructV,
                        ErrorV,
                    >(e@),
                },
    {
        match self.with_fields_filtered(predicate) {
            Ok(s) => if s.num_fields() == 0 {
                Ok(None)
            } else {
                Ok(Some(s))
            },
            Err(e) => Err(e),
        }
    }

    /// Returns a struct type with the named field replaced. The new field stands in the same place,
    /// under its own name. Returns an error if there is no such field, or if another field has the
    /// name of the new one.
    pub fn with_field_replaced(self, name: &str, new_field: StructField) -> (r: DeltaResult<
        StructType,
    >)
        ensures
            struct_result(r, replaced(self@, name@, new_field@)),
    {
        let at = match self.index_of(name) {
            Some(i) => i,
            None => {
                return Err(Error::Generic(cat3("Field ", name, " not found")));
            },
        };
        if !text_eq(new_field.name.as_str(), name) && self.contains(new_field.name.as_str()) {
            return Err(
                Error::Generic(cat3("Field ", new_field.name.as_str(), " already exists")),
            );
        }
        let ghost entries = self@.entries;
        let ghost e = EntryV { key: new_field@.name, field: new_field@ };
        proof {
            use_type_invariant(&self);
            lemma_update_distinct(entries, name@, new_field@);
            assert(!has_key(entries.remove(at as int), new_field@.name)) by {
                let rest = entries.remove(at as int);
                if has_key(rest, new_field@.name) {
                    let j = key_index(rest, new_field@.name);
                    let old_j = if j < at {
                        j
                    } else {
                        j + 1
                    };
                    assert(rest[j] == entries[old_j]);
                    assert(entries[at as int].key == name@);
                }
            }
            assert(entries.remove(at as int).insert(at as int, e) =~= entries.update(
                at as int,
                e,
            ));
        }
        let mut fields = self.fields;
        fields.shift_remove(name);
        let new_name = new_field.name.clone();
        fields.insert_before(at, new_name, new_field);
        let metadata_columns = metadata_positions(&fields);
        Ok(StructType { type_label: self.type_label, fields, metadata_columns })
    }

    /// A builder without fields.
    pub fn builder() -> (r: StructTypeBuilder)
        ensures
            r@ == Seq::<EntryV>::empty(),
    {
        StructTypeBuilder::new()
    }
}

proof fn lemma_kept_grows(fields: Seq<FieldV>, keep: Seq<bool>, longer: Seq<bool>)
    requires
        fields.len() <= keep.len() <= longer.len(),
        forall|i: int| 0 <= i < keep.len() ==> keep[i] == #[trigger] longer[i],
    ensures
        kept(fields, keep) == kept(fields, longer),
    decreases fields.len(),
{
    if fields.len() > 0 {
        lemma_kept_grows(fields.drop_last(), keep, longer);
        assert(keep[fields.len() - 1] == longer[fields.len() - 1]);
    }
}

/// Collects fields for a struct type. A field takes the place of an earlier one of its name.
#[derive(Debug)]
pub struct StructTypeBuilder {
    fields: FieldMap,
}

impl View for StructTypeBuilder {
    type V = Seq<EntryV>;

    closed spec fn view(&self) -> Seq<EntryV> {
        field_entries(self.fields)
    }
}

impl StructTypeBuilder {
    /// A builder without fields.
    pub fn new() -> (r: Self)
        ensures
            r@ == Seq::<EntryV>::empty(),
    {
        StructTypeBuilder { fields: FieldMap::new() }
    }

    /// A builder with the fields of a schema.
    pub fn from_schema(schema: &StructType) -> (r: Self)
        ensures
            r@ == schema@.entries,
    {
        let copy = schema.clone();
        StructTypeBuilder { fields: copy.fields }
    }

    /// Adds a field, in the place of the one of its name where there is one.
    pub fn add_field(self, field: StructField) -> (r: Self)
        ensures
            r@ == put(self@, field@.name, field@),
    {
        let mut fields = self.fields;
        let name = field.name.clone();
        fields.insert(name, field);
        StructTypeBuilder { fields }
    }

    /// The struct type of the fields.
    pub fn build(self) -> (r: DeltaResult<StructType>)
        ensures
            struct_result(r, checked_struct(entry_fields(self@))),
    {
        let values = self.fields.into_values();
        assert(field_views(values@) =~= entry_fields(self@));
        StructType::try_new(values)
    }

    /// The shared struct type of the fields, without checks.
    pub fn build_arc_unchecked(self) -> (r: SchemaRef)
        ensures
            r@ == unchecked_struct(entry_fields(self@)),
    {
        let values = self.fields.into_values();
        assert(field_views(values@) =~= entry_fields(self@));
        std::sync::Arc::new(StructType::new_unchecked(values))
    }
}

impl Default for StructTypeBuilder {
    fn default() -> (r: Self)
        ensures
            r@ == Seq::<EntryV>::empty(),
    {
        StructTypeBuilder::new()
    }
}

} // verus!
