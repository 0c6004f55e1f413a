//! Splits checkpoint data into file actions, which go to sidecar files, and other actions, which
//! stay in the main checkpoint file.
use std::sync::Arc;
use vstd::prelude::*;

use crate::error::{DeltaResult, Error};
use crate::expressions::{Cell, Expression, Predicate, Transform};
use crate::schema::types::{StructField, StructType};
use crate::text::{owned, text_eq};

#[allow(unused_imports)]
use crate::error::ErrorV;
#[allow(unused_imports)]
use crate::expressions::{
    any_holds, asks_cells, holds, lemma_all_ask_cells, lemma_any_holds,
    lemma_name_position, makes_row, name_position, replacement, row_of, Scalar,
};
#[allow(unused_imports)]
use crate::schema::struct_type::{checked_struct, field_named, field_views, law_found_by_name};
#[allow(unused_imports)]
use crate::schema::types::{key_index, StructV, TypeV};
#[allow(unused_imports)]
use crate::text::texts;

verus! {

/// The column of the files that are added.
pub const ADD_NAME: &'static str = "add";

/// The column of the files that are removed.
pub const REMOVE_NAME: &'static str = "remove";

/// Some rows of checkpoint data. Each row has a cell for each column.
#[derive(Debug)]
pub struct ActionBatch {
    /// The rows.
    pub rows: Vec<Vec<Cell>>,
}

/// Rows as models.
pub open spec fn row_views(rows: Seq<Vec<Cell>>) -> Seq<Seq<Cell>> {
    Seq::new(rows.len(), |i: int| rows[i]@)
}

impl View for ActionBatch {
    type V = Seq<Seq<Cell>>;

    open spec fn view(&self) -> Seq<Seq<Cell>> {
        row_views(self.rows@)
    }
}

/// Whether each row has as many cells as there are columns.
pub open spec fn rows_have_width(rows: Seq<Seq<Cell>>, width: nat) -> bool {
    forall|i: int| 0 <= i < rows.len() ==> (#[trigger] rows[i]).len() == width
}

impl ActionBatch {
    /// The number of rows.
    pub fn len(&self) -> (r: usize)
        ensures
            r == self@.len(),
    {
        self.rows.len()
    }

    /// Whether there is no row.
    pub fn is_empty(&self) -> (r: bool)
        ensures
            r == (self@.len() == 0),
    {
        self.rows.len() == 0
    }
}

/// Checkpoint data with a selection of its rows.
#[derive(Debug)]
pub struct FilteredBatch {
    /// All the rows.
    pub data: ActionBatch,
    /// Which rows are selected. Rows beyond the end of the vector are selected too.
    pub selection_vector: Vec<bool>,
}

/// The rows that a selection vector selects.
pub open spec fn selected(rows: Seq<Seq<Cell>>, selection: Seq<bool>) -> Seq<Seq<Cell>>
    decreases rows.len(),
{
    if rows.len() == 0 {
        seq![]
    } else if rows.len() - 1 < selection.len() && !selection[rows.len() - 1] {
        selected(rows.drop_last(), selection)
    } else {
        selected(rows.drop_last(), selection).push(rows.last())
    }
}

impl FilteredBatch {
    /// The selected rows alone.
    pub fn apply_selection_vector(self) -> (r: ActionBatch)
        ensures
            r@ == selected(self.data@, self.selection_vector@),
    {
        let selection = self.selection_vector;
        let rows = self.data.rows;
        let ghost all = row_views(rows@);
        let mut kept: Vec<Vec<Cell>> = Vec::new();
        let n: usize = rows.len();
        let mut i: usize = 0;
        for row in iter: rows
            invariant
                i == iter.index(),
                iter.seq() == rows@,
                i <= n == rows@.len(),
                all == row_views(rows@),
                row_views(kept@) == selected(all.take(i as int), selection@),
        {
            assert(i < rows@.len());
            assert(all.take(i + 1).drop_last() =~= all.take(i as int));
            assert(all.take(i + 1).last() == row@);
            if i >= selection.len() || selection[i] {
                let ghost before = row_views(kept@);
                kept.push(row);
                assert(row_views(kept@) =~= before.push(row@));
            }
            assert(row_views(kept@) =~= selected(all.take(i + 1), selection@));
            i = i + 1;
        }
        assert(all.take(all.len() as int) =~= all);
        ActionBatch { rows: kept }
    }
}

/// Transforms rows and filters out those of which nothing is left.
pub struct NonNullRowsPicker {
    /// The names of the columns before the transform.
    pub input_names: Vec<String>,
    /// The names of the columns after it.
    pub output_names: Vec<String>,
    /// What is made of each row.
    pub transform: Expression,
    /// Which of the rows that come out are kept.
    pub null_row_filter: Predicate,
}

/// What a picker makes of rows.
pub open spec fn picked(p: NonNullRowsPicker, rows: Seq<Seq<Cell>>) -> Seq<Seq<Cell>>
    decreases rows.len(),
{
    if rows.len() == 0 {
        seq![]
    } else {
        let out = row_of(p.transform, texts(p.input_names@), rows.last());
        if holds(p.null_row_filter, texts(p.output_names@), out) {
            picked(p, rows.drop_last()).push(out)
        } else {
            picked(p, rows.drop_last())
        }
    }
}

impl NonNullRowsPicker {
    /// Whether the transform makes rows of the columns that the filter asks about.
    pub open spec fn well_formed(&self) -> bool {
        &&& makes_row(self.transform, texts(self.input_names@))
        &&& asks_cells(self.null_row_filter, texts(self.output_names@))
        &&& match self.transform {
            Expression::Struct(fields) => fields@.len() == self.output_names@.len(),
            _ => self.input_names@.len() == self.output_names@.len(),
        }
    }

    /// Transforms the rows of a batch and keeps those that pass the filter.
    pub fn pick(&self, batch: &ActionBatch) -> (r: ActionBatch)
        requires
            self.well_formed(),
            rows_have_width(batch@, self.input_names@.len()),
        ensures
            r@ == picked(*self, batch@),
    {
        let ghost all = batch@;
        let mut kept: Vec<Vec<Cell>> = Vec::new();
        let mut i: usize = 0;
        while i < batch.rows.len()
            invariant
                i <= batch.rows@.len(),
                all == batch@,
                self.well_formed(),
                rows_have_width(all, self.input_names@.len()),
                row_views(kept@) == picked(*self, all.take(i as int)),
            decreases batch.rows.len() - i,
        {
            assert(all.take(i + 1).drop_last() =~= all.take(i as int));
            assert(all.take(i + 1).last() == all[i as int]);
            let row = &batch.rows[i];
            assert(row@ == all[i as int]);
            let out = self.transform.evaluate(&self.input_names, row);
            if self.null_row_filter.evaluate(&self.output_names, &out) {
                let ghost before = row_views(kept@);
                kept.push(out);
                assert(row_views(kept@) =~= before.push(out@));
            }
            i = i + 1;
        }
        assert(all.take(i as int) =~= all);
        ActionBatch { rows: kept }
    }
}

/// The names of the columns of a schema.
pub open spec fn schema_names(s: StructV) -> Seq<Seq<char>> {
    Seq::new(s.entries.len(), |i: int| s.entries[i].field.name)
}

/// Whether a column holds file actions.
pub open spec fn is_file_column(name: Seq<char>) -> bool {
    name == ADD_NAME@ || name == REMOVE_NAME@
}

/// Whether the two columns of file actions are among the columns.
pub open spec fn has_file_columns(names: Seq<Seq<char>>) -> bool {
    name_position(names, ADD_NAME@) is Some && name_position(names, REMOVE_NAME@) is Some
}

/// The cell of a row in the column of the given name.
pub open spec fn cell_named(names: Seq<Seq<char>>, name: Seq<char>, row: Seq<Cell>) -> Cell {
    match name_position(names, name) {
        Some(i) => row[i],
        None => None,
    }
}

/// The file actions of a row: its `add` and its `remove`.
pub open spec fn file_row(names: Seq<Seq<char>>, row: Seq<Cell>) -> Seq<Cell> {
    seq![cell_named(names, ADD_NAME@, row), cell_named(names, REMOVE_NAME@, row)]
}

/// Whether a row holds a file action.
pub open spec fn has_file_action(names: Seq<Seq<char>>, row: Seq<Cell>) -> bool {
    cell_named(names, ADD_NAME@, row) is Some || cell_named(names, REMOVE_NAME@, row) is Some
}

/// The other actions of a row: the row without its `add` and its `remove`.
pub open spec fn other_row(names: Seq<Seq<char>>, row: Seq<Cell>) -> Seq<Cell> {
    Seq::new(
        row.len(),
        |i: int|
            if is_file_column(names[i]) {
                None
            } else {
                row[i]
            },
    )
}

/// Whether a row holds an action in the given column, and that is no file action.
pub open spec fn other_action_at(names: Seq<Seq<char>>, row: Seq<Cell>, i: int) -> bool {
    0 <= i < names.len() && !is_file_column(names[i]) && row[i] is Some
}

/// Whether a row holds an action that is no file action.
pub open spec fn has_other_action(names: Seq<Seq<char>>, row: Seq<Cell>) -> bool {
    exists|i: int| #[trigger] other_action_at(names, row, i)
}

/// The file actions of rows. Rows without one are dropped.
pub open spec fn file_rows(names: Seq<Seq<char>>, rows: Seq<Seq<Cell>>) -> Seq<Seq<Cell>>
    decreases rows.len(),
{
    if rows.len() == 0 {
        seq![]
    } else if has_file_action(names, rows.last()) {
        file_rows(names, rows.drop_last()).push(file_row(names, rows.last()))
    } else {
        file_rows(names, rows.drop_last())
    }
}

/// The other actions of rows. Rows without one are dropped.
pub open spec fn other_rows(names: Seq<Seq<char>>, rows: Seq<Seq<Cell>>) -> Seq<Seq<Cell>>
    decreases rows.len(),
{
    if rows.len() == 0 {
        seq![]
    } else if has_other_action(names, rows.last()) {
        other_rows(names, rows.drop_last()).push(other_row(names, rows.last()))
    } else {
        other_rows(names, rows.drop_last())
    }
}

/// What keeps checkpoint data of a schema from being split: it lacks a column of file actions, one
/// of the two may not be null, or they cannot stand together in a schema.
pub open spec fn split_error(schema: StructV) -> Option<ErrorV> {
    match (field_named(schema, ADD_NAME@), field_named(schema, REMOVE_NAME@)) {
        (None, _) => Some(
            ErrorV::CheckpointWrite("Checkpoint data schema missing 'add' field"@),
        ),
        (Some(_), None) => Some(
            ErrorV::CheckpointWrite("Checkpoint data schema missing 'remove' field"@),
        ),
        (Some(add), Some(remove)) => if !add.nullable {
            Some(
                ErrorV::CheckpointWrite("Checkpoint data schema 'add' field must be nullable"@),
            )
        } else if !remove.nullable {
            Some(
                ErrorV::CheckpointWrite("Checkpoint data schema 'remove' field must be nullable"@),
            )
        } else {
            match checked_struct(seq![add, remove]) {
                Ok(_) => None,
                Err(e) => Some(e),
            }
        },
    }
}

/// Checkpoint data that is still to be split: the selected rows of each batch, or the error that
/// came in its place.
pub open spec fn item_view(item: DeltaResult<FilteredBatch>) -> Result<Seq<Seq<Cell>>, ErrorV> {
    match item {
        Ok(batch) => Ok(selected(batch.data@, batch.selection_vector@)),
        Err(e) => Err(e@),
    }
}

/// A list of batches as models.
pub open spec fn item_views(items: Seq<DeltaResult<FilteredBatch>>) -> Seq<
    Result<Seq<Seq<Cell>>, ErrorV>,
> {
    Seq::new(items.len(), |i: int| item_view(items[i]))
}

/// Whether the rows of a batch have as many cells as there are columns.
pub open spec fn item_has_width(item: DeltaResult<FilteredBatch>, width: nat) -> bool {
    match item {
        Ok(batch) => rows_have_width(batch.data@, width),
        Err(_) => true,
    }
}

/// Batches as models.
pub open spec fn batch_views(batches: Seq<ActionBatch>) -> Seq<Seq<Seq<Cell>>> {
    Seq::new(batches.len(), |i: int| batches[i]@)
}

/// What one step of a splitter gives, and what it leaves behind.
pub struct Step {
    pub result: Option<Result<Seq<Seq<Cell>>, ErrorV>>,
    pub pending: Seq<Result<Seq<Seq<Cell>>, ErrorV>>,
    pub buffered: Seq<Seq<Seq<Cell>>>,
}

/// One step of a splitter: it takes batches up to and with the first that has file actions or is an
/// error, and puts aside the other actions of the batches that it takes.
pub open spec fn step(
    names: Seq<Seq<char>>,
    pending: Seq<Result<Seq<Seq<Cell>>, ErrorV>>,
    buffered: Seq<Seq<Seq<Cell>>>,
) -> Step
    decreases pending.len(),
{
    if pending.len() == 0 {
        Step { result: None, pending, buffered }
    } else {
        let rest = pending.remove(0);
        match pending[0] {
            Err(e) => Step { result: Some(Err(e)), pending: rest, buffered },
            Ok(rows) => {
                let kept = if other_rows(names, rows).len() > 0 {
                    buffered.push(other_rows(names, rows))
                } else {
                    buffered
                };
                if file_rows(names, rows).len() > 0 {
                    Step { result: Some(Ok(file_rows(names, rows))), pending: rest, buffered: kept }
                } else {
                    step(names, rest, kept)
                }
            },
        }
    }
}

/// Whether an expression is a column of the top level.
pub open spec fn is_column(e: Expression, name: Seq<char>) -> bool {
    e matches Expression::Column(c) && c@ == seq![name]
}

/// Whether a predicate asks that a column of the top level is not null.
pub open spec fn asks_not_null(p: Predicate, name: Seq<char>) -> bool {
    p matches Predicate::Not(q) && *q matches Predicate::IsNull(e) && is_column(*e, name)
}

/// Whether a replacement puts the null of a type in the place of a field.
pub open spec fn nulls_out(r: (String, Arc<Expression>), name: Seq<char>, t: TypeV) -> bool {
    &&& r.0@ == name
    &&& *r.1 matches Expression::Literal(Scalar::Null(d)) && d@ == t
}

/// The type of the null that a replacement puts in the place of a field.
pub open spec fn null_type(r: (String, Arc<Expression>)) -> TypeV {
    ((*r.1)->Literal_0)->Null_0@
}

/// Whether no name occurs twice.
pub open spec fn distinct_names(names: Seq<Seq<char>>) -> bool {
    forall|i: int, j: int|
        0 <= i < names.len() && 0 <= j < names.len() && (#[trigger] names[i]) == (
        #[trigger] names[j]) ==> i == j
}

/// Whether a picker takes the file actions of rows.
pub open spec fn takes_file_actions(p: NonNullRowsPicker, names: Seq<Seq<char>>) -> bool {
    &&& texts(p.input_names@) == names
    &&& texts(p.output_names@) == seq![ADD_NAME@, REMOVE_NAME@]
    &&& p.transform matches Expression::Struct(fields) && fields@.len() == 2 && is_column(
        fields@[0],
        ADD_NAME@,
    ) && is_column(fields@[1], REMOVE_NAME@)
    &&& p.null_row_filter matches Predicate::Or(list) && list@.len() == 2 && asks_not_null(
        list@[0],
        ADD_NAME@,
    ) && asks_not_null(list@[1], REMOVE_NAME@)
}

/// The names that are none of file actions.
pub open spec fn other_names(names: Seq<Seq<char>>) -> Seq<Seq<char>>
    decreases names.len(),
{
    if names.len() == 0 {
        seq![]
    } else if is_file_column(names.last()) {
        other_names(names.drop_last())
    } else {
        other_names(names.drop_last()).push(names.last())
    }
}

/// Whether a picker takes the other actions of rows, with nulls of the given types in the place of
/// the file actions.
pub open spec fn takes_other_actions(
    p: NonNullRowsPicker,
    names: Seq<Seq<char>>,
    types: (TypeV, TypeV),
) -> bool {
    &&& texts(p.input_names@) == names
    &&& texts(p.output_names@) == names
    &&& p.transform matches Expression::Transform(t) && t.replacements@.len() == 2 && nulls_out(
        t.replacements@[0],
        ADD_NAME@,
        types.0,
    ) && nulls_out(t.replacements@[1], REMOVE_NAME@, types.1)
    &&& p.null_row_filter matches Predicate::Or(list) && asks_not_null_each(
        list@,
        other_names(names),
    )
}

/// Whether predicates ask of columns, one each, that they are not null.
pub open spec fn asks_not_null_each(list: Seq<Predicate>, names: Seq<Seq<char>>) -> bool {
    list.len() == names.len() && forall|i: int|
        0 <= i < list.len() ==> asks_not_null(#[trigger] list[i], names[i])
}

/// Splits checkpoint data into file-action batches (for sidecars) and batches of other actions
/// (for the main checkpoint file).
pub struct SidecarSplitter {
    /// The batches that are still to come.
    pending: Vec<DeltaResult<FilteredBatch>>,
    /// Projects to `add` and `remove` and filters out rows where both are null.
    file_actions_picker: NonNullRowsPicker,
    /// Nulls out `add` and `remove` and filters out rows where all remaining columns are null.
    non_file_actions_picker: NonNullRowsPicker,
    /// Accumulated batches of other actions.
    non_file_action_batches: Vec<ActionBatch>,
    /// Set when there was no batch left.
    exhausted: bool,
}

impl SidecarSplitter {
    /// The names of the columns of checkpoint data.
    pub closed spec fn names(&self) -> Seq<Seq<char>> {
        texts(self.file_actions_picker.input_names@)
    }

    /// The types of the nulls that stand for `add` and `remove` among the other actions.
    pub closed spec fn null_types(&self) -> (TypeV, TypeV) {
        let list = (self.non_file_actions_picker.transform->Transform_0).replacements@;
        (null_type(list[0]), null_type(list[1]))
    }

    /// The batches that are still to come.
    pub closed spec fn pending(&self) -> Seq<Result<Seq<Seq<Cell>>, ErrorV>> {
        item_views(self.pending@)
    }

    /// The batches of other actions so far.
    pub closed spec fn buffered(&self) -> Seq<Seq<Seq<Cell>>> {
        batch_views(self.non_file_action_batches@)
    }

    /// Whether the end of the checkpoint data was met.
    pub closed spec fn met_end(&self) -> bool {
        self.exhausted
    }

    #[verifier::type_invariant]
    closed spec fn well_formed(&self) -> bool {
        &&& takes_file_actions(self.file_actions_picker, self.names())
        &&& takes_other_actions(self.non_file_actions_picker, self.names(), self.null_types())
        &&& distinct_names(self.names())
        &&& has_file_columns(self.names())
        &&& forall|i: int|
            0 <= i < self.pending@.len() ==> item_has_width(
                #[trigger] self.pending@[i],
                self.names().len(),
            )
    }

    /// Splits the given batches of checkpoint data of the given schema. The schema must have the
    /// two columns of file actions, and they must be nullable.
    pub fn new(
        checkpoint_data: Vec<DeltaResult<FilteredBatch>>,
        checkpoint_data_schema: &StructType,
    ) -> (r: DeltaResult<Self>)
        requires
            forall|i: int|
                0 <= i < checkpoint_data@.len() ==> item_has_width(
                    #[trigger] checkpoint_data@[i],
                    checkpoint_data_schema@.entries.len(),
                ),
        ensures
            match r {
                Ok(s) => {
                    &&& split_error(checkpoint_data_schema@) is None
                    &&& s.names() == schema_names(checkpoint_data_schema@)
                    &&& s.null_types() == (
                        field_named(checkpoint_data_schema@, ADD_NAME@)->0.data_type,
                        field_named(checkpoint_data_schema@, REMOVE_NAME@)->0.data_type,
                    )
                    &&& s.pending() == item_views(checkpoint_data@)
                    &&& s.buffered() == Seq::<Seq<Seq<Cell>>>::empty()
                    &&& !s.met_end()
                },
                Err(e) => split_error(checkpoint_data_schema@) == Some(e@),
            },
    {
        let pickers = match action_pickers(checkpoint_data_schema) {
            Ok(p) => p,
            Err(e) => {
                return Err(e);
            },
        };
        let ghost names = schema_names(checkpoint_data_schema@);
        proof {
            use_type_invariant(checkpoint_data_schema);
            assert(names.len() == checkpoint_data_schema@.entries.len());
            assert(distinct_names(names));
            law_found_by_name(checkpoint_data_schema@, ADD_NAME@);
            law_found_by_name(checkpoint_data_schema@, REMOVE_NAME@);
            lemma_name_position(names, ADD_NAME@);
            lemma_name_position(names, REMOVE_NAME@);
            let k = key_index(checkpoint_data_schema@.entries, ADD_NAME@);
            assert(names[k] == ADD_NAME@);
            let k = key_index(checkpoint_data_schema@.entries, REMOVE_NAME@);
            assert(names[k] == REMOVE_NAME@);
        }
        let s = SidecarSplitter {
            pending: checkpoint_data,
            file_actions_picker: pickers.file_actions,
            non_file_actions_picker: pickers.non_file_actions,
            non_file_action_batches: Vec::new(),
            exhausted: false,
        };
        assert(s.buffered() =~= Seq::<Seq<Seq<Cell>>>::empty());
        Ok(s)
    }

    /// Takes batches until one has file actions, splits each into file actions and other actions,
    /// and buffers the other actions. Returns the next non-empty batch of file actions, or the
    /// error that stands in the place of a batch. Returns `None`, and is exhausted, when there is
    /// no batch left.
    pub fn next_file_actions_batch(&mut self) -> (r: Option<DeltaResult<ActionBatch>>)
        ensures
            final(self).names() == old(self).names(),
            final(self).null_types() == old(self).null_types(),
            ({
                let s = step(old(self).names(), old(self).pending(), old(self).buffered());
                &&& final(self).pending() == s.pending
                &&& final(self).buffered() == s.buffered
                &&& final(self).met_end() == (old(self).met_end() || s.result is None)
                &&& match r {
                    None => s.result is None,
                    Some(Ok(batch)) => s.result == Some(
                        Ok::<Seq<Seq<Cell>>, ErrorV>(batch@),
                    ),
                    Some(Err(e)) => s.result == Some(Err::<Seq<Seq<Cell>>, ErrorV>(e@)),
                }
            }),
    {
        let ghost names = self.names();
        let ghost goal = step(names, self.pending(), self.buffered());
        let ghost ended = self.exhausted;
        while self.pending.len() > 0
            invariant
                self.names() == names,
                self.null_types() == old(self).null_types(),
                names == old(self).names(),
                goal == step(names, self.pending(), self.buffered()),
                goal == step(names, old(self).pending(), old(self).buffered()),
                self.exhausted == ended,
                ended == old(self).met_end(),
            decreases self.pending@.len(),
        {
            proof {
                use_type_invariant(&*self);
            }
            let ghost before = self.pending@;
            let ghost buffered = self.buffered();
            assert(item_has_width(before[0], names.len()));
            let item = self.take_first();
            assert(item_views(before)[0] == item_view(item));
            assert(item_views(before).remove(0) =~= self.pending());
            let batch = match item {
                Ok(f) => {
                    proof {
                        lemma_selected_width(f.data@, f.selection_vector@, names.len());
                    }
                    f.apply_selection_vector()
                },
                Err(e) => {
                    return Some(Err(e));
                },
            };
            proof {
                use_type_invariant(&*self);
                lemma_file_rows(self.file_actions_picker, names, batch@);
                lemma_other_rows(
                    self.non_file_actions_picker,
                    names,
                    self.null_types(),
                    batch@,
                );
            }
            let non_file_actions_batch = self.non_file_actions_picker.pick(&batch);
            let file_actions_batch = self.file_actions_picker.pick(&batch);
            let parts = split_parts(Ok(non_file_actions_batch), Ok(file_actions_batch));
            if let Some(others) = parts.put_aside {
                self.put_aside(others);
            }
            if let Some(result) = parts.result {
                return Some(result);
            }
        }
        assert(self.pending().len() == 0);
        proof {
            use_type_invariant(&*self);
        }
        self.exhausted = true;
        None
    }

    fn take_first(&mut self) -> (r: DeltaResult<FilteredBatch>)
        requires
            old(self).pending@.len() > 0,
        ensures
            r == old(self).pending@[0],
            final(self).pending@ == old(self).pending@.remove(0),
            final(self).file_actions_picker == old(self).file_actions_picker,
            final(self).non_file_actions_picker == old(self).non_file_actions_picker,
            final(self).non_file_action_batches == old(self).non_file_action_batches,
            final(self).exhausted == old(self).exhausted,
    {
        proof {
            use_type_invariant(&*self);
        }
        let mut pending: Vec<DeltaResult<FilteredBatch>> = Vec::new();
        std::mem::swap(&mut pending, &mut self.pending);
        let item = pending.remove(0);
        self.pending = pending;
        item
    }

    fn put_aside(&mut self, batch: ActionBatch)
        ensures
            final(self).buffered() == old(self).buffered().push(batch@),
            final(self).pending@ == old(self).pending@,
            final(self).file_actions_picker == old(self).file_actions_picker,
            final(self).non_file_actions_picker == old(self).non_file_actions_picker,
            final(self).exhausted == old(self).exhausted,
    {
        proof {
            use_type_invariant(&*self);
        }
        let mut batches: Vec<ActionBatch> = Vec::new();
        std::mem::swap(&mut batches, &mut self.non_file_action_batches);
        batches.push(batch);
        self.non_file_action_batches = batches;
        assert(self.buffered() =~= old(self).buffered().push(batch@));
    }

    /// Whether the end of the checkpoint data was met.
    pub fn is_exhausted(&self) -> (r: bool)
        ensures
            r == self.met_end(),
    {
        self.exhausted
    }

    /// Consumes the splitter and returns the buffered batches of other actions.
    pub fn into_non_file_batches(self) -> (r: Vec<ActionBatch>)
        ensures
            batch_views(r@) == self.buffered(),
    {
        self.non_file_action_batches
    }
}

/// What is made of the two parts of a batch.
pub struct SplitParts {
    /// The batch of other actions to buffer.
    pub put_aside: Option<ActionBatch>,
    /// The batch of file actions or the error to return; `None` where the next batch is to be taken.
    pub result: Option<DeltaResult<ActionBatch>>,
}

/// What is made of the other actions and the file actions that were picked of a batch, either of
/// which may have failed. An error of the other actions comes first. Empty parts are dropped.
pub fn split_parts(
    others: DeltaResult<ActionBatch>,
    files: DeltaResult<ActionBatch>,
) -> (r: SplitParts)
    ensures
        match others {
            Err(e) => r.put_aside is None && r.result == Some(Err::<ActionBatch, Error>(e)),
            Ok(o) => {
                &&& r.put_aside == (if o@.len() > 0 {
                    Some(o)
                } else {
                    None
                })
                &&& r.result == (match files {
                    Err(e) => Some(Err(e)),
                    Ok(f) => if f@.len() > 0 {
                        Some(Ok(f))
                    } else {
                        None
                    },
                })
            },
        },
{
    let others = match others {
        Ok(o) => o,
        Err(e) => {
            return SplitParts { put_aside: None, result: Some(Err(e)) };
        },
    };
    let put_aside = if others.is_empty() {
        None
    } else {
        Some(others)
    };
    let result = match files {
        Ok(f) => if f.is_empty() {
            None
        } else {
            Some(Ok(f))
        },
        Err(e) => Some(Err(e)),
    };
    SplitParts { put_aside, result }
}

/// Selected rows have as many cells as all the rows.
proof fn lemma_selected_width(rows: Seq<Seq<Cell>>, selection: Seq<bool>, width: nat)
    requires
        rows_have_width(rows, width),
    ensures
        rows_have_width(selected(rows, selection), width),
    decreases rows.len(),
{
    if rows.len() > 0 {
        assert(rows_have_width(rows.drop_last(), width));
        lemma_selected_width(rows.drop_last(), selection, width);
    }
}

/// What the picker of file actions makes of rows.
proof fn lemma_file_rows(p: NonNullRowsPicker, names: Seq<Seq<char>>, rows: Seq<Seq<Cell>>)
    requires
        takes_file_actions(p, names),
        has_file_columns(names),
    ensures
        p.well_formed(),
        picked(p, rows) == file_rows(names, rows),
    decreases rows.len(),
{
    lemma_file_picker(p, names);
    if rows.len() > 0 {
        lemma_file_rows(p, names, rows.drop_last());
        let row = rows.last();
        let out = row_of(p.transform, names, row);
        assert(out =~= file_row(names, row));
        let outs = seq![ADD_NAME@, REMOVE_NAME@];
        lemma_file_positions();
        let list = p.null_row_filter->Or_0@;
        assert(holds(list[0], outs, out) == (out[0] is Some)) by {
            reveal_with_fuel(holds, 3);
        }
        assert(holds(list[1], outs, out) == (out[1] is Some)) by {
            reveal_with_fuel(holds, 3);
        }
        lemma_any_holds(list, outs, out);
        assert(holds(p.null_row_filter, outs, out) == any_holds(list, outs, out));
        assert(holds(p.null_row_filter, outs, out) == has_file_action(names, row));
    }
}

/// The picker of file actions asks only about what is there.
proof fn lemma_file_picker(p: NonNullRowsPicker, names: Seq<Seq<char>>)
    requires
        takes_file_actions(p, names),
        has_file_columns(names),
    ensures
        p.well_formed(),
{
    assert(p.output_names@.len() == texts(p.output_names@).len());
    let outs = seq![ADD_NAME@, REMOVE_NAME@];
    lemma_file_positions();
    let list = p.null_row_filter->Or_0@;
    lemma_all_ask_cells(list, outs);
    assert forall|i: int| 0 <= i < list.len() implies #[trigger] asks_cells(list[i], outs) by {
        reveal_with_fuel(asks_cells, 3);
        assert(asks_not_null(list[i], outs[i]));
    }
}

/// The picker of other actions asks only about what is there.
proof fn lemma_other_picker(p: NonNullRowsPicker, names: Seq<Seq<char>>, types: (TypeV, TypeV))
    requires
        takes_other_actions(p, names, types),
    ensures
        p.well_formed(),
{
    assert(p.output_names@.len() == texts(p.output_names@).len());
    assert(p.input_names@.len() == texts(p.input_names@).len());
    let asked = p.null_row_filter->Or_0@;
    lemma_other_names(names);
    lemma_all_ask_cells(asked, names);
    assert forall|k: int| 0 <= k < asked.len() implies #[trigger] asks_cells(asked[k], names) by {
        reveal_with_fuel(asks_cells, 3);
        let name = other_names(names)[k];
        assert(asks_not_null(asked[k], name));
        let i = choose|i: int|
            0 <= i < names.len() && #[trigger] names[i] == name && !is_file_column(name);
        lemma_name_position(names, name);
        assert(names[i] == name);
    }
}

/// The columns of file actions stand one after the other.
proof fn lemma_file_positions()
    ensures
        name_position(seq![ADD_NAME@, REMOVE_NAME@], ADD_NAME@) == Some(0int),
        name_position(seq![ADD_NAME@, REMOVE_NAME@], REMOVE_NAME@) == Some(1int),
        ADD_NAME@ != REMOVE_NAME@,
{
    reveal_strlit("add");
    reveal_strlit("remove");
    assert(ADD_NAME@.len() == 3);
    assert(REMOVE_NAME@.len() == 6);
    let names = seq![ADD_NAME@, REMOVE_NAME@];
    lemma_name_position(names, ADD_NAME@);
    lemma_name_position(names, REMOVE_NAME@);
    assert(names[0] == ADD_NAME@);
    assert(names[1] == REMOVE_NAME@);
}

/// What the picker of other actions makes of rows.
proof fn lemma_other_rows(
    p: NonNullRowsPicker,
    names: Seq<Seq<char>>,
    types: (TypeV, TypeV),
    rows: Seq<Seq<Cell>>,
)
    requires
        takes_other_actions(p, names, types),
        distinct_names(names),
        rows_have_width(rows, names.len()),
    ensures
        p.well_formed(),
        picked(p, rows) == other_rows(names, rows),
    decreases rows.len(),
{
    lemma_other_picker(p, names, types);
    if rows.len() > 0 {
        assert(rows_have_width(rows.drop_last(), names.len()));
        lemma_other_rows(p, names, types, rows.drop_last());
        let row = rows.last();
        assert(row.len() == names.len());
        let out = row_of(p.transform, names, row);
        let list = (p.transform->Transform_0).replacements@;
        assert forall|i: int| 0 <= i < names.len() implies out[i] == other_row(names, row)[i] by {
            let name = names[i];
            assert(list.drop_last().last() == list[0]);
            assert(list.last() == list[1]);
            assert(list.drop_last().drop_last().len() == 0);
            reveal_with_fuel(replacement, 3);
            assert(replacement(list, name) is Some == is_file_column(name));
        }
        assert(out =~= other_row(names, row));
        let asked = p.null_row_filter->Or_0@;
        lemma_any_holds(asked, names, out);
        lemma_other_names(names);
        assert(holds(p.null_row_filter, names, out) == any_holds(asked, names, out));
        if has_other_action(names, row) {
            let i = choose|i: int| #[trigger] other_action_at(names, row, i);
            let k = choose|k: int|
                0 <= k < other_names(names).len() && #[trigger] other_names(names)[k] == names[i];
            lemma_asked(asked[k], names, out, i);
        }
        if any_holds(asked, names, out) {
            let k = choose|k: int| 0 <= k < asked.len() && #[trigger] holds(asked[k], names, out);
            let name = other_names(names)[k];
            let i = choose|i: int|
                0 <= i < names.len() && #[trigger] names[i] == name && !is_file_column(name);
            lemma_asked(asked[k], names, out, i);
            assert(other_action_at(names, row, i));
        }
        assert(holds(p.null_row_filter, names, out) == has_other_action(names, row));
    }
}

/// Whether a cell that is asked about is not null.
proof fn lemma_asked(p: Predicate, names: Seq<Seq<char>>, row: Seq<Cell>, i: int)
    requires
        distinct_names(names),
        0 <= i < names.len(),
        asks_not_null(p, names[i]),
    ensures
        holds(p, names, row) == (row[i] is Some),
{
    reveal_with_fuel(holds, 3);
    lemma_name_position(names, names[i]);
}

/// The names that are none of file actions are among all the names, and none of them is left out.
proof fn lemma_other_names(names: Seq<Seq<char>>)
    ensures
        forall|i: int|
            0 <= i < names.len() && !is_file_column(#[trigger] names[i]) ==> exists|k: int|
                0 <= k < other_names(names).len() && #[trigger] other_names(names)[k] == names[i],
        forall|k: int|
            0 <= k < other_names(names).len() ==> exists|i: int|
                0 <= i < names.len() && #[trigger] names[i] == (#[trigger] other_names(names)[k])
                    && !is_file_column(other_names(names)[k]),
    decreases names.len(),
{
    if names.len() > 0 {
        let init = names.drop_last();
        lemma_other_names(init);
        assert forall|i: int| 0 <= i < names.len() && !is_file_column(#[trigger] names[i]) implies exists|
            k: int,
        | 0 <= k < other_names(names).len() && #[trigger] other_names(names)[k] == names[i] by {
            if i < init.len() {
                assert(init[i] == names[i]);
                let k = choose|k: int|
                    0 <= k < other_names(init).len() && #[trigger] other_names(init)[k] == init[i];
                assert(other_names(names)[k] == names[i]);
            } else {
                assert(other_names(names)[other_names(names).len() - 1] == names[i]);
            }
        }
        assert forall|k: int| 0 <= k < other_names(names).len() implies exists|i: int|
            0 <= i < names.len() && #[trigger] names[i] == (#[trigger] other_names(names)[k])
                && !is_file_column(other_names(names)[k]) by {
            if k < other_names(init).len() {
                let i = choose|i: int|
                    0 <= i < init.len() && #[trigger] init[i] == other_names(init)[k]
                        && !is_file_column(other_names(init)[k]);
                assert(names[i] == init[i]);
            } else {
                assert(names[names.len() - 1] == names.last());
            }
        }
    }
}

/// What checkpoint data is split with, for an engine to evaluate.
pub struct ActionPickers {
    /// Projects to `add` and `remove`, and keeps the rows where one of them is not null.
    pub file_actions: NonNullRowsPicker,
    /// The schema of the rows that come out of it.
    pub sidecar_schema: StructType,
    /// Nulls out `add` and `remove`, and keeps the rows where another column is not null. The rows
    /// that come out have the schema of the checkpoint data.
    pub non_file_actions: NonNullRowsPicker,
}

/// The expressions and predicates that split checkpoint data of the given schema. The schema must
/// have the two columns of file actions, and they must be nullable.
pub fn action_pickers(checkpoint_data_schema: &StructType) -> (r: DeltaResult<ActionPickers>)
    ensures
        match r {
            Ok(p) => {
                let schema = checkpoint_data_schema@;
                let add = field_named(schema, ADD_NAME@)->0;
                let remove = field_named(schema, REMOVE_NAME@)->0;
                &&& split_error(schema) is None
                &&& takes_file_actions(p.file_actions, schema_names(schema))
                &&& checked_struct(seq![add, remove]) == Ok::<StructV, ErrorV>(p.sidecar_schema@)
                &&& takes_other_actions(
                    p.non_file_actions,
                    schema_names(schema),
                    (add.data_type, remove.data_type),
                )
            },
            Err(e) => split_error(checkpoint_data_schema@) == Some(e@),
        },
{
    let add_field = match checkpoint_data_schema.field(ADD_NAME) {
        Some(f) => f,
        None => {
            return Err(
                Error::CheckpointWrite(owned("Checkpoint data schema missing 'add' field")),
            );
        },
    };
    let remove_field = match checkpoint_data_schema.field(REMOVE_NAME) {
        Some(f) => f,
        None => {
            return Err(
                Error::CheckpointWrite(owned("Checkpoint data schema missing 'remove' field")),
            );
        },
    };
    if !add_field.is_nullable() {
        return Err(
            Error::CheckpointWrite(owned("Checkpoint data schema 'add' field must be nullable")),
        );
    }
    if !remove_field.is_nullable() {
        return Err(
            Error::CheckpointWrite(
                owned("Checkpoint data schema 'remove' field must be nullable"),
            ),
        );
    }
    let mut sidecar_fields: Vec<StructField> = Vec::new();
    sidecar_fields.push(add_field.clone());
    sidecar_fields.push(remove_field.clone());
    assert(field_views(sidecar_fields@) =~= seq![add_field@, remove_field@]);
    match StructType::try_new(sidecar_fields) {
        Ok(sidecar_schema) => Ok(
            ActionPickers {
                file_actions: file_actions_picker(column_names(checkpoint_data_schema)),
                sidecar_schema,
                non_file_actions: other_actions_picker(
                    column_names(checkpoint_data_schema),
                    column_names(checkpoint_data_schema),
                    add_field,
                    remove_field,
                ),
            },
        ),
        Err(e) => Err(e),
    }
}

fn column_names(schema: &StructType) -> (r: Vec<String>)
    ensures
        texts(r@) == schema_names(schema@),
{
    let names = schema.field_names();
    let mut r: Vec<String> = Vec::new();
    let mut i: usize = 0;
    while i < names.len()
        invariant
            i <= names@.len(),
            names@.len() == schema@.entries.len(),
            forall|j: int|
                0 <= j < names@.len() ==> (#[trigger] names@[j])@ == schema@.entries[j].field.name,
            r@.len() == i,
            forall|j: int| 0 <= j < i ==> (#[trigger] r@[j])@ == schema@.entries[j].field.name,
        decreases names.len() - i,
    {
        r.push(owned(names[i].as_str()));
        i = i + 1;
    }
    assert(texts(r@) =~= schema_names(schema@));
    r
}

fn file_actions_picker(names: Vec<String>) -> (r: NonNullRowsPicker)
    ensures
        takes_file_actions(r, texts(names@)),
{
    let mut fields: Vec<Expression> = Vec::new();
    fields.push(Expression::column(ADD_NAME));
    fields.push(Expression::column(REMOVE_NAME));
    let filter = Predicate::or(
        Predicate::is_not_null(Expression::column(ADD_NAME)),
        Predicate::is_not_null(Expression::column(REMOVE_NAME)),
    );
    let mut output_names: Vec<String> = Vec::new();
    output_names.push(owned(ADD_NAME));
    output_names.push(owned(REMOVE_NAME));
    assert(texts(output_names@) =~= seq![ADD_NAME@, REMOVE_NAME@]);
    NonNullRowsPicker {
        input_names: names,
        output_names,
        transform: Expression::struct_from(fields),
        null_row_filter: filter,
    }
}

fn other_actions_picker(
    input_names: Vec<String>,
    output_names: Vec<String>,
    add_field: &StructField,
    remove_field: &StructField,
) -> (r: NonNullRowsPicker)
    requires
        texts(input_names@) == texts(output_names@),
    ensures
        takes_other_actions(
            r,
            texts(input_names@),
            (add_field@.data_type, remove_field@.data_type),
        ),
{
    let ghost names = texts(input_names@);
    let transform = Transform::new_top_level().with_replaced_field(
        ADD_NAME,
        Arc::new(Expression::null(add_field.data_type().clone())),
    ).with_replaced_field(
        REMOVE_NAME,
        Arc::new(Expression::null(remove_field.data_type().clone())),
    );
    proof {
        let list = transform.replacements@;
        assert(list.drop_last()[0] == list[0]);
        assert(list.drop_last().last() == list[0]);
    }
    let mut list: Vec<Predicate> = Vec::new();
    let mut i: usize = 0;
    while i < input_names.len()
        invariant
            i <= input_names@.len(),
            names == texts(input_names@),
            asks_not_null_each(list@, other_names(names.take(i as int))),
        decreases input_names.len() - i,
    {
        let ghost done = names.take(i as int);
        assert(names.take(i + 1).drop_last() =~= done);
        assert(names.take(i + 1).last() == names[i as int]);
        let name = input_names[i].as_str();
        if !text_eq(name, ADD_NAME) && !text_eq(name, REMOVE_NAME) {
            list.push(Predicate::is_not_null(Expression::column(name)));
        }
        i = i + 1;
    }
    assert(names.take(i as int) =~= names);
    NonNullRowsPicker {
        input_names,
        output_names,
        transform: Expression::Transform(transform),
        null_row_filter: Predicate::or_from(list),
    }
}

/// Where the writing of one sidecar stands between two batches.
pub struct SidecarStateV {
    /// The number of rows that the sidecar has got.
    pub yielded: int,
    /// The batches of checkpoint data that are still to come.
    pub pending: Seq<Result<Seq<Seq<Cell>>, ErrorV>>,
    /// The batches of other actions so far.
    pub buffered: Seq<Seq<Seq<Cell>>>,
    /// Whether the end of the checkpoint data was met.
    pub met_end: bool,
}

/// What is asked of a sidecar iterator once: what it gives, and what it leaves behind.
pub struct CallV {
    pub result: Option<Result<Seq<Seq<Cell>>, ErrorV>>,
    pub after: SidecarStateV,
}

/// The state of an iterator and its splitter.
pub open spec fn sidecar_state(
    it: SingleSidecarDataIterator,
    splitter: SidecarSplitter,
) -> SidecarStateV {
    SidecarStateV {
        yielded: it.yielded() as int,
        pending: splitter.pending(),
        buffered: splitter.buffered(),
        met_end: splitter.met_end(),
    }
}

/// The next batch of a sidecar with the given soft cap: none where the cap is reached, and else what
/// one step of the splitter gives.
pub open spec fn next_call(names: Seq<Seq<char>>, hint: int, s: SidecarStateV) -> CallV {
    if s.yielded >= hint {
        CallV { result: None, after: s }
    } else {
        let t = step(names, s.pending, s.buffered);
        CallV {
            result: t.result,
            after: SidecarStateV {
                yielded: s.yielded + (match t.result {
                    Some(Ok(rows)) => rows.len() as int,
                    _ => 0,
                }),
                pending: t.pending,
                buffered: t.buffered,
                met_end: s.met_end || t.result is None,
            },
        }
    }
}

/// The state after a number of calls.
pub open spec fn after_calls(names: Seq<Seq<char>>, hint: int, s: SidecarStateV, n: nat) -> SidecarStateV
    decreases n,
{
    if n == 0 {
        s
    } else {
        next_call(names, hint, after_calls(names, hint, s, (n - 1) as nat)).after
    }
}

/// What one of several calls gives.
pub open spec fn call_result(names: Seq<Seq<char>>, hint: int, s: SidecarStateV, i: nat) -> Option<
    Result<Seq<Seq<Cell>>, ErrorV>,
> {
    next_call(names, hint, after_calls(names, hint, s, i)).result
}

/// Whether the first calls all give batches.
pub open spec fn calls_give_batches(
    names: Seq<Seq<char>>,
    hint: int,
    s: SidecarStateV,
    n: nat,
) -> bool {
    forall|i: nat| i < n ==> #[trigger] call_result(names, hint, s, i) matches Some(Ok(_))
}

/// The batches that the first calls give.
pub open spec fn batches_of_calls(
    names: Seq<Seq<char>>,
    hint: int,
    s: SidecarStateV,
    n: nat,
) -> Seq<Seq<Seq<Cell>>> {
    Seq::new(n, |i: int| call_result(names, hint, s, i as nat)->0->Ok_0)
}

proof fn lemma_calls(names: Seq<Seq<char>>, hint: int, s: SidecarStateV, n: nat)
    requires
        calls_give_batches(names, hint, s, n),
    ensures
        ({
            let rows = all_rows(batches_of_calls(names, hint, s, n));
            let after = after_calls(names, hint, s, n);
            &&& after.yielded == s.yielded + rows.len()
            &&& rows + pending_file_rows(names, after.pending) == pending_file_rows(
                names,
                s.pending,
            )
        }),
    decreases n,
{
    let batches = batches_of_calls(names, hint, s, n);
    if n == 0 {
        assert(all_rows(batches) + pending_file_rows(names, s.pending) =~= pending_file_rows(
            names,
            s.pending,
        ));
    } else {
        let m = (n - 1) as nat;
        assert(calls_give_batches(names, hint, s, m));
        lemma_calls(names, hint, s, m);
        let before = after_calls(names, hint, s, m);
        let front = batches_of_calls(names, hint, s, m);
        assert(batches.drop_last() =~= front);
        assert(call_result(names, hint, s, m) matches Some(Ok(_)));
        law_file_actions_in_order(names, before.pending, before.buffered);
        let after = after_calls(names, hint, s, n);
        assert(all_rows(batches) + pending_file_rows(names, after.pending) =~= all_rows(front) + (
        batches.last() + pending_file_rows(names, after.pending)));
    }
}

/// The batches of one sidecar, from the first call to the one that gives none: without the last of
/// them, their rows stay below the soft cap; all their rows reach the cap, or the checkpoint data is
/// exhausted; and where they reach it, the call that gives none takes nothing, so that the next
/// sidecar gets the rest. The rows are the file actions that were to come, in order, up to the
/// rest.
pub proof fn law_one_sidecar(names: Seq<Seq<char>>, hint: int, start: SidecarStateV, n: nat)
    requires
        start.yielded == 0,
        calls_give_batches(names, hint, start, n),
        call_result(names, hint, start, n) is None,
    ensures
        ({
            let batches = batches_of_calls(names, hint, start, n);
            let before = after_calls(names, hint, start, n);
            let after = after_calls(names, hint, start, n + 1);
            &&& n > 0 ==> all_rows(batches.drop_last()).len() < hint
            &&& all_rows(batches).len() >= hint || after.met_end
            &&& all_rows(batches).len() >= hint ==> after == before
            &&& all_rows(batches) + pending_file_rows(names, after.pending) == pending_file_rows(
                names,
                start.pending,
            )
        }),
{
    lemma_calls(names, hint, start, n);
    let before = after_calls(names, hint, start, n);
    assert(after_calls(names, hint, start, n + 1) == next_call(names, hint, before).after);
    if before.yielded < hint {
        law_file_actions_in_order(names, before.pending, before.buffered);
        let t = step(names, before.pending, before.buffered);
        assert(pending_file_rows(names, before.pending) =~= pending_file_rows(names, t.pending));
    }
    if n > 0 {
        let m = (n - 1) as nat;
        assert(calls_give_batches(names, hint, start, m));
        lemma_calls(names, hint, start, m);
        assert(batches_of_calls(names, hint, start, n).drop_last() =~= batches_of_calls(
            names,
            hint,
            start,
            m,
        ));
        assert(call_result(names, hint, start, m) matches Some(Ok(_)));
    }
}

/// Yields file-action batches for one sidecar file.
pub struct SingleSidecarDataIterator {
    /// Soft cap on the number of file-action rows per sidecar. The actual count may exceed this,
    /// since batches are taken whole.
    max_file_actions_hint: usize,
    yielded_row_count: usize,
}

impl SingleSidecarDataIterator {
    /// The soft cap on the number of rows.
    pub closed spec fn hint(&self) -> usize {
        self.max_file_actions_hint
    }

    /// The number of rows so far.
    pub closed spec fn yielded(&self) -> usize {
        self.yielded_row_count
    }

    /// An iterator with the given soft cap, which must be greater than 0.
    pub fn new(max_file_actions_hint: usize) -> (r: DeltaResult<Self>)
        ensures
            match r {
                Ok(it) => max_file_actions_hint > 0 && it.hint() == max_file_actions_hint
                    && it.yielded() == 0,
                Err(e) => max_file_actions_hint == 0 && e@ == ErrorV::CheckpointWrite(
                    "max_file_actions_hint must be greater than 0"@,
                ),
            },
    {
        if max_file_actions_hint == 0 {
            return Err(
                Error::CheckpointWrite(owned("max_file_actions_hint must be greater than 0")),
            );
        }
        Ok(SingleSidecarDataIterator { max_file_actions_hint, yielded_row_count: 0 })
    }

    /// Whether the row count has reached the soft cap.
    pub fn is_full(&self) -> (r: bool)
        ensures
            r == (self.yielded() >= self.hint()),
    {
        self.yielded_row_count >= self.max_file_actions_hint
    }

    /// Yields the next file-action batch for the current sidecar from the given splitter.
    ///
    /// Returns `None` when either
    /// - the row count reaches the soft cap, and then leaves the splitter as it is, or
    /// - the splitter is exhausted.
    pub fn next(&mut self, splitter: &mut SidecarSplitter) -> (r: Option<DeltaResult<ActionBatch>>)
        requires
            old(self).yielded() + pending_file_rows(
                old(splitter).names(),
                old(splitter).pending(),
            ).len() <= usize::MAX,
        ensures
            final(self).hint() == old(self).hint(),
            final(splitter).names() == old(splitter).names(),
            final(splitter).null_types() == old(splitter).null_types(),
            old(self).yielded() >= old(self).hint() ==> *final(self) == *old(self)
                && *final(splitter) == *old(splitter),
            ({
                let c = next_call(
                    old(splitter).names(),
                    old(self).hint() as int,
                    sidecar_state(*old(self), *old(splitter)),
                );
                &&& sidecar_state(*final(self), *final(splitter)) == c.after
                &&& match r {
                    None => c.result is None,
                    Some(Ok(batch)) => c.result == Some(Ok::<Seq<Seq<Cell>>, ErrorV>(batch@)),
                    Some(Err(e)) => c.result == Some(Err::<Seq<Seq<Cell>>, ErrorV>(e@)),
                }
            }),
    {
        if self.is_full() {
            return None;
        }
        proof {
            law_file_actions_in_order(splitter.names(), splitter.pending(), splitter.buffered());
        }
        match splitter.next_file_actions_batch() {
            Some(Ok(file_batch)) => {
                self.yielded_row_count = self.yielded_row_count + file_batch.len();
                Some(Ok(file_batch))
            },
            Some(Err(e)) => Some(Err(e)),
            None => None,
        }
    }
}

/// The file actions of all the batches, one after the other.
pub open spec fn pending_file_rows(
    names: Seq<Seq<char>>,
    pending: Seq<Result<Seq<Seq<Cell>>, ErrorV>>,
) -> Seq<Seq<Cell>>
    decreases pending.len(),
{
    if pending.len() == 0 {
        seq![]
    } else {
        (match pending[0] {
            Ok(rows) => file_rows(names, rows),
            Err(_) => seq![],
        }) + pending_file_rows(names, pending.remove(0))
    }
}

/// The other actions of all the batches, one after the other.
pub open spec fn pending_other_rows(
    names: Seq<Seq<char>>,
    pending: Seq<Result<Seq<Seq<Cell>>, ErrorV>>,
) -> Seq<Seq<Cell>>
    decreases pending.len(),
{
    if pending.len() == 0 {
        seq![]
    } else {
        (match pending[0] {
            Ok(rows) => other_rows(names, rows),
            Err(_) => seq![],
        }) + pending_other_rows(names, pending.remove(0))
    }
}

/// The rows of batches, one after the other.
pub open spec fn all_rows(batches: Seq<Seq<Seq<Cell>>>) -> Seq<Seq<Cell>>
    decreases batches.len(),
{
    if batches.len() == 0 {
        seq![]
    } else {
        all_rows(batches.drop_last()) + batches.last()
    }
}

/// A step neither loses nor repeats nor reorders a file action: what it returns comes first among
/// the file actions that were to come, and what it leaves to come is the rest. A step that returns
/// no batch has met none.
pub proof fn law_file_actions_in_order(
    names: Seq<Seq<char>>,
    pending: Seq<Result<Seq<Seq<Cell>>, ErrorV>>,
    buffered: Seq<Seq<Seq<Cell>>>,
)
    ensures
        ({
            let s = step(names, pending, buffered);
            pending_file_rows(names, pending) == (match s.result {
                Some(Ok(rows)) => rows,
                _ => seq![],
            }) + pending_file_rows(names, s.pending)
        }),
    decreases pending.len(),
{
    let s = step(names, pending, buffered);
    if pending.len() > 0 {
        match pending[0] {
            Err(_) => {},
            Ok(rows) => {
                if file_rows(names, rows).len() == 0 {
                    let kept = if other_rows(names, rows).len() > 0 {
                        buffered.push(other_rows(names, rows))
                    } else {
                        buffered
                    };
                    law_file_actions_in_order(names, pending.remove(0), kept);
                    assert(pending_file_rows(names, pending) =~= pending_file_rows(
                        names,
                        pending.remove(0),
                    ));
                }
            },
        }
    }
    assert(pending_file_rows(names, pending) =~= (match s.result {
        Some(Ok(rows)) => rows,
        _ => seq![],
    }) + pending_file_rows(names, s.pending));
}

/// A step neither loses nor repeats nor reorders another action: what is buffered, followed by what
/// is still to come, stays the same.
pub proof fn law_other_actions_in_order(
    names: Seq<Seq<char>>,
    pending: Seq<Result<Seq<Seq<Cell>>, ErrorV>>,
    buffered: Seq<Seq<Seq<Cell>>>,
)
    ensures
        ({
            let s = step(names, pending, buffered);
            all_rows(s.buffered) + pending_other_rows(names, s.pending) == all_rows(buffered)
                + pending_other_rows(names, pending)
        }),
    decreases pending.len(),
{
    let s = step(names, pending, buffered);
    if pending.len() > 0 {
        let rest = pending.remove(0);
        match pending[0] {
            Err(_) => {
                assert(pending_other_rows(names, pending) =~= pending_other_rows(names, rest));
            },
            Ok(rows) => {
                let others = other_rows(names, rows);
                let kept = if others.len() > 0 {
                    buffered.push(others)
                } else {
                    buffered
                };
                assert(all_rows(kept) =~= all_rows(buffered) + others) by {
                    if others.len() > 0 {
                        assert(kept.drop_last() =~= buffered);
                    }
                }
                assert(all_rows(kept) + pending_other_rows(names, rest) =~= all_rows(buffered)
                    + pending_other_rows(names, pending));
                if file_rows(names, rows).len() == 0 {
                    law_other_actions_in_order(names, rest, kept);
                }
            },
        }
    }
}

/// Each action of a row goes to exactly one side: an `add` or a `remove` to the file actions, and
/// any other to the other actions, in its own column.
pub proof fn law_each_action_on_one_side(names: Seq<Seq<char>>, row: Seq<Cell>, i: int)
    requires
        distinct_names(names),
        row.len() == names.len(),
        0 <= i < names.len(),
        row[i] is Some,
    ensures
        is_file_column(names[i]) ==> has_file_action(names, row) && file_row(names, row).contains(
            row[i],
        ) && other_row(names, row)[i] is None,
        !is_file_column(names[i]) ==> has_other_action(names, row) && other_row(names, row)[i]
            == row[i],
{
    lemma_name_position(names, names[i]);
    if is_file_column(names[i]) {
        if names[i] == ADD_NAME@ {
            assert(file_row(names, row)[0] == row[i]);
        } else {
            assert(file_row(names, row)[1] == row[i]);
        }
    } else {
        assert(other_action_at(names, row, i));
    }
}

/// The file actions of a row are its `add` and then its `remove`; the other actions are the row with
/// nulls in the place of these two.
pub proof fn law_parts_of_a_row(names: Seq<Seq<char>>, row: Seq<Cell>, a: int, r: int)
    requires
        distinct_names(names),
        row.len() == names.len(),
        0 <= a < names.len(),
        0 <= r < names.len(),
        names[a] == "add"@,
        names[r] == "remove"@,
    ensures
        file_row(names, row) == seq![row[a], row[r]],
        has_file_action(names, row) <==> row[a] is Some || row[r] is Some,
        other_row(names, row) == row.update(a, None).update(r, None),
        has_other_action(names, row) <==> exists|i: int|
            0 <= i < row.len() && i != a && i != r && #[trigger] row[i] is Some,
{
    lemma_name_position(names, "add"@);
    lemma_name_position(names, "remove"@);
    assert forall|i: int| 0 <= i < row.len() implies is_file_column(names[i]) == (i == a || i
        == r) by {
        assert(names[i] == names[i]);
    }
    assert(other_row(names, row) =~= row.update(a, None).update(r, None));
    if has_other_action(names, row) {
        let i = choose|i: int| #[trigger] other_action_at(names, row, i);
        assert(row[i] is Some);
    }
    if exists|i: int| 0 <= i < row.len() && i != a && i != r && #[trigger] row[i] is Some {
        let i = choose|i: int| 0 <= i < row.len() && i != a && i != r && #[trigger] row[i] is Some;
        assert(other_action_at(names, row, i));
    }
}

/// Rows are split one by one and in order: a row gives its file actions where it has one, and its
/// other actions where it has one.
pub proof fn law_rows_are_split_one_by_one(
    names: Seq<Seq<char>>,
    x: Seq<Seq<Cell>>,
    y: Seq<Seq<Cell>>,
    row: Seq<Cell>,
)
    ensures
        file_rows(names, x + y) == file_rows(names, x) + file_rows(names, y),
        other_rows(names, x + y) == other_rows(names, x) + other_rows(names, y),
        file_rows(names, seq![row]) == (if has_file_action(names, row) {
            seq![file_row(names, row)]
        } else {
            seq![]
        }),
        other_rows(names, seq![row]) == (if has_other_action(names, row) {
            seq![other_row(names, row)]
        } else {
            seq![]
        }),
    decreases y.len(),
{
    assert(seq![row].drop_last() =~= seq![]);
    assert(seq![row].last() == row);
    assert(file_rows(names, seq![row].drop_last()) =~= seq![]);
    assert(other_rows(names, seq![row].drop_last()) =~= seq![]);
    assert(file_rows(names, seq![row]) =~= (if has_file_action(names, row) {
        seq![file_row(names, row)]
    } else {
        seq![]
    }));
    assert(other_rows(names, seq![row]) =~= (if has_other_action(names, row) {
        seq![other_row(names, row)]
    } else {
        seq![]
    }));
    if y.len() == 0 {
        assert(x + y =~= x);
        assert(file_rows(names, x) + file_rows(names, y) =~= file_rows(names, x));
        assert(other_rows(names, x) + other_rows(names, y) =~= other_rows(names, x));
    } else {
        assert((x + y).drop_last() =~= x + y.drop_last());
        assert((x + y).last() == y.last());
        law_rows_are_split_one_by_one(names, x, y.drop_last(), row);
        assert(file_rows(names, x + y) =~= file_rows(names, x) + file_rows(names, y));
        assert(other_rows(names, x + y) =~= other_rows(names, x) + other_rows(names, y));
    }
}

/// A selection vector selects row by row: a row whose flag is set, or that has none, is selected.
pub proof fn law_selection_goes_row_by_row(
    rows: Seq<Seq<Cell>>,
    row: Seq<Cell>,
    selection: Seq<bool>,
)
    ensures
        selected(Seq::empty(), selection) == Seq::<Seq<Cell>>::empty(),
        rows.len() >= selection.len() || selection[rows.len() as int] ==> selected(
            rows + seq![row],
            selection,
        ) == selected(rows, selection) + seq![row],
        rows.len() < selection.len() && !selection[rows.len() as int] ==> selected(
            rows + seq![row],
            selection,
        ) == selected(rows, selection),
{
    assert((rows + seq![row]).drop_last() =~= rows);
    assert((rows + seq![row]).last() == row);
    if rows.len() >= selection.len() || selection[rows.len() as int] {
        assert(selected(rows + seq![row], selection) =~= selected(rows, selection) + seq![row]);
    }
}

/// What a step does: an error that comes next is returned and taken away; a batch with file actions
/// gives them; and a batch without one is passed over, as if it had not come, but for its other
/// actions. At the end there is nothing to return.
pub proof fn law_steps_of_a_splitter(
    names: Seq<Seq<char>>,
    rest: Seq<Result<Seq<Seq<Cell>>, ErrorV>>,
    buffered: Seq<Seq<Seq<Cell>>>,
    rows: Seq<Seq<Cell>>,
    e: ErrorV,
)
    ensures
        step(names, Seq::empty(), buffered) == (Step {
            result: None,
            pending: Seq::empty(),
            buffered,
        }),
        step(names, seq![Err(e)] + rest, buffered) == (Step {
            result: Some(Err(e)),
            pending: rest,
            buffered,
        }),
        ({
            let kept = if other_rows(names, rows).len() > 0 {
                buffered + seq![other_rows(names, rows)]
            } else {
                buffered
            };
            if file_rows(names, rows).len() > 0 {
                step(names, seq![Ok(rows)] + rest, buffered) == (Step {
                    result: Some(Ok(file_rows(names, rows))),
                    pending: rest,
                    buffered: kept,
                })
            } else {
                step(names, seq![Ok(rows)] + rest, buffered) == step(names, rest, kept)
            }
        }),
{
    let with_error = seq![Err::<Seq<Seq<Cell>>, ErrorV>(e)] + rest;
    let with_rows = seq![Ok::<Seq<Seq<Cell>>, ErrorV>(rows)] + rest;
    assert(with_error.remove(0) =~= rest);
    assert(with_rows.remove(0) =~= rest);
    assert(with_error[0] == Err::<Seq<Seq<Cell>>, ErrorV>(e));
    assert(with_rows[0] == Ok::<Seq<Seq<Cell>>, ErrorV>(rows));
    assert(buffered.push(other_rows(names, rows)) =~= buffered + seq![other_rows(names, rows)]);
}

/// What keeps checkpoint data from being split: one of the two columns of file actions is missing, or
/// cannot be null.
pub proof fn law_what_can_be_split(schema: StructV)
    ensures
        split_error(schema) is None ==> {
            &&& field_named(schema, "add"@) is Some
            &&& field_named(schema, "add"@)->0.nullable
            &&& field_named(schema, "remove"@) is Some
            &&& field_named(schema, "remove"@)->0.nullable
        },
        field_named(schema, "add"@) is Some && field_named(schema, "remove"@) is Some
            && field_named(schema, "add"@)->0.nullable && field_named(schema, "remove"@)->0.nullable
            && checked_struct(
            seq![field_named(schema, "add"@)->0, field_named(schema, "remove"@)->0],
        ) is Ok ==> split_error(schema) is None,
{
}

/// One call for a batch of a sidecar: nothing comes once the hint is reached, and nothing changes; before
/// that the next batch of file actions comes, its rows are counted, and the end is noted.
pub proof fn law_calls_for_batches(names: Seq<Seq<char>>, hint: int, s: SidecarStateV)
    ensures
        s.yielded >= hint ==> next_call(names, hint, s).result is None && next_call(
            names,
            hint,
            s,
        ).after == s,
        s.yielded < hint ==> {
            let t = step(names, s.pending, s.buffered);
            let c = next_call(names, hint, s);
            &&& c.result == t.result
            &&& c.after.pending == t.pending
            &&& c.after.buffered == t.buffered
            &&& c.after.met_end <==> s.met_end || t.result is None
            &&& t.result matches Some(Ok(rows)) ==> c.after.yielded == s.yielded + rows.len()
            &&& !(t.result is Some && t.result->0 is Ok) ==> c.after.yielded == s.yielded
        },
{
}

} // verus!
