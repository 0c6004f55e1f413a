//! What is decided when Parquet files are written and their footers are read.
use vstd::prelude::*;

use crate::arrow::{ArrowSchema, TryFromArrow};
use crate::error::{DeltaResult, Error};
use crate::schema::types::StructType;
use crate::text::owned;

#[allow(unused_imports)]
use crate::arrow::{all_maps_well_formed, schema_from_arrow};
#[allow(unused_imports)]
use crate::error::{ArrowErrorV, ErrorV};
#[allow(unused_imports)]
use crate::schema::types::StructV;

verus! {

/// What is done next when a Parquet file is written.
pub enum WriteAction<B> {
    /// Make a writer with the schema of this batch, and write the batch
    Open(B),
    /// Write this batch too
    Append(B),
    /// Close the writer, which writes the footer
    Close,
    /// Give up
    Fail(Error),
}

/// The model of [`WriteAction`].
pub enum WriteV<B> {
    Open(B),
    Append(B),
    Close,
    Fail(ErrorV),
}

impl<B> WriteAction<B> {
    /// The model of the action.
    pub open spec fn view(&self) -> WriteV<B> {
        match self {
            WriteAction::Open(batch) => WriteV::Open(*batch),
            WriteAction::Append(batch) => WriteV::Append(*batch),
            WriteAction::Close => WriteV::Close,
            WriteAction::Fail(e) => WriteV::Fail(e@),
        }
    }
}

/// The next item of the data as a model: a batch, an error, or the end.
pub open spec fn next_item<B>(item: Option<DeltaResult<B>>) -> Option<Result<B, ErrorV>> {
    match item {
        Some(Ok(batch)) => Some(Ok(batch)),
        Some(Err(e)) => Some(Err(e@)),
        None => None,
    }
}

/// The error for data without a batch.
pub open spec fn no_data_error() -> ErrorV {
    ErrorV::Generic("Cannot write parquet file with empty data iterator"@)
}

/// What is done with the next item of the data.
pub open spec fn write_action<B>(is_open: bool, item: Option<Result<B, ErrorV>>) -> WriteV<B> {
    match item {
        Some(Ok(batch)) => if is_open {
            WriteV::Append(batch)
        } else {
            WriteV::Open(batch)
        },
        Some(Err(e)) => WriteV::Fail(e),
        None => if is_open {
            WriteV::Close
        } else {
            WriteV::Fail(no_data_error())
        },
    }
}

/// All that is done to write the items of the data from a position on, and then the end: one action
/// after the other, until the writer is closed or something fails.
pub open spec fn write_run<B>(items: Seq<Result<B, ErrorV>>, from: int, is_open: bool) -> Seq<
    WriteV<B>,
>
    decreases items.len() - from,
{
    if from < 0 || from >= items.len() {
        seq![write_action(is_open, None)]
    } else {
        let action = write_action(is_open, Some(items[from]));
        if action is Fail {
            seq![action]
        } else {
            seq![action] + write_run(items, from + 1, true)
        }
    }
}

/// Batches as items without an error among them.
pub open spec fn batch_items<B>(batches: Seq<B>) -> Seq<Result<B, ErrorV>> {
    Seq::new(batches.len(), |i: int| Ok(batches[i]))
}

/// The batches are written once each and in order: the first opens the file, the others are
/// appended, and the end closes it. Without a batch the only thing that happens is the failure.
pub proof fn law_run_writes_all_in_order<B>(batches: Seq<B>)
    ensures
        batches.len() == 0 ==> write_run(batch_items(batches), 0, false) == seq![
            WriteV::<B>::Fail(no_data_error()),
        ],
        batches.len() > 0 ==> write_run(batch_items(batches), 0, false) == seq![
            WriteV::Open(batches[0]),
        ] + Seq::new((batches.len() - 1) as nat, |i: int| WriteV::Append(batches[i + 1])) + seq![
            WriteV::<B>::Close,
        ],
{
    if batches.len() > 0 {
        lemma_run_appends(batches, 1);
        let rest = Seq::new((batches.len() - 1) as nat, |i: int| WriteV::Append(batches[i + 1]));
        assert(write_run(batch_items(batches), 0, false) =~= seq![WriteV::Open(batches[0])] + rest
            + seq![WriteV::<B>::Close]);
    }
}

proof fn lemma_run_appends<B>(batches: Seq<B>, from: int)
    requires
        0 <= from <= batches.len(),
    ensures
        write_run(batch_items(batches), from, true) == Seq::new(
            (batches.len() - from) as nat,
            |i: int| WriteV::Append(batches[i + from]),
        ) + seq![WriteV::<B>::Close],
    decreases batches.len() - from,
{
    if from < batches.len() {
        lemma_run_appends(batches, from + 1);
    }
    assert(write_run(batch_items(batches), from, true) =~= Seq::new(
        (batches.len() - from) as nat,
        |i: int| WriteV::Append(batches[i + from]),
    ) + seq![WriteV::<B>::Close]);
}

/// A run over data with an error ends with the first error, and writes the batches before it alone,
/// in order; it closes nothing.
pub proof fn law_run_ends_at_first_error<B>(items: Seq<Result<B, ErrorV>>, k: int)
    requires
        0 <= k < items.len(),
        items[k] is Err,
        forall|i: int| 0 <= i < k ==> (#[trigger] items[i]) is Ok,
    ensures
        write_run(items, 0, false) == Seq::new(
            k as nat,
            |i: int| write_action(i > 0, Some(items[i])),
        ) + seq![WriteV::<B>::Fail(items[k]->Err_0)],
{
    lemma_run_fails(items, 0, k);
    assert(Seq::new(k as nat, |i: int| write_action(i > 0, Some(items[i]))) =~= Seq::new(
        k as nat,
        |i: int| write_action(0 + i > 0, Some(items[0 + i])),
    ));
}

proof fn lemma_run_fails<B>(items: Seq<Result<B, ErrorV>>, from: int, k: int)
    requires
        0 <= from <= k < items.len(),
        items[k] is Err,
        forall|i: int| 0 <= i < k ==> (#[trigger] items[i]) is Ok,
    ensures
        write_run(items, from, from > 0) == Seq::new(
            (k - from) as nat,
            |i: int| write_action(from + i > 0, Some(items[from + i])),
        ) + seq![WriteV::<B>::Fail(items[k]->Err_0)],
    decreases k - from,
{
    if from < k {
        assert(items[from] is Ok);
        lemma_run_fails(items, from + 1, k);
    }
    assert(write_run(items, from, from > 0) =~= Seq::new(
        (k - from) as nat,
        |i: int| write_action(from + i > 0, Some(items[from + i])),
    ) + seq![WriteV::<B>::Fail(items[k]->Err_0)]);
}

/// What is done with the next item of the data. A file needs at least one batch, since the first
/// one gives the schema.
pub fn next_write_action<B>(is_open: bool, item: Option<DeltaResult<B>>) -> (r: WriteAction<B>)
    ensures
        r@ == write_action(is_open, next_item(item)),
{
    match item {
        Some(Ok(batch)) => if is_open {
            WriteAction::Append(batch)
        } else {
            WriteAction::Open(batch)
        },
        Some(Err(e)) => WriteAction::Fail(e),
        None => if is_open {
            WriteAction::Close
        } else {
            WriteAction::Fail(
                Error::Generic(owned("Cannot write parquet file with empty data iterator")),
            )
        },
    }
}

/// The error for a location that is no local file.
pub fn invalid_location(location: &str) -> (r: Error)
    ensures
        r@ == ErrorV::Generic("Invalid file URL: "@ + location@),
{
    Error::Generic(crate::text::cat2("Invalid file URL: ", location))
}

/// The schema in the footer of a Parquet file.
pub fn footer_schema(arrow_schema: &ArrowSchema) -> (r: DeltaResult<StructType>)
    requires
        all_maps_well_formed(arrow_schema@),
    ensures
        match r {
            Ok(s) => schema_from_arrow(arrow_schema@) == Ok::<StructV, ArrowErrorV>(s@),
            Err(e) => e@ matches ErrorV::Arrow(a) && schema_from_arrow(arrow_schema@) == Err::<
                StructV,
                ArrowErrorV,
            >(*a),
        },
{
    match StructType::try_from_arrow(arrow_schema) {
        Ok(s) => Ok(s),
        Err(e) => Err(Error::Arrow(Box::new(e))),
    }
}

/// Without a batch no file is written, and the error says so.
pub proof fn law_nothing_is_written_of_nothing<B>()
    ensures
        write_run(Seq::<Result<B, ErrorV>>::empty(), 0, false) == seq![
            WriteV::<B>::Fail(
                ErrorV::Generic("Cannot write parquet file with empty data iterator"@),
            ),
        ],
{
    law_run_writes_all_in_order(Seq::<B>::empty());
    assert(batch_items(Seq::<B>::empty()) =~= Seq::<Result<B, ErrorV>>::empty());
}

} // verus!
