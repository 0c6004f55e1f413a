//! Read and snapshot workloads: what is read, and what is made of the data that comes back.
use vstd::prelude::*;

use crate::error::{DeltaResult, Error};
use crate::expressions::share;
use crate::schema::types::SchemaRef;
use crate::sidecar::{ActionBatch, FilteredBatch};

#[allow(unused_imports)]
use crate::error::ErrorV;
#[allow(unused_imports)]
use crate::expressions::Cell;
#[allow(unused_imports)]
use crate::schema::struct_type::{checked_struct_of_results, projection, str_views};
#[allow(unused_imports)]
use crate::schema::types::StructV;
#[allow(unused_imports)]
use crate::sidecar::{batch_views, selected};

verus! {

/// Result of executing a read workload.
pub struct ReadResult {
    /// The batches from the scan.
    pub batches: Vec<ActionBatch>,
    /// The schema of the data.
    pub schema: SchemaRef,
    /// Total number of rows in the result.
    pub row_count: u64,
}

/// The version to load, from what the time travel of a workload gives: none without time travel,
/// and an error where there is no such version.
pub fn snapshot_version(time_travel: Option<Result<u64, String>>) -> (r: DeltaResult<Option<u64>>)
    ensures
        match (time_travel, r) {
            (None, Ok(v)) => v is None,
            (Some(Ok(a)), Ok(v)) => v == Some(a),
            (Some(Err(text)), Err(e)) => e@ == ErrorV::Generic(text@),
            _ => false,
        },
{
    match time_travel {
        None => Ok(None),
        Some(Ok(v)) => Ok(Some(v)),
        Some(Err(text)) => Err(Error::Generic(text)),
    }
}

/// What an evaluator says of the rows of a batch: a flag for each, or why it cannot tell.
pub type Selection = DeltaResult<Vec<bool>>;

/// Selections as models.
pub open spec fn selection_views(selections: Seq<Selection>) -> Seq<Result<Seq<bool>, ErrorV>> {
    Seq::new(
        selections.len(),
        |i: int|
            match selections[i] {
                Ok(flags) => Ok(flags@),
                Err(e) => Err(e@),
            },
    )
}

/// Whether there is a selection for each batch, with a flag for each row unless it is an error.
pub open spec fn selections_fit(
    batches: Seq<Seq<Seq<Cell>>>,
    selections: Seq<Result<Seq<bool>, ErrorV>>,
) -> bool {
    &&& selections.len() == batches.len()
    &&& forall|i: int|
        0 <= i < batches.len() && (#[trigger] selections[i]) is Ok ==> selections[i]->Ok_0.len()
            == batches[i].len()
}

/// The first error among the first `n` selections.
pub open spec fn first_failure(selections: Seq<Result<Seq<bool>, ErrorV>>, n: int) -> Option<ErrorV>
    decreases n,
{
    if n <= 0 {
        None
    } else {
        match first_failure(selections, n - 1) {
            Some(e) => Some(e),
            None => match selections[n - 1] {
                Ok(_) => None,
                Err(e) => Some(e),
            },
        }
    }
}

/// The rows whose flag is set, in order.
pub open spec fn selected_rows(rows: Seq<Seq<Cell>>, keep: Seq<bool>) -> Seq<Seq<Cell>>
    recommends
        keep.len() == rows.len(),
    decreases rows.len(),
{
    if rows.len() == 0 {
        seq![]
    } else if keep[rows.len() - 1] {
        selected_rows(rows.drop_last(), keep).push(rows.last())
    } else {
        selected_rows(rows.drop_last(), keep)
    }
}

/// What is left of batches when their rows are filtered: each batch stays, with the rows that are
/// selected; or the first error among the selections. Without selections nothing is filtered.
pub open spec fn filtered(
    batches: Seq<Seq<Seq<Cell>>>,
    selections: Option<Seq<Result<Seq<bool>, ErrorV>>>,
) -> Result<Seq<Seq<Seq<Cell>>>, ErrorV> {
    match selections {
        None => Ok(batches),
        Some(list) => match first_failure(list, list.len() as int) {
            Some(e) => Err(e),
            None => Ok(
                Seq::new(batches.len(), |i: int| selected_rows(batches[i], list[i]->Ok_0)),
            ),
        },
    }
}

/// The selections of batches as models, if there are any.
pub open spec fn selections_view(selections: Option<Vec<Selection>>) -> Option<
    Seq<Result<Seq<bool>, ErrorV>>,
> {
    match selections {
        Some(list) => Some(selection_views(list@)),
        None => None,
    }
}

/// Where all rows have a flag, a selection vector selects those whose flag is set.
proof fn lemma_selected(rows: Seq<Seq<Cell>>, keep: Seq<bool>)
    requires
        rows.len() <= keep.len(),
    ensures
        selected(rows, keep) == selected_rows(rows, keep),
    decreases rows.len(),
{
    if rows.len() > 0 {
        lemma_selected(rows.drop_last(), keep);
    }
}

proof fn lemma_first_failure_stays(selections: Seq<Result<Seq<bool>, ErrorV>>, m: int, n: int)
    requires
        m <= n,
        first_failure(selections, m) is Some,
    ensures
        first_failure(selections, n) == first_failure(selections, m),
    decreases n,
{
    if m < n && n > 0 {
        lemma_first_failure_stays(selections, m, n - 1);
    }
}

/// Filters batches with what the evaluation of a predicate on each of them gave. Without a predicate
/// they stay as they are. Returns the first error of the evaluation.
pub fn filter_batches_with_predicate(
    batches: Vec<ActionBatch>,
    selections: Option<Vec<Selection>>,
) -> (r: DeltaResult<Vec<ActionBatch>>)
    requires
        selections is Some ==> selections_fit(
            batch_views(batches@),
            selection_views(selections->0@),
        ),
    ensures
        match r {
            Ok(out) => filtered(batch_views(batches@), selections_view(selections)) == Ok::<
                Seq<Seq<Seq<Cell>>>,
                ErrorV,
            >(batch_views(out@)),
            Err(e) => filtered(batch_views(batches@), selections_view(selections)) == Err::<
                Seq<Seq<Seq<Cell>>>,
                ErrorV,
            >(e@),
        },
{
    let list = match selections {
        None => {
            return Ok(batches);
        },
        Some(list) => list,
    };
    let ghost all = batch_views(batches@);
    let ghost flags = selection_views(list@);
    let ghost expected = filtered(all, Some(flags));
    let ghost given = batches@;
    let mut rest = batches;
    let mut out: Vec<ActionBatch> = Vec::new();
    let n: usize = list.len();
    let mut i: usize = 0;
    for selection in iter: list
        invariant
            i == iter.index(),
            iter.seq() == list@,
            i <= n == list@.len(),
            all == batch_views(given),
            flags == selection_views(list@),
            selections_fit(all, flags),
            expected == filtered(all, Some(flags)),
            expected == filtered(batch_views(batches@), selections_view(selections)),
            rest@ == given.skip(i as int),
            first_failure(flags, i as int) is None,
            out@.len() == i,
            forall|k: int|
                0 <= k < i ==> (#[trigger] out@[k])@ == selected_rows(all[k], flags[k]->Ok_0),
    {
        assert(i < list@.len());
        let batch = rest.remove(0);
        assert(batch == given[i as int]);
        assert(rest@ =~= given.skip(i + 1));
        match selection {
            Ok(keep) => {
                assert(flags[i as int] == Ok::<Seq<bool>, ErrorV>(keep@));
                proof {
                    lemma_selected(batch@, keep@);
                }
                let kept = FilteredBatch { data: batch, selection_vector: keep };
                out.push(kept.apply_selection_vector());
            },
            Err(e) => {
                assert(flags[i as int] == Err::<Seq<bool>, ErrorV>(e@));
                proof {
                    lemma_first_failure_stays(flags, i + 1, n as int);
                }
                return Err(e);
            },
        }
        i = i + 1;
    }
    assert(batch_views(out@) =~= Seq::new(
        all.len(),
        |k: int| selected_rows(all[k], flags[k]->Ok_0),
    ));
    Ok(out)
}

/// The number of rows of batches.
pub open spec fn count_rows(batches: Seq<Seq<Seq<Cell>>>) -> nat
    decreases batches.len(),
{
    if batches.len() == 0 {
        0
    } else {
        count_rows(batches.drop_last()) + batches.last().len()
    }
}

/// Fewer batches have no more rows.
proof fn lemma_count_rows(batches: Seq<Seq<Seq<Cell>>>, n: int)
    requires
        0 <= n <= batches.len(),
    ensures
        count_rows(batches.take(n)) <= count_rows(batches),
    decreases batches.len(),
{
    if n == batches.len() {
        assert(batches.take(n) =~= batches);
    } else {
        lemma_count_rows(batches.drop_last(), n);
        assert(batches.drop_last().take(n) =~= batches.take(n));
    }
}

/// The schema of the data that a read workload asks for: that of the table, or the given columns of
/// it.
pub fn read_schema(table_schema: &SchemaRef, columns: Option<&[&str]>) -> (r: DeltaResult<
    SchemaRef,
>)
    ensures
        match columns {
            None => r matches Ok(s) && s == *table_schema,
            Some(names) => match r {
                Ok(s) => checked_struct_of_results(projection(table_schema@, str_views(names@)))
                    == Ok::<StructV, ErrorV>(s@),
                Err(e) => checked_struct_of_results(projection(table_schema@, str_views(names@)))
                    == Err::<StructV, ErrorV>(e@),
            },
        },
{
    match columns {
        None => Ok(share(table_schema)),
        Some(names) => table_schema.project(names),
    }
}

/// The result of a read workload: the batches of the scan with the rows that the evaluation of the
/// predicate selected, and the number of rows that are left.
pub fn read_result(
    batches: Vec<ActionBatch>,
    selections: Option<Vec<Selection>>,
    schema: SchemaRef,
) -> (r: DeltaResult<ReadResult>)
    requires
        selections is Some ==> selections_fit(
            batch_views(batches@),
            selection_views(selections->0@),
        ),
        count_rows(batch_views(batches@)) <= u64::MAX,
    ensures
        match r {
            Ok(result) => {
                &&& filtered(batch_views(batches@), selections_view(selections)) == Ok::<
                    Seq<Seq<Seq<Cell>>>,
                    ErrorV,
                >(batch_views(result.batches@))
                &&& result.schema == schema
                &&& result.row_count == count_rows(batch_views(result.batches@))
            },
            Err(e) => filtered(batch_views(batches@), selections_view(selections)) == Err::<
                Seq<Seq<Seq<Cell>>>,
                ErrorV,
            >(e@),
        },
{
    let ghost before = batch_views(batches@);
    let ghost flags = selections_view(selections);
    let batches = match filter_batches_with_predicate(batches, selections) {
        Ok(kept) => kept,
        Err(e) => {
            return Err(e);
        },
    };
    let ghost all = batch_views(batches@);
    proof {
        if flags is Some {
            lemma_filtered_count(before, flags->0);
        }
    }
    let mut row_count: u64 = 0;
    let mut i: usize = 0;
    while i < batches.len()
        invariant
            i <= batches@.len(),
            all == batch_views(batches@),
            count_rows(all) <= u64::MAX,
            row_count == count_rows(all.take(i as int)),
        decreases batches.len() - i,
    {
        proof {
            assert(all.take(i + 1).drop_last() =~= all.take(i as int));
            assert(all.take(i + 1).last() == batches@[i as int]@);
            lemma_count_rows(all, i + 1);
        }
        row_count = row_count + batches[i].len() as u64;
        i = i + 1;
    }
    assert(all.take(i as int) =~= all);
    Ok(ReadResult { batches, schema, row_count })
}

/// Filtering adds no rows.
proof fn lemma_filtered_count(
    batches: Seq<Seq<Seq<Cell>>>,
    selections: Seq<Result<Seq<bool>, ErrorV>>,
)
    ensures
        count_rows(
            Seq::new(batches.len(), |i: int| selected_rows(batches[i], selections[i]->Ok_0)),
        ) <= count_rows(batches),
    decreases batches.len(),
{
    let kept = Seq::new(batches.len(), |i: int| selected_rows(batches[i], selections[i]->Ok_0));
    if batches.len() > 0 {
        let front = batches.drop_last();
        lemma_filtered_count(front, selections);
        assert(kept.drop_last() =~= Seq::new(
            front.len(),
            |i: int| selected_rows(front[i], selections[i]->Ok_0),
        ));
        lemma_selected_count(batches.last(), selections[batches.len() - 1]->Ok_0);
    }
}

proof fn lemma_selected_count(rows: Seq<Seq<Cell>>, keep: Seq<bool>)
    ensures
        selected_rows(rows, keep).len() <= rows.len(),
    decreases rows.len(),
{
    if rows.len() > 0 {
        lemma_selected_count(rows.drop_last(), keep);
    }
}

/// The kinds of workloads.
#[derive(Clone, Copy, Debug, PartialEq, Eq, Structural)]
pub enum WorkloadKind {
    Read,
    SnapshotConstruction,
}

/// The expectation against which the result of a workload is held. Each workload must have one.
pub fn expectation<T>(kind: WorkloadKind, expected: Option<T>) -> (r: Result<T, &'static str>)
    ensures
        match expected {
            Some(e) => r == Ok::<T, &'static str>(e),
            None => r matches Err(text) && text@ == (match kind {
                WorkloadKind::Read => "ReadSpec must have expected or error field"@,
                WorkloadKind::SnapshotConstruction =>
                    "SnapshotSpec must have expected or error field"@,
            }),
        },
{
    match expected {
        Some(e) => Ok(e),
        None => match kind {
            WorkloadKind::Read => Err("ReadSpec must have expected or error field"),
            WorkloadKind::SnapshotConstruction => Err(
                "SnapshotSpec must have expected or error field",
            ),
        },
    }
}

/// The selected rows are those whose flag is set, row by row and in order.
pub proof fn law_rows_are_selected_one_by_one(
    rows: Seq<Seq<Cell>>,
    keep: Seq<bool>,
    row: Seq<Cell>,
)
    requires
        keep.len() == rows.len(),
    ensures
        selected_rows(Seq::empty(), Seq::empty()) == Seq::<Seq<Cell>>::empty(),
        selected_rows(rows + seq![row], keep + seq![true]) == selected_rows(rows, keep) + seq![row],
        selected_rows(rows + seq![row], keep + seq![false]) == selected_rows(rows, keep),
{
    assert((rows + seq![row]).drop_last() =~= rows);
    assert((rows + seq![row]).last() == row);
    lemma_flags_of_rows(rows, keep, keep + seq![true]);
    lemma_flags_of_rows(rows, keep, keep + seq![false]);
    assert(selected_rows(rows + seq![row], keep + seq![true]) =~= selected_rows(rows, keep) + seq![
        row,
    ]);
}

proof fn lemma_flags_of_rows(rows: Seq<Seq<Cell>>, keep: Seq<bool>, longer: Seq<bool>)
    requires
        rows.len() <= keep.len(),
        rows.len() <= longer.len(),
        forall|i: int| 0 <= i < rows.len() ==> keep[i] == longer[i],
    ensures
        selected_rows(rows, keep) == selected_rows(rows, longer),
    decreases rows.len(),
{
    if rows.len() > 0 {
        lemma_flags_of_rows(rows.drop_last(), keep, longer);
    }
}

/// Rows are counted batch by batch.
pub proof fn law_rows_are_counted(batches: Seq<Seq<Seq<Cell>>>, batch: Seq<Seq<Cell>>)
    ensures
        count_rows(Seq::empty()) == 0,
        count_rows(batches + seq![batch]) == count_rows(batches) + batch.len(),
{
    assert((batches + seq![batch]).drop_last() =~= batches);
    assert((batches + seq![batch]).last() == batch);
}

/// Filtering fails with the first error among the selections, and only then; without an error each
/// batch stays in its place with its selected rows.
pub proof fn law_first_failure_ends_filtering(
    batches: Seq<Seq<Seq<Cell>>>,
    selections: Seq<Result<Seq<bool>, ErrorV>>,
)
    requires
        selections.len() == batches.len(),
    ensures
        (forall|i: int| 0 <= i < selections.len() ==> (#[trigger] selections[i]) is Ok) ==> {
            let r = filtered(batches, Some(selections));
            &&& r is Ok
            &&& r->Ok_0.len() == batches.len()
            &&& forall|i: int|
                0 <= i < batches.len() ==> #[trigger] r->Ok_0[i] == selected_rows(
                    batches[i],
                    selections[i]->Ok_0,
                )
        },
        forall|k: int|
            #![trigger selections[k]]
            0 <= k < selections.len() && selections[k] is Err && (forall|i: int|
                0 <= i < k ==> (#[trigger] selections[i]) is Ok) ==> filtered(
                batches,
                Some(selections),
            ) == Err::<Seq<Seq<Seq<Cell>>>, ErrorV>(selections[k]->Err_0),
        filtered(batches, None) == Ok::<Seq<Seq<Seq<Cell>>>, ErrorV>(batches),
{
    let n = selections.len() as int;
    if forall|i: int| 0 <= i < selections.len() ==> (#[trigger] selections[i]) is Ok {
        lemma_no_failure(selections, n);
    }
    assert forall|k: int|
        #![trigger selections[k]]
        0 <= k < selections.len() && selections[k] is Err && (forall|i: int|
            0 <= i < k ==> (#[trigger] selections[i]) is Ok) implies filtered(
        batches,
        Some(selections),
    ) == Err::<Seq<Seq<Seq<Cell>>>, ErrorV>(selections[k]->Err_0) by {
        lemma_no_failure(selections, k);
        assert(first_failure(selections, k + 1) == Some(selections[k]->Err_0));
        lemma_first_failure_stays(selections, k + 1, n);
    }
}

proof fn lemma_no_failure(selections: Seq<Result<Seq<bool>, ErrorV>>, n: int)
    requires
        0 <= n <= selections.len(),
        forall|i: int| 0 <= i < n ==> (#[trigger] selections[i]) is Ok,
    ensures
        first_failure(selections, n) is None,
    decreases n,
{
    if n > 0 {
        lemma_no_failure(selections, n - 1);
    }
}

} // verus!
