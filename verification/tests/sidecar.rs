//! Splitting of checkpoint data, and rows that are filtered.
use delta_schema::arrow::{ArrowDataType, ArrowField, ArrowSchema};
use delta_schema::error::{DeltaResult, Error};
use delta_schema::expressions::{Cell, Expression, Predicate, Scalar};
use delta_schema::parquet::{footer_schema, invalid_location, next_write_action, WriteAction};
use delta_schema::schema::types::{DataType, StructField, StructType};
use delta_schema::sidecar::{
    action_pickers, split_parts, ActionBatch, FilteredBatch, SidecarSplitter,
    SingleSidecarDataIterator,
};
use delta_schema::text_map::TextMap;
use delta_schema::workload::{
    expectation, filter_batches_with_predicate, read_result, read_schema, snapshot_version,
    WorkloadKind,
};
use std::sync::Arc;

fn checkpoint_schema() -> StructType {
    StructType::new_unchecked(vec![
        StructField::nullable("add", DataType::string()),
        StructField::nullable("remove", DataType::string()),
        StructField::nullable("protocol", DataType::string()),
        StructField::nullable("metadata", DataType::string()),
        StructField::nullable("txn", DataType::string()),
    ])
}

fn row(cells: [u64; 5]) -> Vec<Cell> {
    cells
        .iter()
        .map(|c| if *c == 0 { None } else { Some(*c) })
        .collect()
}

fn batch(rows: Vec<[u64; 5]>) -> DeltaResult<FilteredBatch> {
    Ok(FilteredBatch {
        data: ActionBatch {
            rows: rows.into_iter().map(row).collect(),
        },
        selection_vector: vec![],
    })
}

#[test]
fn rows_are_split_into_file_actions_and_others() {
    let data = vec![batch(vec![
        [1, 0, 0, 0, 0],
        [0, 0, 2, 0, 0],
        [0, 0, 0, 3, 0],
        [0, 0, 0, 0, 0],
        [0, 4, 0, 0, 5],
    ])];
    let mut splitter = SidecarSplitter::new(data, &checkpoint_schema()).unwrap();
    assert!(!splitter.is_exhausted());
    let files = splitter.next_file_actions_batch().unwrap().unwrap();
    assert_eq!(files.rows, vec![vec![Some(1), None], vec![None, Some(4)]]);
    assert!(!splitter.is_exhausted());
    assert!(splitter.next_file_actions_batch().is_none());
    assert!(splitter.is_exhausted());
    let others = splitter.into_non_file_batches();
    assert_eq!(others.len(), 1);
    assert_eq!(
        others[0].rows,
        vec![
            row([0, 0, 2, 0, 0]),
            row([0, 0, 0, 3, 0]),
            row([0, 0, 0, 0, 5])
        ]
    );
}

#[test]
fn batches_without_file_actions_are_passed_over() {
    let data = vec![
        batch(vec![[0, 0, 2, 0, 0]]),
        batch(vec![]),
        Err(Error::generic("broken")),
        batch(vec![[7, 0, 0, 0, 0]]),
    ];
    let mut splitter = SidecarSplitter::new(data, &checkpoint_schema()).unwrap();
    match splitter.next_file_actions_batch() {
        Some(Err(Error::Generic(text))) => assert_eq!(text, "broken"),
        other => panic!("unexpected {other:?}"),
    }
    let files = splitter.next_file_actions_batch().unwrap().unwrap();
    assert_eq!(files.rows, vec![vec![Some(7), None]]);
    assert!(splitter.next_file_actions_batch().is_none());
    assert_eq!(splitter.into_non_file_batches().len(), 1);
}

#[test]
fn selection_vectors_are_applied() {
    let mut b = batch(vec![[1, 0, 0, 0, 0], [2, 0, 0, 0, 0], [3, 0, 0, 0, 0]]).unwrap();
    b.selection_vector = vec![false, true];
    let mut splitter = SidecarSplitter::new(vec![Ok(b)], &checkpoint_schema()).unwrap();
    let files = splitter.next_file_actions_batch().unwrap().unwrap();
    assert_eq!(files.rows, vec![vec![Some(2), None], vec![Some(3), None]]);
}

fn new_error(schema: StructType) -> String {
    match SidecarSplitter::new(vec![], &schema) {
        Err(Error::CheckpointWrite(text)) => text,
        _ => panic!("expected an error"),
    }
}

#[test]
fn schemas_that_cannot_be_split() {
    let nullable = |name: &str| StructField::nullable(name, DataType::string());
    let required = |name: &str| StructField::not_null(name, DataType::string());
    assert_eq!(
        new_error(StructType::new_unchecked(vec![nullable("remove")])),
        "Checkpoint data schema missing 'add' field"
    );
    assert_eq!(
        new_error(StructType::new_unchecked(vec![nullable("add")])),
        "Checkpoint data schema missing 'remove' field"
    );
    assert_eq!(
        new_error(StructType::new_unchecked(vec![required("add"), required("remove")])),
        "Checkpoint data schema 'add' field must be nullable"
    );
    assert_eq!(
        new_error(StructType::new_unchecked(vec![nullable("add"), required("remove")])),
        "Checkpoint data schema 'remove' field must be nullable"
    );
}

#[test]
fn sidecars_have_a_soft_cap() {
    let data = vec![
        batch(vec![[1, 0, 0, 0, 0], [2, 0, 0, 0, 0]]),
        batch(vec![[3, 0, 0, 0, 0], [4, 0, 0, 0, 0]]),
        batch(vec![[5, 0, 0, 0, 0]]),
    ];
    let mut splitter = SidecarSplitter::new(data, &checkpoint_schema()).unwrap();
    let mut first = SingleSidecarDataIterator::new(3).unwrap();
    assert_eq!(first.next(&mut splitter).unwrap().unwrap().len(), 2);
    assert!(!first.is_full());
    assert_eq!(first.next(&mut splitter).unwrap().unwrap().len(), 2);
    assert!(first.is_full());
    assert!(first.next(&mut splitter).is_none());
    assert!(!splitter.is_exhausted());
    let mut second = SingleSidecarDataIterator::new(3).unwrap();
    assert_eq!(second.next(&mut splitter).unwrap().unwrap().len(), 1);
    assert!(second.next(&mut splitter).is_none());
    assert!(splitter.is_exhausted());
    match SingleSidecarDataIterator::new(0) {
        Err(Error::CheckpointWrite(text)) => {
            assert_eq!(text, "max_file_actions_hint must be greater than 0")
        }
        _ => panic!("expected an error"),
    }
}

#[test]
fn rows_are_filtered_by_selections() {
    let rows = || {
        vec![
            ActionBatch {
                rows: vec![vec![Some(1), None], vec![None, Some(2)], vec![Some(3), None]],
            },
            ActionBatch {
                rows: vec![vec![None, None]],
            },
        ]
    };
    let selections = || Some(vec![Ok(vec![true, false, true]), Ok(vec![false])]);
    let filtered = filter_batches_with_predicate(rows(), selections()).unwrap();
    assert_eq!(filtered.len(), 2);
    assert_eq!(filtered[0].rows, vec![vec![Some(1), None], vec![Some(3), None]]);
    assert!(filtered[1].is_empty());
    let schema = Arc::new(StructType::new_unchecked(vec![]));
    let result = read_result(rows(), selections(), schema.clone()).unwrap();
    assert_eq!(result.row_count, 2);
    let result = read_result(rows(), None, schema.clone()).unwrap();
    assert_eq!(result.row_count, 4);
    assert_eq!(result.batches.len(), 2);

    let broken = || {
        Some(vec![
            Err(Error::generic("no such column")),
            Err(Error::generic("later")),
        ])
    };
    match filter_batches_with_predicate(rows(), broken()) {
        Err(Error::Generic(text)) => assert_eq!(text, "no such column"),
        other => panic!("unexpected {other:?}"),
    }
    assert!(read_result(rows(), broken(), schema).is_err());
}

#[test]
fn expressions_of_the_splitter() {
    let pickers = action_pickers(&checkpoint_schema()).unwrap();
    assert_eq!(pickers.sidecar_schema.field_names(), vec!["add", "remove"]);
    assert_eq!(pickers.file_actions.output_names, vec!["add", "remove"]);
    match &pickers.file_actions.transform {
        Expression::Struct(fields) => assert_eq!(fields.len(), 2),
        other => panic!("unexpected {other:?}"),
    }
    match &pickers.non_file_actions.transform {
        Expression::Transform(t) => {
            assert_eq!(t.replacements[0].0, "add");
            assert_eq!(t.replacements[1].0, "remove");
            assert!(matches!(
                &*t.replacements[0].1,
                Expression::Literal(Scalar::Null(t)) if *t == DataType::string()
            ));
        }
        other => panic!("unexpected {other:?}"),
    }
    match &pickers.non_file_actions.null_row_filter {
        Predicate::Or(list) => assert_eq!(list.len(), 3),
        other => panic!("unexpected {other:?}"),
    }
    assert!(action_pickers(&StructType::new_unchecked(vec![])).is_err());
}

#[test]
fn parts_of_a_batch() {
    let some = || ActionBatch {
        rows: vec![vec![Some(1)]],
    };
    let none = || ActionBatch { rows: vec![] };
    let parts = split_parts(Ok(some()), Ok(none()));
    assert_eq!(parts.put_aside.unwrap().len(), 1);
    assert!(parts.result.is_none());
    let parts = split_parts(Ok(none()), Ok(some()));
    assert!(parts.put_aside.is_none());
    assert_eq!(parts.result.unwrap().unwrap().len(), 1);
    let parts = split_parts(Ok(some()), Err(Error::generic("files")));
    assert!(parts.put_aside.is_some());
    assert_eq!(parts.result.unwrap().unwrap_err().text(), "files");
    let parts = split_parts(Err(Error::generic("others")), Err(Error::generic("files")));
    assert!(parts.put_aside.is_none());
    assert_eq!(parts.result.unwrap().unwrap_err().text(), "others");
}

#[test]
fn a_whole_run_of_writing_parquet() {
    let mut done: Vec<String> = vec![];
    let mut items = vec![1, 2, 3].into_iter();
    let mut is_open = false;
    loop {
        match next_write_action(is_open, items.next().map(Ok)) {
            WriteAction::Open(b) => {
                is_open = true;
                done.push(format!("open {b}"));
            }
            WriteAction::Append(b) => done.push(format!("append {b}")),
            WriteAction::Close => {
                done.push("close".to_string());
                break;
            }
            WriteAction::Fail(e) => panic!("unexpected {e:?}"),
        }
    }
    assert_eq!(done, vec!["open 1", "append 2", "append 3", "close"]);
}

#[test]
fn schemas_of_reads() {
    let schema = Arc::new(checkpoint_schema());
    assert_eq!(read_schema(&schema, None).unwrap().num_fields(), 5);
    let columns: [&str; 2] = ["txn", "add"];
    let projected = read_schema(&schema, Some(&columns)).unwrap();
    assert_eq!(projected.field_at_index(0).unwrap().name(), "txn");
    let columns: [&str; 1] = ["none"];
    assert!(read_schema(&schema, Some(&columns)).is_err());
}

#[test]
fn versions_and_expectations_of_workloads() {
    assert_eq!(snapshot_version(None).unwrap(), None);
    assert_eq!(snapshot_version(Some(Ok(4))).unwrap(), Some(4));
    match snapshot_version(Some(Err("no".to_string()))) {
        Err(Error::Generic(text)) => assert_eq!(text, "no"),
        other => panic!("unexpected {other:?}"),
    }
    assert_eq!(expectation(WorkloadKind::Read, Some(1)), Ok(1));
    assert_eq!(
        expectation::<u8>(WorkloadKind::Read, None),
        Err("ReadSpec must have expected or error field")
    );
    assert_eq!(
        expectation::<u8>(WorkloadKind::SnapshotConstruction, None),
        Err("SnapshotSpec must have expected or error field")
    );
}

#[test]
fn steps_of_writing_parquet() {
    assert!(matches!(next_write_action(false, Some(Ok(1))), WriteAction::Open(1)));
    assert!(matches!(next_write_action(true, Some(Ok(2))), WriteAction::Append(2)));
    assert!(matches!(next_write_action::<u8>(true, None), WriteAction::Close));
    match next_write_action::<u8>(false, None) {
        WriteAction::Fail(e) => assert_eq!(
            e.text(),
            "Cannot write parquet file with empty data iterator"
        ),
        _ => panic!("expected a failure"),
    }
    assert!(matches!(
        next_write_action::<u8>(true, Some(Err(Error::generic("x")))),
        WriteAction::Fail(_)
    ));
    assert_eq!(invalid_location("s3://b").text(), "Invalid file URL: s3://b");
}

#[test]
fn footers_give_schemas() {
    let field = |t: ArrowDataType| ArrowField {
        name: "a".to_string(),
        data_type: t,
        nullable: true,
        metadata: TextMap::new(),
    };
    let schema = footer_schema(&ArrowSchema {
        fields: vec![field(ArrowDataType::Int64)],
    })
    .unwrap();
    assert_eq!(schema.field("a").unwrap().data_type(), &DataType::long());
    let bad = footer_schema(&ArrowSchema {
        fields: vec![field(ArrowDataType::Other("Null".to_string()))],
    });
    assert!(matches!(bad, Err(Error::Arrow(_))));
}
