//! Verification of file statistics.
use delta_schema::column_name::ColumnName;
use delta_schema::engine_data::{Batch, ColumnValues};
use delta_schema::error::Error;
use delta_schema::schema::types::DataType;
use delta_schema::stats_verifier::{build_stat_path, is_stat_present, StatsVerifier};

fn column(path: &[&str]) -> ColumnName {
    ColumnName::new(path.iter().map(|s| s.to_string()).collect())
}

fn texts(values: &[&str]) -> ColumnValues {
    ColumnValues::Text(values.iter().map(|s| Some(s.to_string())).collect())
}

/// Add file data with stats.numRecords, stats.nullCount.col, stats.minValues.col, and
/// stats.maxValues.col, all longs.
fn create_add_file_batch(
    paths: Vec<&str>,
    num_records: Vec<Option<i64>>,
    null_counts: Vec<Option<i64>>,
    min_values: Vec<Option<i64>>,
    max_values: Vec<Option<i64>>,
) -> Batch {
    assert_eq!(paths.len(), num_records.len());
    assert_eq!(paths.len(), null_counts.len());
    assert_eq!(paths.len(), min_values.len());
    assert_eq!(paths.len(), max_values.len());
    Batch::try_new(
        paths.len(),
        vec![
            (column(&["path"]), texts(&paths)),
            (column(&["stats", "numRecords"]), ColumnValues::Long(num_records)),
            (column(&["stats", "nullCount", "col"]), ColumnValues::Long(null_counts)),
            (column(&["stats", "minValues", "col"]), ColumnValues::Long(min_values)),
            (column(&["stats", "maxValues", "col"]), ColumnValues::Long(max_values)),
        ],
    )
    .unwrap()
}

#[test]
fn test_verifier_with_empty_add_files() {
    let columns = vec![(column(&["col"]), DataType::long())];
    let verifier = StatsVerifier::new(columns);
    let result = verifier.verify(&vec![]);
    assert!(result.is_ok());
}

#[test]
fn test_verify_valid_stats() {
    let batch = create_add_file_batch(
        vec!["file1.parquet", "file2.parquet"],
        vec![Some(100), Some(100)],
        vec![Some(0), Some(5)],
        vec![Some(1), Some(10)],
        vec![Some(100), Some(50)],
    );

    let columns = vec![(column(&["col"]), DataType::long())];
    let verifier = StatsVerifier::new(columns);
    let result = verifier.verify(&vec![batch]);
    assert!(result.is_ok());
}

#[test]
fn test_verify_missing_stat_category() {
    let cases = [
        ("nullCount", vec![None], vec![Some(1)], vec![Some(100)]),
        ("minValues", vec![Some(0)], vec![None], vec![Some(100)]),
        ("maxValues", vec![Some(0)], vec![Some(1)], vec![None]),
    ];
    for (category, null_counts, min_values, max_values) in cases {
        let batch = create_add_file_batch(
            vec!["file1.parquet"],
            vec![Some(100)],
            null_counts,
            min_values,
            max_values,
        );
        let verifier = StatsVerifier::new(vec![(column(&["col"]), DataType::long())]);
        let err = verifier.verify(&vec![batch]).unwrap_err();
        assert!(err.text().contains("file1.parquet"), "case: {category}");
        assert!(err.text().contains(category), "case: {category}");
    }
}

#[test]
fn test_verify_multiple_batches() {
    let batch1 = create_add_file_batch(
        vec!["good_file.parquet"],
        vec![Some(100)],
        vec![Some(0)],
        vec![Some(1)],
        vec![Some(100)],
    );
    let batch2 = create_add_file_batch(
        vec!["bad_file.parquet"],
        vec![Some(100)],
        vec![None],
        vec![None],
        vec![None],
    );

    let columns = vec![(column(&["col"]), DataType::long())];
    let verifier = StatsVerifier::new(columns);
    let result = verifier.verify(&vec![batch1, batch2]);

    assert!(result.is_err());
    let err = result.unwrap_err();
    assert!(err.text().contains("bad_file.parquet"));
    assert!(!err.text().contains("good_file.parquet"));
}

#[test]
fn test_verify_no_required_columns() {
    let batch = create_add_file_batch(
        vec!["file1.parquet"],
        vec![Some(100)],
        vec![None],
        vec![None],
        vec![None],
    );

    let verifier = StatsVerifier::new(vec![]);
    let result = verifier.verify(&vec![batch]);
    assert!(result.is_ok());
}

#[test]
fn test_verify_all_null_column_allows_null_min_max() {
    // nullCount == numRecords means all rows are null, so null min/max is valid
    let batch = create_add_file_batch(
        vec!["file1.parquet"],
        vec![Some(100)],
        vec![Some(100)],
        vec![None],
        vec![None],
    );

    let columns = vec![(column(&["col"]), DataType::long())];
    let verifier = StatsVerifier::new(columns);
    assert!(verifier.verify(&vec![batch]).is_ok());
}

#[test]
fn test_verify_partial_null_column_requires_min_max() {
    // nullCount < numRecords means not all rows are null, so min/max must be present
    let batch = create_add_file_batch(
        vec!["file1.parquet"],
        vec![Some(100)],
        vec![Some(50)],
        vec![None],
        vec![None],
    );

    let columns = vec![(column(&["col"]), DataType::long())];
    let verifier = StatsVerifier::new(columns);
    let result = verifier.verify(&vec![batch]);
    assert!(matches!(result, Err(Error::StatsValidation(_))));
    let err = result.unwrap_err();
    assert!(err.text().contains("minValues"));
}

fn create_two_column_batch(
    num_records: Option<i64>,
    col_a: [Option<i64>; 3],
    col_b: [Option<i64>; 3],
) -> Batch {
    let one = |v: Option<i64>| ColumnValues::Long(vec![v]);
    Batch::try_new(
        1,
        vec![
            (column(&["path"]), texts(&["file1.parquet"])),
            (column(&["stats", "numRecords"]), one(num_records)),
            (column(&["stats", "nullCount", "col_a"]), one(col_a[0])),
            (column(&["stats", "nullCount", "col_b"]), one(col_b[0])),
            (column(&["stats", "minValues", "col_a"]), one(col_a[1])),
            (column(&["stats", "minValues", "col_b"]), one(col_b[1])),
            (column(&["stats", "maxValues", "col_a"]), one(col_a[2])),
            (column(&["stats", "maxValues", "col_b"]), one(col_b[2])),
        ],
    )
    .unwrap()
}

#[test]
fn test_verify_multiple_columns() {
    // Both columns have valid stats
    let batch = create_two_column_batch(
        Some(100),
        [Some(0), Some(1), Some(10)],
        [Some(0), Some(2), Some(20)],
    );
    let columns = vec![
        (column(&["col_a"]), DataType::long()),
        (column(&["col_b"]), DataType::long()),
    ];
    assert!(StatsVerifier::new(columns).verify(&vec![batch]).is_ok());

    // col_a valid, col_b missing minValues
    let batch = create_two_column_batch(
        Some(100),
        [Some(0), Some(1), Some(10)],
        [Some(0), None, Some(20)],
    );
    let columns = vec![
        (column(&["col_a"]), DataType::long()),
        (column(&["col_b"]), DataType::long()),
    ];
    let err = StatsVerifier::new(columns).verify(&vec![batch]).unwrap_err();
    assert!(err.text().contains("col_b"));
    assert!(err.text().contains("minValues"));
    assert!(!err.text().contains("col_a"));
}

// ---------------------------------------------------------------------------------------------
// Further cases
// ---------------------------------------------------------------------------------------------

#[test]
fn stat_paths_stand_below_stats() {
    assert_eq!(
        build_stat_path(&column(&["a", "b"]), "nullCount"),
        column(&["stats", "nullCount", "a", "b"])
    );
}

#[test]
fn text_statistics_are_verified() {
    let batch = Batch::try_new(
        1,
        vec![
            (column(&["path"]), texts(&["file1.parquet"])),
            (column(&["stats", "numRecords"]), ColumnValues::Long(vec![Some(3)])),
            (column(&["stats", "nullCount", "city"]), ColumnValues::Long(vec![Some(0)])),
            (column(&["stats", "minValues", "city"]), texts(&["Austin"])),
            (column(&["stats", "maxValues", "city"]), texts(&["Chicago"])),
        ],
    )
    .unwrap();
    let verifier = StatsVerifier::new(vec![(column(&["city"]), DataType::string())]);
    assert!(verifier.verify(&vec![batch]).is_ok());
}

#[test]
fn wrong_types_are_errors() {
    let batch = create_add_file_batch(
        vec!["file1.parquet"],
        vec![Some(100)],
        vec![Some(0)],
        vec![Some(1)],
        vec![Some(2)],
    );
    // the values are longs, not texts
    let verifier = StatsVerifier::new(vec![(column(&["col"]), DataType::string())]);
    let err = verifier.verify(&vec![batch]).unwrap_err();
    assert!(!matches!(err, Error::StatsValidation(_)));

    let values = ColumnValues::Long(vec![Some(1)]);
    assert!(is_stat_present(&values, 0, &DataType::long()).unwrap());
    assert!(is_stat_present(&values, 0, &DataType::string()).is_err());
    assert!(is_stat_present(&values, 0, &DataType::unshredded_variant()).is_err());
}

#[test]
fn missing_columns_are_errors() {
    let batch = create_add_file_batch(
        vec!["file1.parquet"],
        vec![Some(1)],
        vec![Some(0)],
        vec![Some(1)],
        vec![Some(2)],
    );
    let verifier = StatsVerifier::new(vec![(column(&["other"]), DataType::long())]);
    assert!(verifier.verify(&vec![batch]).is_err());
}

#[test]
fn batches_have_columns_of_one_length() {
    assert!(Batch::try_new(2, vec![(column(&["a"]), ColumnValues::Long(vec![Some(1)]))]).is_none());
}
