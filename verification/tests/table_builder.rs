//! Test tables and their data.
use delta_schema::arrow::{ArrowDataType, TimeUnit};
use delta_schema::column_data::{column_fits, generate_column, ColumnData, FloatKind};
use delta_schema::error::{DeltaResult, Error};
use delta_schema::schema::types::{DataType, StructField, StructType};
use delta_schema::table_builder::{
    default_schema, test_table, FeatureSet, LogState, TestTableBuilder, VersionTarget,
};
use std::sync::Arc;

#[test]
fn test_basic_build() -> DeltaResult<()> {
    let table = TestTableBuilder::new().build()?;
    assert_eq!(table.latest_version(), 0);
    Ok(())
}

#[test]
fn test_commits_only() -> DeltaResult<()> {
    let table = TestTableBuilder::new()
        .with_log_state(LogState::with_commits(3))
        .build()?;
    assert_eq!(table.latest_version(), 2);
    Ok(())
}

#[test]
fn test_version_targets() {
    for version_target in [
        VersionTarget::Latest,
        VersionTarget::AtVersion(2),
        VersionTarget::IncrementalToLatest { from: 1 },
    ] {
        let table = test_table(LogState::with_commits(5), FeatureSet::empty());
        let expected = match &version_target {
            VersionTarget::Latest | VersionTarget::IncrementalToLatest { .. } => 4,
            VersionTarget::AtVersion(v) => *v,
        };
        assert_eq!(
            version_target.loaded_version(table.latest_version() as u64),
            expected
        );
    }
}

fn values(column: &ColumnData) -> usize {
    match column {
        ColumnData::Boolean(v) => v.len(),
        ColumnData::Int8(v) => v.len(),
        ColumnData::Int16(v) => v.len(),
        ColumnData::Int32(v) => v.len(),
        ColumnData::Int64(v) => v.len(),
        ColumnData::Float(_, _, rows) => *rows,
        ColumnData::Utf8(v) => v.len(),
        ColumnData::Binary(v) => v.len(),
        ColumnData::Date32(v) => v.len(),
        ColumnData::TimestampMicrosecond(v, _) => v.len(),
        ColumnData::Decimal128(v, _, _) => v.len(),
    }
}

#[test]
fn test_scan_with_data() -> DeltaResult<()> {
    let table = TestTableBuilder::new()
        .with_log_state(LogState::with_commits(2))
        .with_data(2, 5)
        .build()?;
    let mut total = 0;
    for commit in &table.commits {
        for file in &commit.files {
            for column in &file.columns {
                assert_eq!(values(column), 5);
            }
            total += values(&file.columns[0]);
        }
    }
    assert_eq!(total, 10);
    Ok(())
}

// ---------------------------------------------------------------------------------------------
// Further cases
// ---------------------------------------------------------------------------------------------

#[test]
fn descriptions() {
    let features = FeatureSet {
        table_properties: vec![
            ("delta.columnMapping.mode".to_string(), "name".to_string()),
            ("delta.feature.v2Checkpoint".to_string(), "supported".to_string()),
            ("other".to_string(), "1".to_string()),
        ],
    };
    assert_eq!(
        features.text(),
        "columnMapping.mode=name, v2Checkpoint=supported, other=1"
    );
    assert_eq!(FeatureSet::new().text(), "empty");
    assert_eq!(FeatureSet::default().table_properties.len(), 0);
    let table = test_table(LogState::with_commits(3), features);
    assert_eq!(
        table.description(),
        "commits(3) + columnMapping.mode=name, v2Checkpoint=supported, other=1"
    );
    assert_eq!(table.table_root(), "memory:///");
    assert_eq!(table.table_properties.len(), 3);
    assert_eq!(VersionTarget::Latest.text(), "latest");
    assert_eq!(VersionTarget::AtVersion(2).text(), "at_version(2)");
    assert_eq!(
        VersionTarget::IncrementalToLatest { from: 1 }.text(),
        "incremental(1->latest)"
    );
    assert_eq!(LogState::with_commits(7).num_versions(), 7);
}

#[test]
fn defaults_of_the_builder() {
    let table = TestTableBuilder::default()
        .with_log_state(LogState::with_commits(2))
        .build()
        .unwrap();
    assert_eq!(table.commits.len(), 1);
    assert_eq!(table.commits[0].version, 1);
    assert_eq!(table.commits[0].files.len(), 1);
    assert_eq!(table.commits[0].files[0].columns.len(), 14);
    assert_eq!(default_schema().num_fields(), 14);
    match &table.commits[0].files[0].columns[3] {
        ColumnData::Int32(v) => assert_eq!(v, &(1000..1010).collect::<Vec<i32>>()),
        other => panic!("unexpected {other:?}"),
    }
}

#[test]
fn bases_of_files() {
    let schema = Arc::new(StructType::new_unchecked(vec![StructField::nullable(
        "s",
        DataType::string(),
    )]));
    let table = TestTableBuilder::new()
        .with_log_state(LogState::with_commits(3))
        .with_schema(schema)
        .with_features(FeatureSet::empty())
        .with_data(2, 1)
        .build()
        .unwrap();
    match &table.commits[1].files[1].columns[0] {
        ColumnData::Utf8(v) => assert_eq!(v, &vec!["val_2100".to_string()]),
        other => panic!("unexpected {other:?}"),
    }
}

#[test]
fn schema_without_counterpart_is_refused() {
    let shredded = DataType::variant_type(vec![
        StructField::nullable("metadata", DataType::binary()),
        StructField::nullable("value", DataType::binary()),
        StructField::nullable("typed_value", DataType::integer()),
    ])
    .unwrap();
    let schema = Arc::new(StructType::new_unchecked(vec![StructField::nullable("v", shredded)]));
    let builder = || TestTableBuilder::new().with_schema(schema.clone());
    assert!(builder().build().is_ok());
    match builder().with_log_state(LogState::with_commits(2)).build() {
        Err(Error::Generic(text)) => {
            assert!(text.starts_with("Schema error: Incorrect Variant Schema"))
        }
        _ => panic!("expected an error"),
    }
}

#[test]
fn column_values() {
    match generate_column(&ArrowDataType::Boolean, 3, 7) {
        ColumnData::Boolean(v) => assert_eq!(v, vec![false, true, false]),
        other => panic!("unexpected {other:?}"),
    }
    match generate_column(&ArrowDataType::Int8, 3, 119) {
        ColumnData::Int8(v) => assert_eq!(v, vec![119, 0, 1]),
        other => panic!("unexpected {other:?}"),
    }
    match generate_column(&ArrowDataType::Int8, 2, -121) {
        ColumnData::Int8(v) => assert_eq!(v, vec![-1, 0]),
        other => panic!("unexpected {other:?}"),
    }
    match generate_column(&ArrowDataType::Int16, 2, 29_999) {
        ColumnData::Int16(v) => assert_eq!(v, vec![29_999, 0]),
        other => panic!("unexpected {other:?}"),
    }
    match generate_column(&ArrowDataType::Int64, 2, 5) {
        ColumnData::Int64(v) => assert_eq!(v, vec![5_000, 6_000]),
        other => panic!("unexpected {other:?}"),
    }
    match generate_column(&ArrowDataType::Binary, 1, -3) {
        ColumnData::Binary(v) => assert_eq!(v, vec![b"bin_-3".to_vec()]),
        other => panic!("unexpected {other:?}"),
    }
    match generate_column(&ArrowDataType::Date32, 2, 1) {
        ColumnData::Date32(v) => assert_eq!(v, vec![18_001, 18_002]),
        other => panic!("unexpected {other:?}"),
    }
    let t = ArrowDataType::Timestamp(TimeUnit::Microsecond, Some("UTC".to_string()));
    match generate_column(&t, 1, 1) {
        ColumnData::TimestampMicrosecond(v, zone) => {
            assert_eq!(v, vec![18_001 * 86_400_000_000]);
            assert_eq!(zone, Some("UTC".to_string()));
        }
        other => panic!("unexpected {other:?}"),
    }
    match generate_column(&ArrowDataType::Decimal128(10, 2), 2, 3) {
        ColumnData::Decimal128(v, 10, 2) => assert_eq!(v, vec![300, 400]),
        other => panic!("unexpected {other:?}"),
    }
    assert!(matches!(
        generate_column(&ArrowDataType::Float64, 4, 9),
        ColumnData::Float(FloatKind::Double, 9, 4)
    ));
}

#[test]
fn flags_of_a_negative_base() {
    match generate_column(&ArrowDataType::Boolean, 3, -3) {
        ColumnData::Boolean(v) => assert_eq!(v, vec![false, true, false]),
        _ => panic!("expected flags"),
    }
    assert!(column_fits(&ArrowDataType::Boolean, 3, -3));
    assert!(!column_fits(&ArrowDataType::Boolean, 4, -3));
}

#[test]
fn what_cannot_be_built_is_told_beforehand() {
    let table = |versions: u64, t: DataType| {
        TestTableBuilder::new()
            .with_log_state(LogState::with_commits(versions))
            .with_schema(Arc::new(StructType::new_unchecked(vec![StructField::nullable("c", t)])))
    };
    assert!(table(3, DataType::long()).with_data(2, 5).can_build());
    assert!(table(3, DataType::unshredded_variant()).with_data(0, 5).can_build());
    assert!(!table(3, DataType::unshredded_variant()).can_build());
    // there is no data before the first data commit
    assert!(table(1, DataType::unshredded_variant()).can_build());
    assert!(table(2, DataType::decimal(38, 35).unwrap()).can_build());
    assert!(!table(2, DataType::decimal(38, 36).unwrap()).can_build());
    assert!(!column_fits(&ArrowDataType::Int32, 2, i32::MAX));
    assert!(column_fits(&ArrowDataType::Int32, 1, i32::MAX));
    assert!(!column_fits(&ArrowDataType::Date64, 1, 0));
    assert!(!column_fits(&ArrowDataType::Decimal128(10, -1), 1, 0));
    assert!(!column_fits(&ArrowDataType::Timestamp(TimeUnit::Second, None), 1, 0));
    assert!(!column_fits(&ArrowDataType::Timestamp(TimeUnit::Microsecond, None), 1, i32::MAX));
}
