//! Schemas of file statistics.
use delta_schema::column_name::ColumnName;
use delta_schema::schema::types::{ArrayType, DataType, MapType, StructField, StructType};
use delta_schema::stats_schema::{
    build_stats_schema, expected_stats_schema, is_skipping_eligible_datatype,
    schema_with_all_fields_nullable, stats_column_names, DataSkippingNumIndexedCols, StatsConfig,
    StatsTransform,
};
use delta_schema::schema::primitive::PrimitiveType;

fn column(path: &[&str]) -> ColumnName {
    ColumnName::new(path.iter().map(|s| s.to_string()).collect())
}

fn default_config() -> StatsConfig<'static> {
    StatsConfig {
        data_skipping_stats_columns: None,
        data_skipping_num_indexed_cols: None,
    }
}

fn first_columns(n: u64) -> StatsConfig<'static> {
    StatsConfig {
        data_skipping_stats_columns: None,
        data_skipping_num_indexed_cols: Some(DataSkippingNumIndexedCols::NumColumns(n)),
    }
}

fn listed_columns(columns: &Vec<ColumnName>) -> StatsConfig<'_> {
    StatsConfig {
        data_skipping_stats_columns: Some(columns),
        data_skipping_num_indexed_cols: None,
    }
}

/// Builds an expected stats schema from the given null count and min/max nested schemas.
fn expected_stats(null_count: StructType, min_max: StructType) -> StructType {
    StructType::new_unchecked(vec![
        StructField::nullable("numRecords", DataType::long()),
        StructField::nullable("nullCount", DataType::from(null_count)),
        StructField::nullable("minValues", DataType::from(min_max.clone())),
        StructField::nullable("maxValues", DataType::from(min_max)),
        StructField::nullable("tightBounds", DataType::boolean()),
    ])
}

#[test]
fn test_stats_schema_simple() {
    let config = default_config();
    let file_schema = StructType::new_unchecked(vec![StructField::nullable("id", DataType::long())]);

    let stats_schema = expected_stats_schema(
        &file_schema,
        &config,
        None,
        None,
    )
    .unwrap();
    let expected = expected_stats(file_schema.clone(), file_schema);

    assert_eq!(&expected, &stats_schema);
}

#[test]
fn test_stats_schema_nested() {
    let config = default_config();

    let user_struct = StructType::new_unchecked(vec![
        StructField::not_null("name", DataType::string()),
        StructField::nullable("age", DataType::integer()),
    ]);
    let file_schema = StructType::new_unchecked(vec![
        StructField::not_null("id", DataType::long()),
        StructField::not_null("user", DataType::Struct(Box::new(user_struct.clone()))),
    ]);
    let stats_schema = expected_stats_schema(
        &file_schema,
        &config,
        None,
        None,
    )
    .unwrap();

    // Expected result: The stats schema should maintain the nested structure
    // but make all fields nullable
    let expected_min_max = StatsTransform::Nullable
        .transform_struct(&file_schema)
        .unwrap();
    let null_count = StatsTransform::NullCount
        .transform_struct(&expected_min_max)
        .unwrap();

    let expected = expected_stats(null_count, expected_min_max);

    assert_eq!(&expected, &stats_schema);
}

#[test]
fn test_stats_schema_with_non_eligible_field() {
    let config = default_config();

    // Create a nested logical schema with:
    // - top-level field "id" (LONG) - eligible for data skipping
    // - nested struct "metadata" containing:
    //   - "name" (STRING) - eligible for data skipping
    //   - "tags" (ARRAY) - NOT eligible for data skipping
    //   - "score" (DOUBLE) - eligible for data skipping

    // Create array type for a field that's not eligible for data skipping
    let array_type = DataType::Array(Box::new(ArrayType::new(DataType::string(), false)));
    let metadata_struct = StructType::new_unchecked(vec![
        StructField::nullable("name", DataType::string()),
        StructField::nullable("tags", array_type),
        StructField::nullable("score", DataType::double()),
    ]);
    let file_schema = StructType::new_unchecked(vec![
        StructField::nullable("id", DataType::long()),
        StructField::nullable(
            "metadata",
            DataType::Struct(Box::new(metadata_struct.clone())),
        ),
    ]);

    let stats_schema = expected_stats_schema(
        &file_schema,
        &config,
        None,
        None,
    )
    .unwrap();

    // nullCount excludes array fields (tags) - only eligible primitive types
    let expected_null_nested = StructType::new_unchecked(vec![
        StructField::nullable("name", DataType::long()),
        StructField::nullable("score", DataType::long()),
    ]);
    let expected_null = StructType::new_unchecked(vec![
        StructField::nullable("id", DataType::long()),
        StructField::nullable("metadata", DataType::Struct(Box::new(expected_null_nested))),
    ]);

    let expected_nested = StructType::new_unchecked(vec![
        StructField::nullable("name", DataType::string()),
        StructField::nullable("score", DataType::double()),
    ]);
    let expected_fields = StructType::new_unchecked(vec![
        StructField::nullable("id", DataType::long()),
        StructField::nullable("metadata", DataType::Struct(Box::new(expected_nested))),
    ]);

    let expected = expected_stats(expected_null, expected_fields);

    assert_eq!(&expected, &stats_schema);
}

#[test]
fn test_stats_schema_col_names() {
    let listed = vec![column(&["user.info", "name"])];
    let config = listed_columns(&listed);

    let user_struct = StructType::new_unchecked(vec![
        StructField::nullable("name", DataType::string()),
        StructField::nullable("age", DataType::integer()),
    ]);
    let file_schema = StructType::new_unchecked(vec![
        StructField::nullable("id", DataType::long()),
        StructField::nullable("user.info", DataType::Struct(Box::new(user_struct.clone()))),
    ]);

    let stats_schema = expected_stats_schema(
        &file_schema,
        &config,
        None,
        None,
    )
    .unwrap();

    let expected_nested =
        StructType::new_unchecked(vec![StructField::nullable("name", DataType::string())]);
    let expected_fields = StructType::new_unchecked(vec![StructField::nullable(
        "user.info",
        DataType::Struct(Box::new(expected_nested)),
    )]);
    let null_count = StatsTransform::NullCount
        .transform_struct(&expected_fields)
        .unwrap();

    let expected = expected_stats(null_count, expected_fields);

    assert_eq!(&expected, &stats_schema);
}

#[test]
fn test_stats_schema_n_cols() {
    let config = first_columns(1);

    let logical_schema = StructType::new_unchecked(vec![
        StructField::nullable("name", DataType::string()),
        StructField::nullable("age", DataType::integer()),
    ]);

    let stats_schema = expected_stats_schema(
        &logical_schema,
        &config,
        None,
        None,
    )
    .unwrap();

    let expected_fields =
        StructType::new_unchecked(vec![StructField::nullable("name", DataType::string())]);
    let null_count = StatsTransform::NullCount
        .transform_struct(&expected_fields)
        .unwrap();

    let expected = expected_stats(null_count, expected_fields);

    assert_eq!(&expected, &stats_schema);
}

#[test]
fn test_stats_schema_different_fields_in_null_vs_minmax() {
    let config = default_config();

    // Create a schema with fields that have different eligibility for min/max vs null count
    // - "id" (LONG) - eligible for both null count and min/max
    // - "is_active" (BOOLEAN) - eligible for null count but NOT for min/max
    // - "metadata" (BINARY) - eligible for null count but NOT for min/max
    let file_schema = StructType::new_unchecked(vec![
        StructField::nullable("id", DataType::long()),
        StructField::nullable("is_active", DataType::boolean()),
        StructField::nullable("metadata", DataType::binary()),
    ]);

    let stats_schema = expected_stats_schema(
        &file_schema,
        &config,
        None,
        None,
    )
    .unwrap();

    // Expected nullCount schema: all fields converted to LONG
    let expected_null_count = StructType::new_unchecked(vec![
        StructField::nullable("id", DataType::long()),
        StructField::nullable("is_active", DataType::long()),
        StructField::nullable("metadata", DataType::long()),
    ]);

    // Expected minValues/maxValues schema: only eligible fields (no boolean, no binary)
    let expected_min_max =
        StructType::new_unchecked(vec![StructField::nullable("id", DataType::long())]);

    let expected = expected_stats(expected_null_count, expected_min_max);

    assert_eq!(&expected, &stats_schema);
}

#[test]
fn test_stats_schema_nested_different_fields_in_null_vs_minmax() {
    let config = default_config();

    // Create a nested schema where some nested fields are eligible for min/max and others aren't
    let user_struct = StructType::new_unchecked(vec![
        StructField::nullable("name", DataType::string()), // eligible for min/max
        StructField::nullable("is_admin", DataType::boolean()), // NOT eligible for min/max
        StructField::nullable("age", DataType::integer()), // eligible for min/max
        StructField::nullable("profile_pic", DataType::binary()), // NOT eligible for min/max
    ]);

    let file_schema = StructType::new_unchecked(vec![
        StructField::nullable("id", DataType::long()),
        StructField::nullable("user", DataType::Struct(Box::new(user_struct.clone()))),
        StructField::nullable("is_deleted", DataType::boolean()), // NOT eligible for min/max
    ]);

    let stats_schema = expected_stats_schema(
        &file_schema,
        &config,
        None,
        None,
    )
    .unwrap();

    // Expected nullCount schema: all fields converted to LONG, maintaining structure
    let expected_null_user = StructType::new_unchecked(vec![
        StructField::nullable("name", DataType::long()),
        StructField::nullable("is_admin", DataType::long()),
        StructField::nullable("age", DataType::long()),
        StructField::nullable("profile_pic", DataType::long()),
    ]);
    let expected_null_count = StructType::new_unchecked(vec![
        StructField::nullable("id", DataType::long()),
        StructField::nullable("user", DataType::Struct(Box::new(expected_null_user))),
        StructField::nullable("is_deleted", DataType::long()),
    ]);

    // Expected minValues/maxValues schema: only eligible fields
    let expected_minmax_user = StructType::new_unchecked(vec![
        StructField::nullable("name", DataType::string()),
        StructField::nullable("age", DataType::integer()),
    ]);
    let expected_min_max = StructType::new_unchecked(vec![
        StructField::nullable("id", DataType::long()),
        StructField::nullable("user", DataType::Struct(Box::new(expected_minmax_user))),
    ]);

    let expected = expected_stats(expected_null_count, expected_min_max);

    assert_eq!(&expected, &stats_schema);
}

#[test]
fn test_stats_schema_only_non_eligible_fields() {
    let config = default_config();

    // Create a schema with only fields that are NOT eligible for min/max skipping
    let file_schema = StructType::new_unchecked(vec![
        StructField::nullable("is_active", DataType::boolean()),
        StructField::nullable("metadata", DataType::binary()),
        StructField::nullable(
            "tags",
            DataType::Array(Box::new(ArrayType::new(DataType::string(), false))),
        ),
    ]);

    let stats_schema = expected_stats_schema(
        &file_schema,
        &config,
        None,
        None,
    )
    .unwrap();

    // nullCount includes boolean and binary (primitives) but excludes array
    let expected_null_count = StructType::new_unchecked(vec![
        StructField::nullable("is_active", DataType::long()),
        StructField::nullable("metadata", DataType::long()),
    ]);

    // minValues/maxValues: no fields are eligible (boolean/binary excluded)
    let expected = StructType::new_unchecked(vec![
        StructField::nullable("numRecords", DataType::long()),
        StructField::nullable("nullCount", DataType::from(expected_null_count)),
        StructField::nullable("tightBounds", DataType::boolean()),
    ]);

    assert_eq!(&expected, &stats_schema);
}

#[test]
fn test_stats_schema_map_array_dont_count_against_limit() {
    // Test that Map and Array fields don't count against the column limit.
    // With a limit of 2, if we have: array, map, col1, col2, col3
    // We should get stats for col1 and col2 (the first 2 eligible columns),
    // not be limited by the array and map fields.
    let config = first_columns(2);

    let file_schema = StructType::new_unchecked(vec![
        StructField::nullable(
            "tags",
            DataType::Array(Box::new(ArrayType::new(DataType::string(), false))),
        ),
        StructField::nullable(
            "metadata",
            DataType::MapOf(Box::new(MapType::new(
                DataType::string(),
                DataType::string(),
                true,
            ))),
        ),
        StructField::nullable("col1", DataType::long()),
        StructField::nullable("col2", DataType::string()),
        StructField::nullable("col3", DataType::integer()), // Should be excluded by limit
    ]);

    let stats_schema = expected_stats_schema(
        &file_schema,
        &config,
        None,
        None,
    )
    .unwrap();

    // nullCount has only eligible primitive columns (col1 and col2).
    // Map/Array/Variant are excluded from all stats.
    let expected_null_count = StructType::new_unchecked(vec![
        StructField::nullable("col1", DataType::long()),
        StructField::nullable("col2", DataType::long()),
    ]);

    // minValues/maxValues only have eligible primitive types (col1 and col2).
    // Map/Array are filtered out by MinMaxStatsTransform.
    let expected_min_max = StructType::new_unchecked(vec![
        StructField::nullable("col1", DataType::long()),
        StructField::nullable("col2", DataType::string()),
    ]);

    let expected = expected_stats(expected_null_count, expected_min_max);

    assert_eq!(&expected, &stats_schema);
}

// ==================== stats_column_names tests ====================

#[test]
fn test_stats_column_names_default() {
    let config = default_config();

    let user_struct = StructType::new_unchecked(vec![
        StructField::nullable("name", DataType::string()),
        StructField::nullable("age", DataType::integer()),
    ]);
    let file_schema = StructType::new_unchecked(vec![
        StructField::nullable("id", DataType::long()),
        StructField::nullable("user", DataType::Struct(Box::new(user_struct))),
    ]);

    let columns = stats_column_names(&file_schema, &config, None);

    // With default settings, all leaf columns should be included
    assert_eq!(
        columns,
        vec![
            column(&["id"]),
            column(&["user", "name"]),
            column(&["user", "age"]),
        ]
    );
}

#[test]
fn test_stats_column_names_with_num_indexed_cols() {
    let config = first_columns(2);

    let file_schema = StructType::new_unchecked(vec![
        StructField::nullable("a", DataType::long()),
        StructField::nullable("b", DataType::string()),
        StructField::nullable("c", DataType::integer()),
        StructField::nullable("d", DataType::double()),
    ]);

    let columns = stats_column_names(&file_schema, &config, None);

    // Only first 2 columns should be included
    assert_eq!(
        columns,
        vec![column(&["a"]), column(&["b"]),]
    );
}

#[test]
fn test_stats_column_names_with_stats_columns() {
    let listed = vec![column(&["id"]), column(&["user", "age"])];
    let config = listed_columns(&listed);

    let user_struct = StructType::new_unchecked(vec![
        StructField::nullable("name", DataType::string()),
        StructField::nullable("age", DataType::integer()),
    ]);
    let file_schema = StructType::new_unchecked(vec![
        StructField::nullable("id", DataType::long()),
        StructField::nullable("user", DataType::Struct(Box::new(user_struct))),
        StructField::nullable("extra", DataType::string()),
    ]);

    let columns = stats_column_names(&file_schema, &config, None);

    // Only specified columns should be included (user.name and extra excluded)
    assert_eq!(
        columns,
        vec![column(&["id"]), column(&["user", "age"]),]
    );
}

#[test]
fn test_stats_column_names_skips_non_eligible_types() {
    let config = default_config();

    let file_schema = StructType::new_unchecked(vec![
        StructField::nullable("id", DataType::long()),
        StructField::nullable(
            "tags",
            DataType::Array(Box::new(ArrayType::new(DataType::string(), false))),
        ),
        StructField::nullable(
            "metadata",
            DataType::MapOf(Box::new(MapType::new(
                DataType::string(),
                DataType::string(),
                true,
            ))),
        ),
        StructField::nullable("name", DataType::string()),
    ]);

    let columns = stats_column_names(&file_schema, &config, None);

    // Array and Map types should be excluded
    assert_eq!(
        columns,
        vec![column(&["id"]), column(&["name"]),]
    );
}

// ==================== clustering column tests ====================

#[test]
fn test_stats_schema_with_clustering_past_limit() {
    // Test that clustering columns are included in stats schema even when past the limit
    let config = first_columns(1);

    let file_schema = StructType::new_unchecked(vec![
        StructField::nullable("a", DataType::long()),
        StructField::nullable("b", DataType::string()),
        StructField::nullable("c", DataType::integer()),
    ]);

    // "c" is a clustering column, should be included even though limit is 1
    let clustering_columns = vec![column(&["c"])];
    let stats_schema = expected_stats_schema(
        &file_schema,
        &config,
        Some(&clustering_columns),
        None,
    )
    .unwrap();

    // Only "a" (first column) and "c" (clustering) should be included
    let expected_null_count = StructType::new_unchecked(vec![
        StructField::nullable("a", DataType::long()),
        StructField::nullable("c", DataType::long()),
    ]);
    let expected_min_max = StructType::new_unchecked(vec![
        StructField::nullable("a", DataType::long()),
        StructField::nullable("c", DataType::integer()),
    ]);

    let expected = expected_stats(expected_null_count, expected_min_max);

    assert_eq!(&expected, &stats_schema);
}

// ==================== requested_columns filtering tests ====================

#[test]
fn test_requested_filters_to_single_column() {
    let config = default_config();
    let file_schema = StructType::new_unchecked(vec![
        StructField::nullable("id", DataType::long()),
        StructField::nullable("name", DataType::string()),
        StructField::nullable("value", DataType::integer()),
    ]);

    let columns = vec![column(&["id"])];
    let stats_schema = expected_stats_schema(
        &file_schema,
        &config,
        None,
        Some(&columns),
    )
    .unwrap();

    let expected_nested =
        StructType::new_unchecked(vec![StructField::nullable("id", DataType::long())]);

    let expected = expected_stats(expected_nested.clone(), expected_nested);

    assert_eq!(&expected, &stats_schema);
}

#[test]
fn test_none_requested_returns_full_schema() {
    // None for requested_columns means no output filtering — include all columns
    let config = default_config();
    let file_schema = StructType::new_unchecked(vec![
        StructField::nullable("id", DataType::long()),
        StructField::nullable("name", DataType::string()),
    ]);

    let with_none = expected_stats_schema(
        &file_schema,
        &config,
        None,
        None,
    )
    .unwrap();

    // Should include both columns
    let min_values = with_none.field("minValues").expect("should have minValues");
    if let DataType::Struct(inner) = min_values.data_type() {
        assert!(inner.field("id").is_some());
        assert!(inner.field("name").is_some());
    } else {
        panic!("minValues should be a struct");
    }
}

#[test]
fn test_requested_column_outside_limit_excluded() {
    // requested_columns alone does NOT bypass the column limit — only required_columns does
    let config = first_columns(1);
    let file_schema = StructType::new_unchecked(vec![
        StructField::nullable("id", DataType::long()),
        StructField::nullable("name", DataType::string()),
    ]);

    // "name" is outside the limit (limit is 1), and is only requested, not required
    let columns = vec![column(&["name"])];
    let stats_schema = expected_stats_schema(
        &file_schema,
        &config,
        None,
        Some(&columns),
    )
    .unwrap();

    // No data columns pass both filters, so only numRecords + tightBounds
    let expected = StructType::new_unchecked(vec![
        StructField::nullable("numRecords", DataType::long()),
        StructField::nullable("tightBounds", DataType::boolean()),
    ]);

    assert_eq!(&expected, &stats_schema);
}

#[test]
fn test_required_bypasses_limit_with_requested_filter() {
    // When a column is both required AND requested, it bypasses the limit and
    // appears in the output. This is the pattern used by the read path.
    let config = first_columns(1);
    let file_schema = StructType::new_unchecked(vec![
        StructField::nullable("id", DataType::long()),
        StructField::nullable("name", DataType::string()),
    ]);

    let columns = vec![column(&["name"])];
    let stats_schema = expected_stats_schema(
        &file_schema,
        &config,
        Some(&columns),
        Some(&columns),
    )
    .unwrap();

    let expected_nested =
        StructType::new_unchecked(vec![StructField::nullable("name", DataType::string())]);
    let expected_null =
        StructType::new_unchecked(vec![StructField::nullable("name", DataType::long())]);

    let expected = expected_stats(expected_null, expected_nested);

    assert_eq!(&expected, &stats_schema);
}

#[test]
fn test_requested_does_not_affect_column_counting() {
    // With num_indexed_cols=2, "id" and "name" are within the limit.
    // requested_columns=["name"] filters the output to just "name",
    // but "id" still counts toward the limit (so "value" stays excluded).
    let config = first_columns(2);
    let file_schema = StructType::new_unchecked(vec![
        StructField::nullable("id", DataType::long()),
        StructField::nullable("name", DataType::string()),
        StructField::nullable("value", DataType::integer()),
    ]);

    let columns = vec![column(&["name"])];
    let stats_schema = expected_stats_schema(
        &file_schema,
        &config,
        None,
        Some(&columns),
    )
    .unwrap();

    // Only "name" appears in the output (filtered), even though "id" counted toward the limit
    let expected_nested =
        StructType::new_unchecked(vec![StructField::nullable("name", DataType::string())]);
    let expected_null =
        StructType::new_unchecked(vec![StructField::nullable("name", DataType::long())]);

    let expected = expected_stats(expected_null, expected_nested);

    assert_eq!(&expected, &stats_schema);
}

#[test]
fn test_multiple_requested_columns() {
    let config = default_config();
    let file_schema = StructType::new_unchecked(vec![
        StructField::nullable("id", DataType::long()),
        StructField::nullable("name", DataType::string()),
        StructField::nullable("value", DataType::integer()),
    ]);

    let columns = vec![column(&["id"]), column(&["name"])];
    let stats_schema = expected_stats_schema(
        &file_schema,
        &config,
        None,
        Some(&columns),
    )
    .unwrap();

    let expected_nested = StructType::new_unchecked(vec![
        StructField::nullable("id", DataType::long()),
        StructField::nullable("name", DataType::string()),
    ]);
    let expected_null = StructType::new_unchecked(vec![
        StructField::nullable("id", DataType::long()),
        StructField::nullable("name", DataType::long()),
    ]);

    let expected = expected_stats(expected_null, expected_nested);

    assert_eq!(&expected, &stats_schema);
}

#[test]
fn test_nested_requested_column() {
    let config = default_config();
    let user_struct = StructType::new_unchecked(vec![
        StructField::nullable("name", DataType::string()),
        StructField::nullable("age", DataType::integer()),
    ]);
    let file_schema = StructType::new_unchecked(vec![
        StructField::nullable("id", DataType::long()),
        StructField::nullable("user", DataType::Struct(Box::new(user_struct))),
    ]);

    let columns = vec![column(&["user", "name"])];
    let stats_schema = expected_stats_schema(
        &file_schema,
        &config,
        None,
        Some(&columns),
    )
    .unwrap();

    let expected_user_nested =
        StructType::new_unchecked(vec![StructField::nullable("name", DataType::string())]);
    let expected_nested = StructType::new_unchecked(vec![StructField::nullable(
        "user",
        DataType::Struct(Box::new(expected_user_nested)),
    )]);

    let expected_user_null =
        StructType::new_unchecked(vec![StructField::nullable("name", DataType::long())]);
    let expected_null = StructType::new_unchecked(vec![StructField::nullable(
        "user",
        DataType::Struct(Box::new(expected_user_null)),
    )]);

    let expected = expected_stats(expected_null, expected_nested);

    assert_eq!(&expected, &stats_schema);
}

#[test]
fn test_empty_requested_columns() {
    let config = default_config();
    let file_schema = StructType::new_unchecked(vec![
        StructField::nullable("id", DataType::long()),
        StructField::nullable("name", DataType::string()),
    ]);

    // Empty columns list should return the full schema (same as None)
    let columns: Vec<ColumnName> = vec![];
    let stats_schema = expected_stats_schema(
        &file_schema,
        &config,
        None,
        Some(&columns),
    )
    .unwrap();
    let full_stats_schema = expected_stats_schema(
        &file_schema,
        &config,
        None,
        None,
    )
    .unwrap();

    assert_eq!(&full_stats_schema, &stats_schema);
}

#[test]
fn test_mixed_nested_and_top_requested() {
    let config = default_config();
    let user_struct = StructType::new_unchecked(vec![
        StructField::nullable("name", DataType::string()),
        StructField::nullable("age", DataType::integer()),
    ]);
    let file_schema = StructType::new_unchecked(vec![
        StructField::nullable("id", DataType::long()),
        StructField::nullable("user", DataType::Struct(Box::new(user_struct))),
        StructField::nullable("value", DataType::double()),
    ]);

    let columns = vec![column(&["id"]), column(&["user", "age"])];
    let stats_schema = expected_stats_schema(
        &file_schema,
        &config,
        None,
        Some(&columns),
    )
    .unwrap();

    let expected_user_nested =
        StructType::new_unchecked(vec![StructField::nullable("age", DataType::integer())]);
    let expected_nested = StructType::new_unchecked(vec![
        StructField::nullable("id", DataType::long()),
        StructField::nullable(
            "user",
            DataType::Struct(Box::new(expected_user_nested.clone())),
        ),
    ]);

    let expected_user_null =
        StructType::new_unchecked(vec![StructField::nullable("age", DataType::long())]);
    let expected_null = StructType::new_unchecked(vec![
        StructField::nullable("id", DataType::long()),
        StructField::nullable("user", DataType::Struct(Box::new(expected_user_null))),
    ]);

    let expected = expected_stats(expected_null, expected_nested);

    assert_eq!(&expected, &stats_schema);
}

// ---------------------------------------------------------------------------------------------
// Further cases
// ---------------------------------------------------------------------------------------------

#[test]
fn all_columns_beyond_the_default_number() {
    let fields: Vec<StructField> = (0..40)
        .map(|i| StructField::nullable(&format!("c{i}"), DataType::long()))
        .collect();
    let schema = StructType::new_unchecked(fields);
    assert_eq!(stats_column_names(&schema, &default_config(), None).len(), 32);
    let config = StatsConfig {
        data_skipping_stats_columns: None,
        data_skipping_num_indexed_cols: Some(DataSkippingNumIndexedCols::AllColumns),
    };
    assert_eq!(stats_column_names(&schema, &config, None).len(), 40);
}

#[test]
fn required_columns_always_have_statistics() {
    let schema = StructType::new_unchecked(vec![
        StructField::nullable("a", DataType::long()),
        StructField::nullable("b", DataType::string()),
    ]);
    let required = vec![column(&["b"])];
    assert_eq!(
        stats_column_names(&schema, &first_columns(0), Some(&required)),
        vec![column(&["b"])]
    );
}

#[test]
fn nullable_schema_keeps_types() {
    let schema = StructType::new_unchecked(vec![StructField::not_null(
        "s",
        DataType::from(StructType::new_unchecked(vec![StructField::not_null(
            "x",
            DataType::date(),
        )])),
    )]);
    let nullable = schema_with_all_fields_nullable(&schema).unwrap();
    let expected = StructType::new_unchecked(vec![StructField::nullable(
        "s",
        DataType::from(StructType::new_unchecked(vec![StructField::nullable(
            "x",
            DataType::date(),
        )])),
    )]);
    assert_eq!(nullable, expected);
    assert!(schema_with_all_fields_nullable(&StructType::new_unchecked(vec![])).is_err());
}

#[test]
fn stats_of_referenced_columns() {
    let schema = StructType::new_unchecked(vec![
        StructField::not_null("a", DataType::integer()),
        StructField::nullable("b", DataType::boolean()),
    ]);
    let stats = build_stats_schema(&schema).unwrap();
    let counts = StructType::new_unchecked(vec![
        StructField::nullable("a", DataType::long()),
        StructField::nullable("b", DataType::long()),
    ]);
    assert_eq!(
        stats.field("nullCount").unwrap().data_type(),
        &DataType::from(counts)
    );
    assert!(build_stats_schema(&StructType::new_unchecked(vec![])).is_none());
}

#[test]
fn eligible_types() {
    assert!(is_skipping_eligible_datatype(&PrimitiveType::String));
    assert!(is_skipping_eligible_datatype(&PrimitiveType::Float16));
    assert!(is_skipping_eligible_datatype(&PrimitiveType::decimal(5, 2).unwrap()));
    assert!(!is_skipping_eligible_datatype(&PrimitiveType::Boolean));
    assert!(!is_skipping_eligible_datatype(&PrimitiveType::Binary));
}
