//! Struct types: their rules, their physical form, edits, walks and texts.
use delta_schema::column_mapping::ColumnMappingMode;
use delta_schema::column_name::ColumnName;
use delta_schema::error::{DeltaResult, Error};
use delta_schema::schema::edit::StructTypeBuilder;
use delta_schema::schema::metadata::{ColumnMetadataKey, MetadataColumnSpec, MetadataValue};
use delta_schema::schema::types::{ArrayType, DataType, MapType, StructField, StructType};

fn assert_result_error_with_message<T>(result: DeltaResult<T>, message: &str) {
    match result {
        Ok(_) => panic!("Expected an error with {message}"),
        Err(e) => assert!(e.text().contains(message), "got: {e:?}"),
    }
}

fn cm_field(name: &str, id: i64, data_type: DataType) -> StructField {
    StructField::not_null(name, data_type).with_metadata(vec![
        (
            ColumnMetadataKey::ColumnMappingId.as_ref().to_string(),
            MetadataValue::Number(id),
        ),
        (
            ColumnMetadataKey::ColumnMappingPhysicalName.as_ref().to_string(),
            MetadataValue::String(format!("col-{name}")),
        ),
    ])
}

fn nested_with_metadata_column() -> StructType {
    StructType::new_unchecked(vec![StructField::create_metadata_column(
        "nested_row_index",
        MetadataColumnSpec::RowIndex,
    )])
}

#[test]
fn test_make_physical_no_column_mapping() {
    let field = StructField::nullable(
        "e",
        DataType::from(ArrayType::new(
            DataType::from(StructType::new_unchecked(vec![StructField::not_null(
                "d",
                DataType::integer(),
            )])),
            true,
        )),
    );
    let physical_field = field.make_physical(ColumnMappingMode::Disabled).unwrap();

    assert_eq!(physical_field.name, "e");
    assert!(physical_field
        .get_config_value(&ColumnMetadataKey::ColumnMappingId)
        .is_none());
    assert!(physical_field
        .get_config_value(&ColumnMetadataKey::ColumnMappingPhysicalName)
        .is_none());

    let DataType::Array(atype) = physical_field.data_type else {
        panic!("Expected an Array");
    };
    let DataType::Struct(stype) = atype.element_type else {
        panic!("Expected a Struct");
    };
    let struct_field = stype.field_at_index(0).unwrap();
    assert_eq!(struct_field.name, "d");
}

#[test]
fn test_make_physical_rejects_unannotated_leaf_in_deep_nesting() {
    let leaf = StructType::new_unchecked(vec![StructField::nullable("leaf", DataType::integer())]);
    let mid = StructType::new_unchecked(vec![cm_field(
        "mid_field",
        2,
        DataType::from(MapType::new(
            DataType::string(),
            DataType::from(leaf),
            true,
        )),
    )]);
    let schema = StructType::new_unchecked(vec![cm_field(
        "top",
        1,
        DataType::from(ArrayType::new(DataType::from(mid), true)),
    )]);
    let field = schema.fields()[0];
    let err = field.make_physical(ColumnMappingMode::Name).unwrap_err();
    assert!(
        err.text()
            .contains("top.`<array element>`.mid_field.`<map value>`.leaf"),
        "Expected full nested path in error, got: {err:?}"
    );
}

#[test]
fn test_make_physical_rejects_duplicate_column_mapping_ids() {
    let inner = StructType::new_unchecked(vec![
        cm_field("x", 3, DataType::integer()),
        cm_field("y", 4, DataType::string()),
    ]);
    let schema = StructType::new_unchecked(vec![
        cm_field("a", 1, DataType::integer()),
        cm_field(
            "b",
            2,
            DataType::from(ArrayType::new(DataType::Struct(Box::new(inner)), true)),
        ),
        cm_field("c", 3, DataType::string()),
    ]);
    assert_result_error_with_message(
        schema.make_physical(ColumnMappingMode::Id),
        "Duplicate column mapping ID",
    );
}

#[test]
fn test_make_physical_passes_metadata_column_through() {
    let field =
        StructField::create_metadata_column("_metadata.row_index", MetadataColumnSpec::RowIndex);
    for mode in [
        ColumnMappingMode::Disabled,
        ColumnMappingMode::Name,
        ColumnMappingMode::Id,
    ] {
        let physical = field.make_physical(mode).unwrap();
        assert_eq!(physical.name(), "_metadata.row_index");
        assert!(physical.is_metadata_column());
    }
}

#[test]
fn test_make_physical_rejects_metadata_column_with_cm_annotations() {
    let field =
        StructField::create_metadata_column("_metadata.row_index", MetadataColumnSpec::RowIndex)
            .add_metadata(vec![(
                ColumnMetadataKey::ColumnMappingPhysicalName.as_ref().to_string(),
                MetadataValue::String("phys".to_string()),
            )]);
    assert_result_error_with_message(
        field.make_physical(ColumnMappingMode::Name),
        "must not have column mapping annotations",
    );
}

#[test]
fn test_add_column() -> DeltaResult<()> {
    let schema = StructType::try_new(vec![StructField::nullable("col1", DataType::string())])?;

    let new_field = StructField::nullable("col2", DataType::integer());
    let updated_schema = schema.add(vec![new_field])?;

    assert_eq!(updated_schema.fields().len(), 2);
    assert!(updated_schema.contains("col1"));
    assert!(updated_schema.contains("col2"));
    Ok(())
}

#[test]
fn test_add_metadata_column() -> DeltaResult<()> {
    let schema =
        StructType::try_new(vec![StructField::nullable("regular_col", DataType::string())])?;

    let schema_with_metadata =
        schema.add_metadata_column("my_row_index", MetadataColumnSpec::RowIndex)?;

    assert_eq!(schema_with_metadata.fields().len(), 2);
    assert!(schema_with_metadata.contains_metadata_column(&MetadataColumnSpec::RowIndex));
    assert!(schema_with_metadata.contains("my_row_index"));
    assert_eq!(
        schema_with_metadata.index_of_metadata_column(&MetadataColumnSpec::RowIndex),
        Some(&1)
    );
    Ok(())
}

#[test]
fn test_duplicate_metadata_columns() -> DeltaResult<()> {
    let schema =
        StructType::try_new(vec![StructField::nullable("regular_col", DataType::string())])?;

    let schema_with_metadata =
        schema.add_metadata_column("row_index1", MetadataColumnSpec::RowIndex)?;

    // Adding another row index metadata column fails
    let result =
        schema_with_metadata.add_metadata_column("row_index2", MetadataColumnSpec::RowIndex);

    assert_result_error_with_message(result, "Duplicate metadata column");
    Ok(())
}

#[test]
fn test_duplicate_field_name_case_insensitive() {
    let result = StructType::try_new(vec![
        StructField::nullable("Value", DataType::integer()),
        StructField::nullable("value", DataType::string()),
    ]);
    assert_result_error_with_message(result, "Duplicate field name (case-insensitive)");
}

#[test]
fn test_duplicate_field_name_exact() {
    let result = StructType::try_new(vec![
        StructField::nullable("id", DataType::integer()),
        StructField::nullable("id", DataType::string()),
    ]);
    assert_result_error_with_message(result, "Duplicate field name (case-insensitive)");
}

#[test]
fn test_nested_metadata_columns_validation_struct() -> DeltaResult<()> {
    let result = StructType::try_new(vec![
        StructField::nullable("regular_col", DataType::string()),
        StructField::nullable(
            "nested",
            DataType::Struct(Box::new(nested_with_metadata_column())),
        ),
    ]);

    assert_result_error_with_message(result, "only allowed at the top level");
    Ok(())
}

#[test]
fn test_nested_metadata_columns_validation_array() -> DeltaResult<()> {
    let array_type = ArrayType::new(
        DataType::Struct(Box::new(nested_with_metadata_column())),
        true,
    );

    let result = StructType::try_new(vec![
        StructField::nullable("regular_col", DataType::string()),
        StructField::nullable("array_col", DataType::Array(Box::new(array_type))),
    ]);

    assert_result_error_with_message(result, "only allowed at the top level");
    Ok(())
}

#[test]
fn test_nested_metadata_columns_validation_map() -> DeltaResult<()> {
    let nested_struct = nested_with_metadata_column();

    for map_type in [
        MapType::new(
            DataType::Struct(Box::new(nested_struct.clone())),
            DataType::string(),
            true,
        ),
        MapType::new(
            DataType::string(),
            DataType::Struct(Box::new(nested_struct)),
            true,
        ),
    ] {
        let result = StructType::try_new(vec![
            StructField::nullable("regular_col", DataType::string()),
            StructField::nullable("map_col", DataType::MapOf(Box::new(map_type))),
        ]);

        assert_result_error_with_message(result, "only allowed at the top level");
    }

    Ok(())
}

#[test]
fn test_column_identifier_trait() -> DeltaResult<()> {
    let schema = StructType::try_new(vec![
        StructField::nullable("regular_col", DataType::string()),
        StructField::create_metadata_column("row_index_col", MetadataColumnSpec::RowIndex),
    ])?;

    assert!(schema.contains("regular_col"));
    assert!(schema.contains("row_index_col"));
    assert!(!schema.contains("nonexistent"));

    assert!(schema.contains(&"regular_col".to_string()));
    assert!(schema.contains(&"row_index_col".to_string()));

    assert!(schema.contains_metadata_column(&MetadataColumnSpec::RowIndex));
    assert!(!schema.contains_metadata_column(&MetadataColumnSpec::RowId));
    Ok(())
}

#[test]
fn test_all_metadata_column_specs() -> DeltaResult<()> {
    let schema =
        StructType::try_new(vec![StructField::nullable("regular_col", DataType::string())])?;

    let schema = schema
        .add_metadata_column("row_index", MetadataColumnSpec::RowIndex)?
        .add_metadata_column("row_id", MetadataColumnSpec::RowId)?
        .add_metadata_column("row_commit_version", MetadataColumnSpec::RowCommitVersion)?;

    assert_eq!(schema.fields().len(), 4);
    assert!(schema.contains_metadata_column(&MetadataColumnSpec::RowIndex));
    assert!(schema.contains_metadata_column(&MetadataColumnSpec::RowId));
    assert!(schema.contains_metadata_column(&MetadataColumnSpec::RowCommitVersion));

    assert_eq!(
        schema.index_of_metadata_column(&MetadataColumnSpec::RowIndex),
        Some(&1)
    );
    assert_eq!(
        schema.index_of_metadata_column(&MetadataColumnSpec::RowId),
        Some(&2)
    );
    assert_eq!(
        schema.index_of_metadata_column(&MetadataColumnSpec::RowCommitVersion),
        Some(&3)
    );
    Ok(())
}

#[test]
fn test_display_struct_type_stable_output() -> DeltaResult<()> {
    let nested_field_with_metadata =
        StructField::create_metadata_column("nested_row_index", MetadataColumnSpec::RowIndex);
    let inner_struct =
        StructType::new_unchecked(vec![StructField::new("q", DataType::long(), false)]);
    let nested_struct = StructType::new_unchecked(vec![
        nested_field_with_metadata,
        StructField::new("x", DataType::double(), true),
        StructField::new(
            "inner_struct",
            DataType::Struct(Box::new(inner_struct)),
            false,
        ),
    ]);
    let array_type = ArrayType::new(DataType::Struct(Box::new(nested_struct.clone())), true);
    let map_type = MapType::new(
        DataType::Struct(Box::new(nested_struct.clone())),
        DataType::Struct(Box::new(nested_struct.clone())),
        true,
    );
    let fields = vec![
        StructField::new("x", DataType::double(), true),
        StructField::new("y", DataType::float(), false),
        StructField::new("z", DataType::long(), true),
        StructField::new("s", DataType::from(nested_struct.clone()), false),
        StructField::nullable("array_col", DataType::Array(Box::new(array_type))),
        StructField::nullable("map_col", DataType::MapOf(Box::new(map_type))),
        StructField::new("a", DataType::long(), true),
    ];

    let struct_type = StructType::new_unchecked(fields);
    assert_eq!(
        struct_type.text(),
        "struct:
├─x: double (is nullable: true, metadata: {})
├─y: float (is nullable: false, metadata: {})
├─z: long (is nullable: true, metadata: {})
├─s: struct<nested_row_index: long, x: double, inner_struct: struct<q: long>> (is nullable: false, metadata: {})
│  ├─nested_row_index: long (is nullable: false, metadata: {delta.metadataSpec: String(\"row_index\")})
│  ├─x: double (is nullable: true, metadata: {})
│  └─inner_struct: struct<q: long> (is nullable: false, metadata: {})
│     └─q: long (is nullable: false, metadata: {})
├─array_col: array<struct<nested_row_index: long, x: double, inner_struct: struct<q: long>>> (is nullable: true, metadata: {})
│  └─array_element: struct<nested_row_index: long, x: double, inner_struct: struct<q: long>>
│     ├─nested_row_index: long (is nullable: false, metadata: {delta.metadataSpec: String(\"row_index\")})
│     ├─x: double (is nullable: true, metadata: {})
│     └─inner_struct: struct<q: long> (is nullable: false, metadata: {})
│        └─q: long (is nullable: false, metadata: {})
├─map_col: map<struct<nested_row_index: long, x: double, inner_struct: struct<q: long>>, struct<nested_row_index: long, x: double, inner_struct: struct<q: long>>> (is nullable: true, metadata: {})
│  ├─map_key: struct<nested_row_index: long, x: double, inner_struct: struct<q: long>>
│  │  ├─nested_row_index: long (is nullable: false, metadata: {delta.metadataSpec: String(\"row_index\")})
│  │  ├─x: double (is nullable: true, metadata: {})
│  │  └─inner_struct: struct<q: long> (is nullable: false, metadata: {})
│  │     └─q: long (is nullable: false, metadata: {})
│  └─map_value: struct<nested_row_index: long, x: double, inner_struct: struct<q: long>>
│     ├─nested_row_index: long (is nullable: false, metadata: {delta.metadataSpec: String(\"row_index\")})
│     ├─x: double (is nullable: true, metadata: {})
│     └─inner_struct: struct<q: long> (is nullable: false, metadata: {})
│        └─q: long (is nullable: false, metadata: {})
└─a: long (is nullable: true, metadata: {})
"
    );

    let schema =
        StructType::try_new(vec![StructField::nullable("regular_col", DataType::string())])?;
    let schema = schema
        .add_metadata_column("row_index", MetadataColumnSpec::RowIndex)?
        .add_metadata_column("row_id", MetadataColumnSpec::RowId)?
        .add_metadata_column("row_commit_version", MetadataColumnSpec::RowCommitVersion)?;
    assert_eq!(
        schema.text(),
        "struct:
├─regular_col: string (is nullable: true, metadata: {})
├─row_index: long (is nullable: false, metadata: {delta.metadataSpec: String(\"row_index\")})
├─row_id: long (is nullable: false, metadata: {delta.metadataSpec: String(\"row_id\")})
└─row_commit_version: long (is nullable: false, metadata: {delta.metadataSpec: String(\"row_commit_version\")})
"
    );
    Ok(())
}

#[test]
fn test_builder_empty() {
    let schema = StructType::builder().build().unwrap();
    assert_eq!(schema.num_fields(), 0)
}

#[test]
fn test_builder_add_fields() {
    let schema = StructType::builder()
        .add_field(StructField::new("id", DataType::integer(), false))
        .add_field(StructField::new("name", DataType::string(), true))
        .build()
        .unwrap();

    assert_eq!(schema.num_fields(), 2);
    assert_eq!(schema.field_at_index(0).unwrap().name(), "id");
    assert_eq!(schema.field_at_index(1).unwrap().name(), "name");
}

#[test]
fn test_builder_from_schema() {
    let base_schema =
        StructType::try_new(vec![StructField::new("id", DataType::integer(), false)]).unwrap();

    let extended_schema = StructTypeBuilder::from_schema(&base_schema)
        .add_field(StructField::new("name", DataType::string(), true))
        .build()
        .unwrap();

    assert_eq!(extended_schema.num_fields(), 2);
    assert_eq!(extended_schema.field_at_index(0).unwrap().name(), "id");
    assert_eq!(extended_schema.field_at_index(1).unwrap().name(), "name");
}

fn id_and_name() -> StructType {
    StructType::try_new(vec![
        StructField::new("id", DataType::integer(), false),
        StructField::new("name", DataType::string(), true),
    ])
    .unwrap()
}

fn only_id() -> StructType {
    StructType::try_new(vec![StructField::new("id", DataType::integer(), false)]).unwrap()
}

#[test]
fn test_with_field_inserted_empty_struct() {
    let schema = StructType::try_new(vec![]).unwrap();
    let schema = schema
        .with_field_inserted_after(None, StructField::new("age", DataType::string(), true))
        .expect("with field inserted should produce a valid schema");
    assert_eq!(schema.num_fields(), 1);
    assert_eq!(schema.field_at_index(0).unwrap().name(), "age");
}

#[test]
fn test_with_field_inserted() {
    let schema = id_and_name()
        .with_field_inserted_after(Some("id"), StructField::new("age", DataType::string(), true))
        .expect("with field inserted should produce a valid schema");
    assert_eq!(schema.num_fields(), 3);
    assert_eq!(schema.field_at_index(0).unwrap().name(), "id");
    assert_eq!(schema.field_at_index(1).unwrap().name(), "age");
    assert_eq!(schema.field_at_index(2).unwrap().name(), "name");
}

#[test]
fn test_with_field_inserted_append_to_end() {
    let schema = id_and_name()
        .with_field_inserted_after(None, StructField::new("age", DataType::string(), true))
        .expect("with field inserted should produce a valid schema");

    assert_eq!(schema.num_fields(), 3);
    assert_eq!(schema.field_at_index(0).unwrap().name(), "id");
    assert_eq!(schema.field_at_index(1).unwrap().name(), "name");
    assert_eq!(schema.field_at_index(2).unwrap().name(), "age");
}

#[test]
fn test_with_field_inserted_after_non_existent_field() {
    let new_schema = only_id().with_field_inserted_after(
        Some("nonexistent"),
        StructField::new("name", DataType::string(), true),
    );
    assert!(new_schema.is_err());
}

#[test]
fn test_with_field_inserted_after_duplicate_field() {
    let new_schema = id_and_name().with_field_inserted_after(
        Some("name"),
        StructField::new("id", DataType::string(), true),
    );
    assert!(new_schema.is_err());
    assert_result_error_with_message(new_schema, "Field id already exists");
}

#[test]
fn test_with_field_inserted_before() {
    let schema = id_and_name()
        .with_field_inserted_before(
            Some("name"),
            StructField::new("age", DataType::string(), true),
        )
        .expect("with field inserted before should produce a valid schema");
    assert_eq!(schema.num_fields(), 3);
    assert_eq!(schema.field_at_index(0).unwrap().name(), "id");
    assert_eq!(schema.field_at_index(1).unwrap().name(), "age");
    assert_eq!(schema.field_at_index(2).unwrap().name(), "name");
}

#[test]
fn test_with_field_inserted_before_duplicate_field() {
    let new_schema = id_and_name().with_field_inserted_before(
        Some("name"),
        StructField::new("id", DataType::string(), true),
    );
    assert!(new_schema.is_err());
    assert_result_error_with_message(new_schema, "Field id already exists");
}

#[test]
fn test_with_field_inserted_before_at_beginning() {
    let schema = id_and_name()
        .with_field_inserted_before(None, StructField::new("age", DataType::string(), true))
        .expect("with field inserted before should produce a valid schema");
    assert_eq!(schema.num_fields(), 3);
    assert_eq!(schema.field_at_index(0).unwrap().name(), "age");
    assert_eq!(schema.field_at_index(1).unwrap().name(), "id");
    assert_eq!(schema.field_at_index(2).unwrap().name(), "name");
}

#[test]
fn test_with_field_inserted_before_non_existent_field() {
    let new_schema = only_id().with_field_inserted_before(
        Some("nonexistent"),
        StructField::new("name", DataType::string(), true),
    );
    assert!(new_schema.is_err());
}

#[test]
fn test_with_field_inserted_before_empty_struct() {
    let schema = StructType::try_new(vec![]).unwrap();
    let schema = schema
        .with_field_inserted_before(None, StructField::new("age", DataType::string(), true))
        .expect("with field inserted before on empty struct should succeed");
    assert_eq!(schema.num_fields(), 1);
    assert_eq!(schema.field_at_index(0).unwrap().name(), "age");
}

#[test]
fn test_with_field_removed() {
    let new_schema = only_id().with_field_removed("id");
    assert_eq!(new_schema.num_fields(), 0);
}

#[test]
fn test_with_field_removed_non_existent_field() {
    let new_schema = only_id().with_field_removed("nonexistent");
    assert_eq!(new_schema.num_fields(), 1);
    assert_eq!(new_schema.field_at_index(0).unwrap().name(), "id");
}

#[test]
fn test_with_field_replaced() {
    let new_schema = only_id()
        .with_field_replaced("id", StructField::new("name", DataType::string(), true))
        .unwrap();

    assert_eq!(new_schema.num_fields(), 1);
    assert_eq!(new_schema.field_at_index(0).unwrap().name(), "name");
}

#[test]
fn test_with_field_replaced_non_existent_field() {
    let new_schema = only_id().with_field_replaced(
        "nonexistent",
        StructField::new("name", DataType::string(), true),
    );
    assert!(new_schema.is_err(), "Expected error for non-existent field");
}

fn level_three() -> StructType {
    StructType::new_unchecked(vec![StructField::new("c", DataType::double(), false)])
}

fn level_two() -> StructType {
    StructType::new_unchecked(vec![StructField::new(
        "b",
        DataType::Struct(Box::new(level_three())),
        false,
    )])
}

/// Schema: { a: { b: { c: double } } }, for walks at depths 1, 2, and 3.
fn walk_test_schema() -> StructType {
    StructType::new_unchecked(vec![StructField::new(
        "a",
        DataType::Struct(Box::new(level_two())),
        false,
    )])
}

fn column(path: &[&str]) -> ColumnName {
    ColumnName::new(path.iter().map(|s| s.to_string()).collect())
}

#[test]
fn test_walk_column_fields_happy() {
    for (col_path, expected_leaf_type) in [
        (vec!["a"], DataType::Struct(Box::new(level_two()))),
        (vec!["a", "b"], DataType::Struct(Box::new(level_three()))),
        (vec!["a", "b", "c"], DataType::double()),
    ] {
        let schema = walk_test_schema();
        let fields = schema.walk_column_fields(&column(&col_path)).unwrap();
        assert_eq!(fields.len(), col_path.len());
        for (field, name) in fields.iter().zip(col_path.iter()) {
            assert_eq!(field.name(), *name);
        }
        assert_eq!(fields.last().unwrap().data_type(), &expected_leaf_type);
    }
}

#[test]
fn test_walk_column_fields_error() {
    for (col_path, expected_error) in [
        (vec![], "Column path cannot be empty"),
        (vec!["x"], "not found in schema"),
        (vec!["a", "x"], "not found in schema"),
        (vec!["a", "b", "c", "d"], "not a struct type"),
    ] {
        let schema = walk_test_schema();
        let result = schema.walk_column_fields(&column(&col_path));
        assert_result_error_with_message(result, expected_error);
    }
}

// ---------------------------------------------------------------------------------------------
// Further cases
// ---------------------------------------------------------------------------------------------

#[test]
fn metadata_columns_are_refused_at_any_depth() {
    let deep = || DataType::from(nested_with_metadata_column());
    for t in [
        DataType::from(ArrayType::new(DataType::from(ArrayType::new(deep(), true)), true)),
        DataType::from(StructType::new_unchecked(vec![StructField::nullable("s", deep())])),
        DataType::from(MapType::new(
            DataType::string(),
            DataType::from(ArrayType::new(deep(), true)),
            true,
        )),
    ] {
        let field = StructField::nullable("x", t);
        assert!(StructType::ensure_no_metadata_columns_in_field(&field).is_err());
        assert_result_error_with_message(
            StructType::try_new(vec![field]),
            "only allowed at the top level",
        );
    }
}

#[test]
fn edits_move_metadata_columns_along() -> DeltaResult<()> {
    let spec = MetadataColumnSpec::RowIndex;
    let schema = StructType::try_new(vec![
        StructField::create_metadata_column("pos", spec),
        StructField::nullable("a", DataType::string()),
    ])?;
    assert_eq!(schema.index_of_metadata_column(&spec), Some(&0));

    let longer = schema
        .clone()
        .with_field_inserted_before(None, StructField::nullable("first", DataType::long()))?;
    assert_eq!(longer.index_of_metadata_column(&spec), Some(&1));
    assert_eq!(longer.metadata_column(&spec).map(|f| f.name().as_str()), Some("pos"));
    assert!(longer.with_field_removed("first") == schema);

    let without = schema.clone().with_field_removed("pos");
    assert!(!without.contains_metadata_column(&spec));
    assert!(without.metadata_column(&spec).is_none());
    assert!(without.metadata_columns().is_empty());

    let plain =
        schema.with_field_replaced("pos", StructField::nullable("pos", DataType::long()))?;
    assert_eq!(plain.index_of_metadata_column(&spec), None);
    Ok(())
}

#[test]
fn a_later_field_of_the_same_name_keeps_the_metadata_column_in_place() {
    let schema = StructType::new_unchecked(vec![
        StructField::nullable("a", DataType::string()),
        StructField::nullable("a", DataType::long()),
        StructField::create_metadata_column("id", MetadataColumnSpec::RowId),
    ]);
    assert_eq!(schema.num_fields(), 2);
    assert_eq!(schema.index_of_metadata_column(&MetadataColumnSpec::RowId), Some(&1));
}

#[test]
fn a_replaced_field_is_found_under_its_own_name() {
    let new_field = || StructField::new("name", DataType::string(), true);
    let schema = StructType::try_new(vec![
        StructField::new("first", DataType::long(), true),
        StructField::new("id", DataType::integer(), false),
        StructField::new("last", DataType::long(), true),
    ])
    .unwrap();
    let replaced = schema.clone().with_field_replaced("id", new_field()).unwrap();
    assert!(replaced.field("name") == Some(&new_field()));
    assert!(replaced.field("id").is_none());
    assert!(!replaced.contains("id"));
    assert_eq!(replaced.index_of("name"), Some(1));
    assert_eq!(replaced.field_names(), vec!["first", "name", "last"]);
    assert!(replaced.project(&["name"]).is_ok());
    assert!(replaced.project(&["id"]).is_err());

    let same_name = StructField::new("id", DataType::string(), true);
    let kept = schema.clone().with_field_replaced("id", same_name.clone()).unwrap();
    assert!(kept.field("id") == Some(&same_name));
    assert_eq!(kept.index_of("id"), Some(1));

    assert_result_error_with_message(
        schema.with_field_replaced("id", StructField::nullable("last", DataType::long())),
        "Field last already exists",
    );
}

#[test]
fn names_in_lower_case_decide_on_duplicates() {
    let fields = || {
        vec![
            StructField::nullable("Value", DataType::integer()),
            StructField::nullable("other", DataType::string()),
        ]
    };
    let lowered = |a: &str, b: &str| vec![a.to_string(), b.to_string()];
    let s = StructType::try_new_with_lowered(fields(), &lowered("value", "other")).unwrap();
    assert!(s == StructType::try_new(fields()).unwrap());
    assert_result_error_with_message(
        StructType::try_new_with_lowered(fields(), &lowered("same", "same")),
        "Duplicate field name (case-insensitive): 'other'",
    );
}

#[test]
fn projection_follows_the_asked_order() {
    let schema = id_and_name();
    let projected = schema.project_as_struct(&["name", "id"]).unwrap();
    let names: Vec<_> = projected.fields().into_iter().map(|f| f.name().clone()).collect();
    assert_eq!(names, vec!["name", "id"]);
    match schema.project(&["name", "none"]) {
        Err(Error::MissingColumn(name)) => assert_eq!(name, "none"),
        other => panic!("unexpected {other:?}"),
    }
}

#[test]
fn insert_and_remove_gives_the_struct_back() {
    let schema = id_and_name()
        .with_field_inserted_before(Some("name"), StructField::nullable("x", DataType::date()))
        .unwrap()
        .with_field_removed("x");
    assert_eq!(schema, id_and_name());
}

#[test]
fn filtered_structs() {
    let schema = id_and_name();
    let kept = schema.with_fields_filtered(|f| f.is_nullable()).unwrap();
    assert_eq!(kept.num_fields(), 1);
    assert!(kept.contains("name"));
    let none = schema.with_fields_filtered_nonempty(|_| false);
    match none {
        Ok(r) => assert!(r.is_none()),
        Err(e) => panic!("{e:?}"),
    }
}

#[test]
fn leaves_of_nested_schema() {
    let schema = walk_test_schema();
    let leaves = schema.leaves(None);
    let (names, types) = leaves.as_ref();
    assert_eq!(names.len(), 1);
    assert_eq!(names[0], column(&["a", "b", "c"]));
    assert_eq!(types[0], DataType::double());
    let leaves = schema.leaves(Some("own"));
    let (names, _) = leaves.as_ref();
    assert_eq!(names[0], column(&["own", "a", "b", "c"]));
}

#[test]
fn total_struct_fields_counts_all_levels() {
    assert_eq!(walk_test_schema().total_struct_fields(), 3);
    let schema = StructType::new_unchecked(vec![StructField::nullable(
        "m",
        DataType::from(MapType::new(
            DataType::string(),
            DataType::from(ArrayType::new(DataType::from(level_two()), true)),
            true,
        )),
    )]);
    assert_eq!(schema.total_struct_fields(), 3);
}

#[test]
fn column_names_are_quoted_where_needed() {
    assert_eq!(column(&["a", "b c", "d`e", "1x"]).text(), "a.`b c`.`d``e`.`1x`");
}

#[test]
fn lower_case_goes_beyond_ascii() {
    let result = StructType::try_new(vec![
        StructField::nullable("Ä", DataType::integer()),
        StructField::nullable("ä", DataType::string()),
    ]);
    assert_result_error_with_message(result, "Duplicate field name (case-insensitive)");
}

#[test]
fn decimals_out_of_range_are_refused() {
    assert!(matches!(DataType::decimal(39, 0), Err(Error::InvalidDecimal(_))));
    assert!(matches!(DataType::decimal(5, 6), Err(Error::InvalidDecimal(_))));
    assert!(matches!(DataType::decimal(0, 0), Err(Error::InvalidDecimal(_))));
    assert_eq!(DataType::decimal(38, 38).unwrap().text(), "decimal(38,38)");
}

#[test]
fn map_as_struct_of_key_and_value() {
    let map = MapType::new(DataType::string(), DataType::long(), true);
    let s = map.as_struct_schema("k".to_string(), "v".to_string());
    assert_eq!(s.num_fields(), 2);
    assert!(!s.field("k").unwrap().is_nullable());
    assert!(s.field("v").unwrap().is_nullable());
    assert_eq!(s.field("v").unwrap().data_type(), &DataType::long());
}
