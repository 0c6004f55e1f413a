//! Fields of schemas and the iteration over them.
use delta_schema::error::DeltaResult;
use delta_schema::schema::metadata::{
    ColumnMetadataKey, MetadataColumnSpec, MetadataValue, FILE_NAME,
};
use delta_schema::schema::types::{ArrayType, DataType, MapType, StructField, StructType};
use delta_schema::schema::walk::schema_has_invariants;

fn names_of(struct_type: &StructType) -> Vec<String> {
    struct_type.fields().iter().map(|f| f.name().clone()).collect()
}

fn with_invariant(name: &str, data_type: DataType, invariant: &str) -> StructField {
    StructField::nullable(name, data_type).add_metadata(vec![(
        ColumnMetadataKey::Invariants.as_ref().to_string(),
        MetadataValue::String(invariant.to_string()),
    )])
}

#[test]
fn test_parquet_field_id_key_value() {
    assert_eq!(
        ColumnMetadataKey::ParquetFieldId.as_ref(),
        "parquet.field.id"
    );
}

#[test]
fn test_num_fields() {
    let schema = StructType::new_unchecked(vec![]);
    assert!(schema.num_fields() == 0);
    let schema = StructType::new_unchecked(vec![
        StructField::nullable("a", DataType::long()),
        StructField::nullable("b", DataType::long()),
        StructField::nullable("c", DataType::long()),
        StructField::nullable("d", DataType::long()),
    ]);
    assert_eq!(schema.num_fields(), 4);
    let schema = StructType::new_unchecked(vec![
        StructField::nullable("b", DataType::long()),
        StructField::not_null("b", DataType::long()),
        StructField::nullable("c", DataType::long()),
        StructField::nullable("c", DataType::long()),
    ]);
    assert_eq!(schema.num_fields(), 2);
}

#[test]
fn test_has_invariants() {
    // Schema with no invariants
    let schema = StructType::new_unchecked(vec![
        StructField::nullable("a", DataType::string()),
        StructField::nullable("b", DataType::integer()),
    ]);
    assert!(!schema_has_invariants(&schema));

    // Schema with top-level invariant
    let field = with_invariant("c", DataType::string(), "c > 0");
    let schema = StructType::new_unchecked(vec![
        StructField::nullable("a", DataType::string()),
        field,
    ]);
    assert!(schema_has_invariants(&schema));

    // Schema with nested invariant in a struct
    let nested_field = StructField::nullable(
        "nested_c",
        DataType::try_struct_type(vec![with_invariant("d", DataType::integer(), "d > 0")])
            .unwrap(),
    );
    let schema = StructType::new_unchecked(vec![
        StructField::nullable("a", DataType::string()),
        StructField::nullable("b", DataType::integer()),
        nested_field,
    ]);
    assert!(schema_has_invariants(&schema));

    // Schema with nested invariant in an array of structs
    let array_field = StructField::nullable(
        "array_field",
        DataType::from(ArrayType::new(
            DataType::try_struct_type(vec![with_invariant("d", DataType::integer(), "d > 0")])
                .unwrap(),
            true,
        )),
    );
    let schema = StructType::new_unchecked(vec![
        StructField::nullable("a", DataType::string()),
        StructField::nullable("b", DataType::integer()),
        array_field,
    ]);
    assert!(schema_has_invariants(&schema));

    // Schema with nested invariant in a map value that's a struct
    let map_field = StructField::nullable(
        "map_field",
        DataType::from(MapType::new(
            DataType::string(),
            DataType::try_struct_type(vec![with_invariant("d", DataType::integer(), "d > 0")])
                .unwrap(),
            true,
        )),
    );
    let schema = StructType::new_unchecked(vec![
        StructField::nullable("a", DataType::string()),
        StructField::nullable("b", DataType::integer()),
        map_field,
    ]);
    assert!(schema_has_invariants(&schema));
}

#[test]
fn test_struct_type_iterator_basic() {
    let fields = vec![
        StructField::new("field1", DataType::string(), true),
        StructField::new("field2", DataType::integer(), false),
        StructField::new("field3", DataType::boolean(), true),
    ];
    let struct_type = StructType::new_unchecked(fields.clone());

    let field_names: Vec<_> = struct_type.fields().into_iter().map(|f| f.name()).collect();
    assert_eq!(field_names, vec!["field1", "field2", "field3"]);

    // The struct is still there after using fields()
    assert_eq!(struct_type.field("field1").unwrap().name, "field1");
}

#[test]
fn test_struct_type_into_iterator_owned() {
    let fields = vec![
        StructField::new("a", DataType::string(), true),
        StructField::new("b", DataType::integer(), false),
    ];
    let struct_type = StructType::new_unchecked(fields);

    let mut field_names = Vec::new();
    for field in struct_type.into_fields() {
        field_names.push(field.name);
    }
    assert_eq!(field_names, vec!["a", "b"]);
}

#[test]
fn test_struct_type_into_iterator_references() {
    let fields = vec![
        StructField::new("x", DataType::double(), true),
        StructField::new("y", DataType::float(), false),
        StructField::new("z", DataType::long(), true),
    ];
    let struct_type = StructType::new_unchecked(fields);

    let mut field_names = Vec::new();
    for field in struct_type.fields() {
        field_names.push(field.name().clone());
    }
    assert_eq!(field_names, vec!["x", "y", "z"]);

    // The struct is still there after iteration
    assert_eq!(struct_type.field("x").unwrap().name, "x");
}

#[test]
fn test_iterator_exact_size() {
    let fields = vec![
        StructField::new("field1", DataType::string(), true),
        StructField::new("field2", DataType::integer(), false),
        StructField::new("field3", DataType::boolean(), true),
        StructField::new("field4", DataType::date(), true),
    ];

    let struct_type = StructType::new_unchecked(fields.clone());
    let ref_iter = struct_type.fields();
    assert_eq!(ref_iter.len(), 4);

    let struct_type = StructType::new_unchecked(fields.clone());
    let into_ref_iter = struct_type.fields().into_iter();
    assert_eq!(into_ref_iter.len(), 4);

    let struct_type = StructType::new_unchecked(fields);
    let into_owned_iter = struct_type.into_fields().into_iter();
    assert_eq!(into_owned_iter.len(), 4);
}

#[test]
fn test_iterator_with_metadata() {
    let field_with_metadata = StructField::new("test_field", DataType::string(), true)
        .with_metadata(vec![(
            "key1".to_string(),
            MetadataValue::String("value1".to_string()),
        )]);

    let struct_type = StructType::new_unchecked(vec![field_with_metadata]);

    // Metadata is preserved through iteration
    for field in struct_type.fields() {
        assert_eq!(field.metadata().len(), 1);
        assert_eq!(
            field.metadata().get("key1"),
            Some(&MetadataValue::String("value1".to_string()))
        );
    }

    // And through consuming iteration
    for field in struct_type.into_fields() {
        assert_eq!(field.metadata().len(), 1);
        assert_eq!(
            field.metadata().get("key1"),
            Some(&MetadataValue::String("value1".to_string()))
        );
    }
}

#[test]
fn test_empty_struct_type_iterator() {
    let struct_type = StructType::new_unchecked(vec![]);

    assert_eq!(struct_type.fields().len(), 0);
    assert_eq!(struct_type.fields().into_iter().count(), 0);
    assert_eq!(struct_type.into_fields().into_iter().count(), 0);
}

#[test]
fn test_iterator_order_preservation() {
    let fields = vec![
        StructField::new("zebra", DataType::string(), true),
        StructField::new("apple", DataType::integer(), false),
        StructField::new("banana", DataType::boolean(), true),
    ];
    let struct_type = StructType::new_unchecked(fields);

    // Insertion order is preserved
    let field_names: Vec<_> = struct_type.fields().into_iter().map(|f| f.name()).collect();
    assert_eq!(field_names, vec!["zebra", "apple", "banana"]);

    assert_eq!(names_of(&struct_type), vec!["zebra", "apple", "banana"]);

    let owned_names: Vec<_> = struct_type.into_fields().into_iter().map(|f| f.name).collect();
    assert_eq!(owned_names, vec!["zebra", "apple", "banana"]);
}

#[test]
fn test_iterator_collect() {
    let original_fields = vec![
        StructField::new("field1", DataType::string(), true),
        StructField::new("field2", DataType::integer(), false),
    ];
    let struct_type = StructType::new_unchecked(original_fields.clone());

    let collected_refs: Vec<&StructField> = struct_type.fields();
    assert_eq!(collected_refs.len(), 2);
    assert_eq!(collected_refs[0].name, "field1");
    assert_eq!(collected_refs[1].name, "field2");

    let collected_owned: Vec<StructField> = struct_type.into_fields();
    assert_eq!(collected_owned.len(), 2);
    assert_eq!(collected_owned[0].name, "field1");
    assert_eq!(collected_owned[1].name, "field2");
}

#[test]
fn test_iterator_functional_methods() {
    let fields = vec![
        StructField::new("nullable_string", DataType::string(), true),
        StructField::new("required_int", DataType::integer(), false),
        StructField::new("nullable_bool", DataType::boolean(), true),
        StructField::new("required_long", DataType::long(), false),
    ];
    let struct_type = StructType::new_unchecked(fields);

    let nullable_count = struct_type.fields().into_iter().filter(|f| f.is_nullable()).count();
    assert_eq!(nullable_count, 2);

    let required_field_names: Vec<_> = struct_type
        .fields()
        .into_iter()
        .filter(|f| !f.is_nullable())
        .map(|f| f.name())
        .collect();
    assert_eq!(required_field_names, vec!["required_int", "required_long"]);

    for (index, field) in struct_type.fields().into_iter().enumerate() {
        match index {
            0 => assert_eq!(field.name, "nullable_string"),
            1 => assert_eq!(field.name, "required_int"),
            2 => assert_eq!(field.name, "nullable_bool"),
            3 => assert_eq!(field.name, "required_long"),
            _ => panic!("Unexpected field index: {index}"),
        }
    }
}

#[test]
fn test_double_ended_iterator_ref() {
    let fields = vec![
        StructField::new("first", DataType::string(), true),
        StructField::new("second", DataType::integer(), false),
        StructField::new("third", DataType::boolean(), true),
        StructField::new("fourth", DataType::long(), false),
    ];
    let struct_type = StructType::new_unchecked(fields);

    let mut iter = struct_type.fields().into_iter();

    // Forward iteration
    assert_eq!(iter.next().unwrap().name, "first");
    assert_eq!(iter.next().unwrap().name, "second");

    // Backward iteration
    assert_eq!(iter.next_back().unwrap().name, "fourth");
    assert_eq!(iter.next_back().unwrap().name, "third");

    // Exhausted
    assert!(iter.next().is_none());
    assert!(iter.next_back().is_none());
}

#[test]
fn test_double_ended_iterator_owned() {
    let fields = vec![
        StructField::new("alpha", DataType::string(), true),
        StructField::new("beta", DataType::integer(), false),
        StructField::new("gamma", DataType::boolean(), true),
    ];
    let struct_type = StructType::new_unchecked(fields);

    let mut iter = struct_type.into_fields().into_iter();

    assert_eq!(iter.next_back().unwrap().name, "gamma");
    assert_eq!(iter.next().unwrap().name, "alpha");
    assert_eq!(iter.next_back().unwrap().name, "beta");

    // Exhausted
    assert!(iter.next().is_none());
    assert!(iter.next_back().is_none());
}

#[test]
fn test_double_ended_iterator_collect_reverse() {
    let fields = vec![
        StructField::new("one", DataType::string(), true),
        StructField::new("two", DataType::integer(), false),
        StructField::new("three", DataType::boolean(), true),
    ];
    let struct_type = StructType::new_unchecked(fields);

    let reversed_names: Vec<_> =
        struct_type.fields().into_iter().rev().map(|f| f.name()).collect();
    assert_eq!(reversed_names, vec!["three", "two", "one"]);

    assert_eq!(struct_type.field("two").unwrap().name, "two");
}

#[test]
fn test_double_ended_iterator_with_into_iter_ref() {
    let fields = vec![
        StructField::new("x", DataType::double(), true),
        StructField::new("y", DataType::float(), false),
        StructField::new("z", DataType::long(), true),
    ];
    let struct_type = StructType::new_unchecked(fields);

    let mut iter = struct_type.fields().into_iter();

    // Forward and backward iteration mixed
    assert_eq!(iter.next().unwrap().name, "x");
    assert_eq!(iter.next_back().unwrap().name, "z");
    assert_eq!(iter.next().unwrap().name, "y");

    // Exhausted
    assert!(iter.next().is_none());
    assert!(iter.next_back().is_none());
}

#[test]
fn test_fused_iterator_ref() {
    let fields = vec![
        StructField::new("test1", DataType::string(), true),
        StructField::new("test2", DataType::integer(), false),
    ];
    let struct_type = StructType::new_unchecked(fields);

    let mut iter = struct_type.fields().into_iter();

    assert!(iter.next().is_some());
    assert!(iter.next().is_some());
    assert!(iter.next().is_none());

    // None again and again after the end
    assert!(iter.next().is_none());
    assert!(iter.next().is_none());
    assert!(iter.next().is_none());
}

#[test]
fn test_fused_iterator_owned() {
    let fields = vec![
        StructField::new("item1", DataType::string(), true),
        StructField::new("item2", DataType::integer(), false),
    ];
    let struct_type = StructType::new_unchecked(fields);

    let mut iter = struct_type.into_fields().into_iter();

    assert!(iter.next().is_some());
    assert!(iter.next().is_some());
    assert!(iter.next().is_none());

    assert!(iter.next().is_none());
    assert!(iter.next().is_none());
    assert!(iter.next().is_none());
}

#[test]
fn test_fused_iterator_with_into_iter_ref() {
    let fields = vec![StructField::new("field_a", DataType::boolean(), true)];
    let struct_type = StructType::new_unchecked(fields);

    let mut iter = struct_type.fields().into_iter();

    assert!(iter.next().is_some());
    assert!(iter.next().is_none());

    assert!(iter.next().is_none());
    assert!(iter.next().is_none());
}

#[test]
fn test_fused_double_ended_iterator_empty() {
    let struct_type = StructType::new_unchecked(vec![]);

    let mut iter = struct_type.fields().into_iter();

    assert!(iter.next().is_none());
    assert!(iter.next_back().is_none());

    assert!(iter.next().is_none());
    assert!(iter.next_back().is_none());
}

#[test]
fn test_double_ended_iterator_single_element() {
    let fields = vec![StructField::new("single", DataType::string(), true)];
    let struct_type = StructType::new_unchecked(fields);

    let mut iter = struct_type.fields().into_iter();

    assert_eq!(iter.next().unwrap().name, "single");
    assert!(iter.next().is_none());
    assert!(iter.next_back().is_none());

    let struct_type =
        StructType::new_unchecked(vec![StructField::new("single2", DataType::integer(), false)]);
    let mut iter = struct_type.into_fields().into_iter();

    assert_eq!(iter.next_back().unwrap().name, "single2");
    assert!(iter.next().is_none());
    assert!(iter.next_back().is_none());
}

#[test]
fn test_metadata_column_spec() -> DeltaResult<()> {
    // text_value
    assert_eq!(MetadataColumnSpec::RowIndex.text_value(), "row_index");
    assert_eq!(MetadataColumnSpec::RowId.text_value(), "row_id");
    assert_eq!(
        MetadataColumnSpec::RowCommitVersion.text_value(),
        "row_commit_version"
    );
    assert_eq!(MetadataColumnSpec::FilePath.text_value(), "_file");

    // data_type
    assert_eq!(MetadataColumnSpec::RowIndex.data_type(), DataType::long());
    assert_eq!(MetadataColumnSpec::RowId.data_type(), DataType::long());
    assert_eq!(
        MetadataColumnSpec::RowCommitVersion.data_type(),
        DataType::long()
    );
    assert_eq!(MetadataColumnSpec::FilePath.data_type(), DataType::string());

    // nullable
    assert!(!MetadataColumnSpec::RowIndex.nullable());
    assert!(!MetadataColumnSpec::RowId.nullable());
    assert!(!MetadataColumnSpec::RowCommitVersion.nullable());
    assert!(!MetadataColumnSpec::FilePath.nullable());

    // reserved_field_id
    assert_eq!(MetadataColumnSpec::RowIndex.reserved_field_id(), None);
    assert_eq!(MetadataColumnSpec::RowId.reserved_field_id(), None);
    assert_eq!(
        MetadataColumnSpec::RowCommitVersion.reserved_field_id(),
        None
    );
    assert_eq!(
        MetadataColumnSpec::FilePath.reserved_field_id(),
        Some(FILE_NAME)
    );

    // from_str
    assert_eq!(
        MetadataColumnSpec::from_str("row_index")?,
        MetadataColumnSpec::RowIndex
    );
    assert_eq!(
        MetadataColumnSpec::from_str("row_id")?,
        MetadataColumnSpec::RowId
    );
    assert_eq!(
        MetadataColumnSpec::from_str("row_commit_version")?,
        MetadataColumnSpec::RowCommitVersion
    );
    assert_eq!(
        MetadataColumnSpec::from_str("_file")?,
        MetadataColumnSpec::FilePath
    );

    // a text that names no column
    assert!(MetadataColumnSpec::from_str("invalid").is_err());

    Ok(())
}

#[test]
fn test_create_metadata_column() {
    let field =
        StructField::create_metadata_column("test_row_index", MetadataColumnSpec::RowIndex);

    assert_eq!(field.name(), "test_row_index");
    assert_eq!(field.data_type(), &DataType::long());
    assert!(!field.nullable);
    assert!(field.is_metadata_column());
    assert_eq!(
        field.get_metadata_column_spec(),
        Some(MetadataColumnSpec::RowIndex)
    );
}

#[test]
fn test_default_row_index_column() {
    let field = StructField::default_row_index_column();

    assert_eq!(field.name(), "_metadata.row_index");
    assert_eq!(field.data_type(), &DataType::long());
    assert!(!field.nullable);
    assert!(field.is_metadata_column());
    assert_eq!(
        field.get_metadata_column_spec(),
        Some(MetadataColumnSpec::RowIndex)
    );
}

// ---------------------------------------------------------------------------------------------
// Further cases
// ---------------------------------------------------------------------------------------------

#[test]
fn file_path_column_has_reserved_id() {
    let field = StructField::create_metadata_column("f", MetadataColumnSpec::FilePath);
    assert_eq!(field.data_type(), &DataType::string());
    assert_eq!(
        field.get_config_value(&ColumnMetadataKey::MetadataSpec),
        Some(&MetadataValue::String("_file".to_string()))
    );
    assert_eq!(MetadataColumnSpec::FilePath.reserved_field_id(), Some(2147483646));
}

#[test]
fn metadata_with_string_values_writes_texts() {
    let field = StructField::new("a", DataType::string(), true).with_metadata(vec![
        ("n".to_string(), MetadataValue::Number(12)),
        ("b".to_string(), MetadataValue::from(true)),
        ("s".to_string(), MetadataValue::from("x")),
    ]);
    let texts = field.metadata_with_string_values();
    assert_eq!(texts.len(), 3);
    assert_eq!(texts.get("n"), Some(&"12".to_string()));
    assert_eq!(texts.get("b"), Some(&"true".to_string()));
    assert_eq!(texts.get("s"), Some(&"x".to_string()));
}

#[test]
fn internal_columns_are_marked() {
    let field = StructField::new("a", DataType::string(), true);
    assert!(!field.is_internal_column());
    assert!(field.as_internal_column().is_internal_column());
}

#[test]
fn renamed_field_keeps_the_rest() {
    let field = StructField::new("a", DataType::date(), false)
        .with_metadata(vec![("k".to_string(), MetadataValue::Number(1))]);
    let renamed = field.with_name("b");
    assert_eq!(renamed.name(), "b");
    assert_eq!(renamed.data_type(), &DataType::date());
    assert!(!renamed.is_nullable());
    assert_eq!(renamed.metadata().get("k"), Some(&MetadataValue::Number(1)));
}

#[test]
fn annotations_are_found() {
    let plain = StructField::nullable("a", DataType::long());
    assert!(!plain.has_id_annotation());
    assert!(!plain.has_physical_name_annotation());
    let field = plain.add_metadata(vec![
        (
            "delta.columnMapping.id".to_string(),
            MetadataValue::Number(1),
        ),
        (
            "delta.columnMapping.physicalName".to_string(),
            MetadataValue::from("p"),
        ),
    ]);
    assert!(field.has_id_annotation());
    assert!(field.has_physical_name_annotation());
}
