//! Schemas as JSON.
use delta_schema::column_mapping::ColumnMappingMode;
use delta_schema::error::{DeltaResult, Error};
use delta_schema::schema::json_write::parse_json;
use delta_schema::schema::metadata::{ColumnMetadataKey, MetadataColumnSpec, MetadataValue};
use delta_schema::schema::types::{ArrayType, DataType, MapType, StructField, StructType};

fn read_field(data: &str) -> DeltaResult<StructField> {
    StructField::from_json_text(data)
}

fn read_type(data: &str) -> DeltaResult<DataType> {
    DataType::from_json_text(data)
}

fn example_schema_metadata() -> &'static str {
    r#"
            {
                "name": "e",
                "type": {
                    "type": "array",
                    "elementType": {
                        "type": "struct",
                        "fields": [
                            {
                                "name": "d",
                                "type": "integer",
                                "nullable": false,
                                "metadata": {
                                    "delta.columnMapping.id": 5,
                                    "delta.columnMapping.physicalName": "col-a7f4159c-53be-4cb0-b81a-f7e5240cfc49"
                                }
                            }
                        ]
                    },
                    "containsNull": true
                },
                "nullable": true,
                "metadata": {
                    "delta.columnMapping.id": 4,
                    "delta.columnMapping.physicalName": "col-5f422f40-de70-45b2-88ab-1d5c90e94db1",
                    "delta.identity.start": 2147483648
                }
            }"#
}

#[test]
fn test_serde_data_types() {
    let data = r#"
        {
            "name": "a",
            "type": "integer",
            "nullable": false,
            "metadata": {}
        }
        "#;
    let field = read_field(data).unwrap();
    assert_eq!(field.data_type, DataType::integer());

    let data = r#"
        {
            "name": "c",
            "type": {
                "type": "array",
                "elementType": "integer",
                "containsNull": false
            },
            "nullable": true,
            "metadata": {}
        }
        "#;
    let field = read_field(data).unwrap();
    assert!(matches!(field.data_type, DataType::Array(_)));

    let data = r#"
        {
            "name": "e",
            "type": {
                "type": "array",
                "elementType": {
                    "type": "struct",
                    "fields": [
                        {
                            "name": "d",
                            "type": "integer",
                            "nullable": false,
                            "metadata": {}
                        }
                    ]
                },
                "containsNull": true
            },
            "nullable": true,
            "metadata": {}
        }
        "#;
    let field = read_field(data).unwrap();
    assert!(matches!(field.data_type, DataType::Array(_)));
    match field.data_type {
        DataType::Array(array) => assert!(matches!(array.element_type, DataType::Struct(_))),
        _ => unreachable!(),
    }

    let data = r#"
        {
            "name": "f",
            "type": {
                "type": "map",
                "keyType": "string",
                "valueType": "string",
                "valueContainsNull": true
            },
            "nullable": true,
            "metadata": {}
        }
        "#;
    let field = read_field(data).unwrap();
    assert!(matches!(field.data_type, DataType::MapOf(_)));
}

#[test]
fn test_roundtrip_decimal() {
    let data = r#"
        {
            "name": "a",
            "type": "decimal(10, 2)",
            "nullable": false,
            "metadata": {}
        }
        "#;
    let field = read_field(data).unwrap();
    assert_eq!(field.data_type, DataType::decimal(10, 2).unwrap());

    let json_str = field.to_json_text();
    assert_eq!(
        json_str,
        r#"{"name":"a","type":"decimal(10,2)","nullable":false,"metadata":{}}"#
    );
}

#[test]
fn test_roundtrip_variant() {
    let data = r#"
        {
            "name": "v",
            "type": "variant",
            "nullable": false,
            "metadata": {}
        }
        "#;
    let field = read_field(data).unwrap();
    assert_eq!(field.data_type, DataType::unshredded_variant());

    let json_str = field.to_json_text();
    assert_eq!(
        json_str,
        r#"{"name":"v","type":"variant","nullable":false,"metadata":{}}"#
    );
}

#[test]
fn test_unshredded_variant() {
    let unshredded_variant_type = DataType::unshredded_variant();

    match &unshredded_variant_type {
        DataType::Variant(struct_type) => {
            let fields = struct_type.fields();
            assert_eq!(fields.len(), 2);

            assert_eq!(fields[0].name, "metadata");
            assert_eq!(fields[0].data_type, DataType::binary());
            assert!(!fields[0].nullable);

            assert_eq!(fields[1].name, "value");
            assert_eq!(fields[1].data_type, DataType::binary());
            assert!(!fields[1].nullable);
        }
        _ => panic!("Expected DataType::Variant, got {unshredded_variant_type:?}"),
    }
}

#[test]
fn test_unsupported_type_error_message() {
    for unsupported_type in ["interval second", "interval day", "money"] {
        let data = format!(
            r#"{{
                "name": "test_field",
                "type": "{unsupported_type}",
                "nullable": false,
                "metadata": {{}}
            }}"#
        );
        let result = read_field(&data);
        assert!(result.is_err());
        let err = result.unwrap_err();
        let expected_msg = format!("Unsupported Delta table type: '{unsupported_type}'");
        assert!(
            err.text().contains(&expected_msg),
            "Expected error message about unsupported type '{unsupported_type}', got: {err:?}"
        );
    }
}

#[test]
fn test_primitive_type_deserialization_still_works() {
    for (type_str, expected_type) in [
        ("string", DataType::string()),
        ("long", DataType::long()),
        ("integer", DataType::integer()),
        ("short", DataType::short()),
        ("byte", DataType::byte()),
        ("float16", DataType::float16()),
        ("float", DataType::float()),
        ("double", DataType::double()),
        ("boolean", DataType::boolean()),
        ("binary", DataType::binary()),
        ("date", DataType::date()),
        ("timestamp", DataType::timestamp()),
        ("timestamp_ntz", DataType::timestamp_ntz()),
    ] {
        let data = format!(
            r#"{{
                "name": "test_field",
                "type": "{type_str}",
                "nullable": false,
                "metadata": {{}}
            }}"#
        );
        let field = read_field(&data).unwrap();
        assert_eq!(field.data_type, expected_type);
    }
}

#[test]
fn test_decimal_with_primitive_deserializer() {
    for (precision, scale) in [(10, 2), (16, 4), (38, 10)] {
        let data = format!(
            r#"{{
                "name": "test_decimal",
                "type": "decimal({precision},{scale})",
                "nullable": false,
                "metadata": {{}}
            }}"#
        );
        let field = read_field(&data).unwrap();
        assert_eq!(field.data_type, DataType::decimal(precision, scale).unwrap());
    }
}

#[test]
fn test_invalid_decimal_format() {
    for (invalid_type, expected_error) in [
        ("decimal(invalid)", "Invalid precision in decimal"),
        ("decimal(10)", "Invalid scale in decimal"),
        ("decimal()", "Invalid precision in decimal"),
        ("decimal(10,2,99)", "Invalid decimal format (expected 2 parts)"),
    ] {
        let data = format!(
            r#"{{
                "name": "invalid",
                "type": "{invalid_type}",
                "nullable": false,
                "metadata": {{}}
            }}"#
        );
        let result = read_field(&data);
        assert!(result.is_err());
        let err = result.unwrap_err();
        assert!(
            err.text().contains(expected_error),
            "Expected error containing '{expected_error}', got: {err:?}"
        );
    }
}

#[test]
fn test_data_type_deserialization() {
    for (type_json, expected) in [
        (
            r#"{"type": "array", "elementType": "integer", "containsNull": false}"#,
            DataType::Array(Box::new(ArrayType::new(DataType::integer(), false))),
        ),
        (
            r#"{"type": "struct", "fields": [{"name": "a", "type": "integer", "nullable": false, "metadata": {}}, {"name": "b", "type": "string", "nullable": true, "metadata": {}}]}"#,
            DataType::Struct(Box::new(StructType::new_unchecked(vec![
                StructField::new("a", DataType::integer(), false),
                StructField::new("b", DataType::string(), true),
            ]))),
        ),
        (
            r#"{"type": "map", "keyType": "string", "valueType": "integer", "valueContainsNull": true}"#,
            DataType::MapOf(Box::new(MapType::new(
                DataType::string(),
                DataType::integer(),
                true,
            ))),
        ),
        ("\"string\"", DataType::string()),
        ("\"long\"", DataType::long()),
        ("\"integer\"", DataType::integer()),
        ("\"short\"", DataType::short()),
        ("\"byte\"", DataType::byte()),
        ("\"float16\"", DataType::float16()),
        ("\"float\"", DataType::float()),
        ("\"double\"", DataType::double()),
        ("\"boolean\"", DataType::boolean()),
        ("\"binary\"", DataType::binary()),
        ("\"date\"", DataType::date()),
        ("\"timestamp\"", DataType::timestamp()),
        ("\"timestamp_ntz\"", DataType::timestamp_ntz()),
        ("\"variant\"", DataType::unshredded_variant()),
    ] {
        let data_type = read_type(type_json).unwrap();
        assert_eq!(data_type, expected);
    }
}

#[test]
fn test_make_physical_rejects_annotated_fields_when_column_mapping_disabled() {
    let data = example_schema_metadata();
    let field = read_field(data).unwrap();
    assert!(field.make_physical(ColumnMappingMode::Disabled).is_err());
}

#[test]
fn test_make_physical_column_mapping() {
    [ColumnMappingMode::Name, ColumnMappingMode::Id]
        .into_iter()
        .for_each(|mode| {
            let data = example_schema_metadata();

            let field = read_field(data).unwrap();

            let col_id = field
                .get_config_value(&ColumnMetadataKey::ColumnMappingId)
                .unwrap();
            let id_start = field
                .get_config_value(&ColumnMetadataKey::IdentityStart)
                .unwrap();
            assert!(matches!(col_id, MetadataValue::Number(num) if *num == 4));
            assert!(matches!(id_start, MetadataValue::Number(num) if *num == 2147483648i64));
            assert_eq!(
                field.physical_name(mode),
                "col-5f422f40-de70-45b2-88ab-1d5c90e94db1"
            );
            let physical_field = field.make_physical(mode).unwrap();

            assert!(matches!(
                physical_field.get_config_value(&ColumnMetadataKey::ParquetFieldId),
                Some(MetadataValue::Number(4))
            ));
            assert!(matches!(
                physical_field.get_config_value(&ColumnMetadataKey::ColumnMappingId),
                Some(MetadataValue::Number(4))
            ));

            assert_eq!(
                physical_field.name,
                "col-5f422f40-de70-45b2-88ab-1d5c90e94db1"
            );
            let DataType::Array(atype) = physical_field.data_type else {
                panic!("Expected an Array");
            };
            let DataType::Struct(stype) = atype.element_type else {
                panic!("Expected a Struct");
            };

            let struct_field = stype.field_at_index(0).unwrap();
            assert_eq!(
                struct_field.name,
                "col-a7f4159c-53be-4cb0-b81a-f7e5240cfc49"
            );

            assert!(matches!(
                struct_field.get_config_value(&ColumnMetadataKey::ParquetFieldId),
                Some(MetadataValue::Number(5))
            ));
            assert!(matches!(
                struct_field.get_config_value(&ColumnMetadataKey::ColumnMappingId),
                Some(MetadataValue::Number(5))
            ));
        });
}

#[test]
fn test_invalid_decimal() {
    let data = r#"
        {
            "name": "a",
            "type": "decimal(39, 10)",
            "nullable": false,
            "metadata": {}
        }
        "#;
    assert!(read_field(data).is_err());

    let data = r#"
        {
            "name": "a",
            "type": "decimal(10, 39)",
            "nullable": false,
            "metadata": {}
        }
        "#;
    assert!(read_field(data).is_err());
}

#[test]
fn test_metadata_value_to_string() {
    assert_eq!(MetadataValue::Number(0).text(), "0");
    assert_eq!(MetadataValue::String("hello".to_string()).text(), "hello");
    assert_eq!(MetadataValue::Boolean(true).text(), "true");
    assert_eq!(MetadataValue::Boolean(false).text(), "false");
    let object_json: serde_json::Value = serde_json::from_str(r#"{ "an": "object" }"#).unwrap();
    assert_eq!(
        MetadataValue::Other(object_json).text(),
        "{\"an\":\"object\"}"
    );
    let array_json: serde_json::Value = serde_json::from_str(r#"["an", "array"]"#).unwrap();
    assert_eq!(
        MetadataValue::Other(array_json).text(),
        "[\"an\",\"array\"]"
    );
}

#[test]
fn test_metadata_column_serialization() -> DeltaResult<()> {
    let field = StructField::create_metadata_column("test_row_id", MetadataColumnSpec::RowId);

    let json = field.to_json_text();
    let deserialized = read_field(&json)?;

    assert_eq!(deserialized.name(), field.name());
    assert_eq!(deserialized.data_type(), field.data_type());
    assert_eq!(deserialized.nullable, field.nullable);
    assert!(deserialized.is_metadata_column());
    assert_eq!(
        deserialized.get_metadata_column_spec(),
        Some(MetadataColumnSpec::RowId)
    );
    Ok(())
}

#[test]
fn test_physical_name_with_mode_none() {
    let field_json = r#"{
            "name": "logical_name",
            "type": "string",
            "nullable": true,
            "metadata": {
                "delta.columnMapping.physicalName": "physical_name_col123"
            }
        }"#;
    let field = read_field(field_json).unwrap();

    // The logical name is given even though a physical name exists
    assert_eq!(field.physical_name(ColumnMappingMode::Disabled), "logical_name");
}

#[test]
fn test_physical_name_with_mode_id() {
    let field_json = r#"{
            "name": "logical_name",
            "type": "string",
            "nullable": true,
            "metadata": {
                "delta.columnMapping.id": 5,
                "delta.columnMapping.physicalName": "physical_name_col123"
            }
        }"#;
    let field = read_field(field_json).unwrap();
    assert_eq!(
        field.physical_name(ColumnMappingMode::Id),
        "physical_name_col123"
    );
}

#[test]
fn test_physical_name_with_mode_name() {
    let field_json = r#"{
            "name": "logical_name",
            "type": "string",
            "nullable": true,
            "metadata": {
                "delta.columnMapping.physicalName": "physical_name_col456"
            }
        }"#;
    let field = read_field(field_json).unwrap();
    assert_eq!(
        field.physical_name(ColumnMappingMode::Name),
        "physical_name_col456"
    );
}

#[test]
fn test_physical_name_fallback_id() {
    let field_json = r#"{
            "name": "logical_name",
            "type": "string",
            "nullable": true,
            "metadata": {}
        }"#;
    let field = read_field(field_json).unwrap();

    // Without a physical name, the logical name stands in
    assert_eq!(field.physical_name(ColumnMappingMode::Id), "logical_name");
}

#[test]
fn test_physical_name_fallback_name() {
    let field_json = r#"{
            "name": "logical_name",
            "type": "string",
            "nullable": true,
            "metadata": {}
        }"#;
    let field = read_field(field_json).unwrap();

    // Without a physical name, the logical name stands in
    assert_eq!(field.physical_name(ColumnMappingMode::Name), "logical_name");
}

// ---------------------------------------------------------------------------------------------
// Further cases
// ---------------------------------------------------------------------------------------------

#[test]
fn json_text_of_nested_schema() {
    let schema = StructType::new_unchecked(vec![
        StructField::nullable(
            "a",
            DataType::Array(Box::new(ArrayType::new(DataType::long(), true))),
        ),
        StructField::not_null(
            "m",
            DataType::MapOf(Box::new(MapType::new(
                DataType::string(),
                DataType::Struct(Box::new(StructType::new_unchecked(vec![
                    StructField::nullable("d", DataType::decimal(5, 2).unwrap()),
                ]))),
                false,
            ))),
        ),
    ]);
    assert_eq!(
        schema.to_json_text(),
        concat_all(&[
            r#"{"type":"struct","fields":["#,
            r#"{"name":"a","type":{"type":"array","elementType":"long","containsNull":true},"nullable":true,"metadata":{}},"#,
            r#"{"name":"m","type":{"type":"map","keyType":"string","valueType":{"type":"struct","fields":["#,
            r#"{"name":"d","type":"decimal(5,2)","nullable":true,"metadata":{}}]},"valueContainsNull":false},"nullable":false,"metadata":{}}]}"#,
        ])
    );
}

fn concat_all(parts: &[&str]) -> String {
    let mut s = String::new();
    for part in parts {
        s.push_str(part);
    }
    s
}

#[test]
fn json_round_trip_of_schema() {
    let schema = StructType::new_unchecked(vec![
        StructField::new("x", DataType::timestamp_ntz(), false).with_metadata(vec![
            ("n".to_string(), MetadataValue::Number(-7)),
            ("s".to_string(), MetadataValue::String("t\"x".to_string())),
            ("b".to_string(), MetadataValue::Boolean(true)),
            (
                "o".to_string(),
                MetadataValue::Other(serde_json::from_str(r#"[1.5, null]"#).unwrap()),
            ),
        ]),
        StructField::nullable("v", DataType::unshredded_variant()),
    ]);
    let text = schema.to_json_text();
    let read = StructType::from_json_text(&text).unwrap();
    assert_eq!(read, schema);
    assert_eq!(
        read.field("x").unwrap().metadata().get("n"),
        Some(&MetadataValue::Number(-7))
    );
}

#[test]
fn broken_json_is_refused() {
    assert!(matches!(parse_json("{"), Err(Error::Json(_))));
    assert!(matches!(read_type("12"), Err(Error::Json(_))));
    assert!(matches!(read_field(r#"{"name": "a"}"#), Err(Error::Json(_))));
    assert!(read_type(r#"{"type": "nothing"}"#).is_err());
}

#[test]
fn duplicate_columns_in_json_are_refused() {
    let data = r#"{"type": "struct", "fields": [
        {"name": "a", "type": "integer", "nullable": false, "metadata": {}},
        {"name": "A", "type": "string", "nullable": true, "metadata": {}}]}"#;
    let err = StructType::from_json(&parse_json(data).unwrap()).unwrap_err();
    assert!(err.text().contains("Duplicate field name (case-insensitive)"));
}

#[test]
fn the_last_of_repeated_members_counts() {
    let text = r#"{"name":"a","name":"b","type":"long","nullable":true,"metadata":{}}"#;
    let field = StructField::from_json_text(text).unwrap();
    assert_eq!(field.name(), "b");
}
