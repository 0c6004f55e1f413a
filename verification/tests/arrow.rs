//! Conversion from and to Arrow schemas.
use delta_schema::arrow::{
    ArrowDataType, ArrowField, ArrowSchema, TimeUnit, TryFromArrow, TryFromKernel, TryIntoArrow,
    TryIntoKernel,
};
use delta_schema::error::{ArrowError, Error};
use delta_schema::schema::metadata::{ColumnMetadataKey, MetadataValue};
use delta_schema::schema::types::{ArrayType, DataType, MapType, StructField, StructType};
use delta_schema::text_map::TextMap;
use std::collections::HashMap;

const PARQUET_FIELD_ID_META_KEY: &str = "PARQUET:field_id";

fn metadata_of(entries: &[(&str, &str)]) -> TextMap<String> {
    let mut m = TextMap::new();
    for (k, v) in entries {
        m.insert(k.to_string(), v.to_string());
    }
    m
}

fn arrow_field(name: &str, data_type: ArrowDataType, nullable: bool) -> ArrowField {
    ArrowField {
        name: name.to_string(),
        data_type,
        nullable,
        metadata: TextMap::new(),
    }
}

fn error_text(e: ArrowError) -> String {
    Error::Arrow(Box::new(e)).text().to_string()
}

fn with_field_id(field: StructField, id: i64) -> StructField {
    field.with_metadata(vec![(
        ColumnMetadataKey::ParquetFieldId.as_ref().to_string(),
        MetadataValue::Number(id),
    )])
}

#[test]
fn test_metadata_string_conversion() {
    let struct_field = StructField::not_null("name", DataType::string()).with_metadata(vec![(
        "description".to_string(),
        MetadataValue::from("hello world"),
    )]);

    let arrow_field = ArrowField::try_from_kernel(&struct_field).unwrap();
    assert_eq!(
        arrow_field.metadata.get("description").unwrap(),
        &"hello world".to_owned()
    );
}

#[test]
fn test_variant_shredded_type_fail() {
    let unshredded_variant = DataType::unshredded_variant();
    let unshredded_variant_arrow = ArrowDataType::try_from_kernel(&unshredded_variant).unwrap();
    match unshredded_variant_arrow {
        ArrowDataType::Struct(fields) => {
            assert_eq!(fields.len(), 2);
            assert_eq!(fields[0].name, "metadata");
            assert!(matches!(fields[0].data_type, ArrowDataType::Binary));
            assert!(!fields[0].nullable);
            assert_eq!(fields[1].name, "value");
            assert!(matches!(fields[1].data_type, ArrowDataType::Binary));
            assert!(!fields[1].nullable);
        }
        other => panic!("unexpected {other:?}"),
    }
    let shredded_variant = DataType::variant_type(vec![
        StructField::nullable("metadata", DataType::binary()),
        StructField::nullable("value", DataType::binary()),
        StructField::nullable("typed_value", DataType::integer()),
    ])
    .unwrap();
    let shredded_variant_arrow = ArrowDataType::try_from_kernel(&shredded_variant);
    assert!(error_text(shredded_variant_arrow.unwrap_err()).contains("Incorrect Variant Schema"));
}

fn collect_from_fields(
    fields: &[ArrowField],
    metadata_key: &str,
    field_ids: &mut HashMap<String, String>,
) {
    for field in fields {
        collect_from_field(field, metadata_key, field_ids);
    }
}

fn collect_from_field(
    field: &ArrowField,
    metadata_key: &str,
    field_ids: &mut HashMap<String, String>,
) {
    if let Some(id) = field.metadata.get(metadata_key) {
        field_ids.insert(field.name.clone(), id.clone());
    }
    match &field.data_type {
        ArrowDataType::Struct(fields) => collect_from_fields(fields, metadata_key, field_ids),
        ArrowDataType::List(entry) | ArrowDataType::MapOf(entry, _) => {
            collect_from_field(entry, metadata_key, field_ids)
        }
        _ => {}
    }
}

fn collect_kernel_field_ids(s: &StructType, field_ids: &mut HashMap<String, String>) {
    for field in s.fields() {
        if let Some(id) = field
            .metadata()
            .get(ColumnMetadataKey::ParquetFieldId.as_ref())
        {
            field_ids.insert(field.name().clone(), id.text());
        }
        collect_kernel_type_ids(field.data_type(), field_ids);
    }
}

fn collect_kernel_type_ids(t: &DataType, field_ids: &mut HashMap<String, String>) {
    match t {
        DataType::Struct(s) => collect_kernel_field_ids(s, field_ids),
        DataType::Array(a) => collect_kernel_type_ids(&a.element_type, field_ids),
        DataType::MapOf(m) => {
            collect_kernel_type_ids(&m.key_type, field_ids);
            collect_kernel_type_ids(&m.value_type, field_ids);
        }
        _ => {}
    }
}

#[test]
fn test_recursive_field_id_transformation() {
    let inner_struct_type = StructType::try_new(vec![with_field_id(
        StructField::new("inner_field", DataType::string(), false),
        3,
    )])
    .unwrap();
    let array_item_struct = StructType::try_new(vec![with_field_id(
        StructField::new("array_item", DataType::integer(), false),
        5,
    )])
    .unwrap();
    let array_type = ArrayType::new(DataType::Struct(Box::new(array_item_struct)), false);
    let map_key_struct = StructType::try_new(vec![with_field_id(
        StructField::new("map_key_field", DataType::string(), false),
        7,
    )])
    .unwrap();
    let map_value_struct = StructType::try_new(vec![with_field_id(
        StructField::new("map_value_field", DataType::integer(), false),
        8,
    )])
    .unwrap();
    let map_type = MapType::new(
        DataType::Struct(Box::new(map_key_struct)),
        DataType::Struct(Box::new(map_value_struct)),
        false,
    );
    let top_struct = StructType::try_new(vec![
        with_field_id(StructField::new("simple_field", DataType::integer(), false), 1),
        with_field_id(
            StructField::new(
                "nested_struct",
                DataType::Struct(Box::new(inner_struct_type)),
                false,
            ),
            2,
        ),
        with_field_id(
            StructField::new("array_field", DataType::Array(Box::new(array_type)), false),
            4,
        ),
        with_field_id(
            StructField::new("map_field", DataType::MapOf(Box::new(map_type)), false),
            6,
        ),
    ])
    .unwrap();

    let arrow_schema = ArrowSchema::try_from_kernel(&top_struct).unwrap();

    let expected_ids: HashMap<String, String> = [
        ("simple_field", "1"),
        ("nested_struct", "2"),
        ("inner_field", "3"),
        ("array_field", "4"),
        ("array_item", "5"),
        ("map_field", "6"),
        ("map_key_field", "7"),
        ("map_value_field", "8"),
    ]
    .into_iter()
    .map(|(k, v)| (k.to_string(), v.to_string()))
    .collect();

    // Field ids stand under PARQUET:field_id at all levels
    let mut arrow_field_ids = HashMap::new();
    collect_from_fields(
        &arrow_schema.fields,
        PARQUET_FIELD_ID_META_KEY,
        &mut arrow_field_ids,
    );
    assert_eq!(
        arrow_field_ids, expected_ids,
        "All field IDs should be transformed to PARQUET:field_id"
    );

    // And back, unchanged
    let kernel_struct = StructType::try_from_arrow(&arrow_schema).unwrap();
    let mut kernel_field_ids = HashMap::new();
    collect_kernel_field_ids(&kernel_struct, &mut kernel_field_ids);
    assert_eq!(
        kernel_field_ids, arrow_field_ids,
        "Kernel field IDs should match Arrow field IDs after round-trip"
    );
}

#[test]
fn test_arrow_to_kernel_matching_field_ids_succeed() {
    let arrow_field = ArrowField {
        name: "a".to_string(),
        data_type: ArrowDataType::Int32,
        nullable: false,
        metadata: metadata_of(&[
            (PARQUET_FIELD_ID_META_KEY, "42"),
            (ColumnMetadataKey::ParquetFieldId.as_ref(), "42"),
        ]),
    };
    let result = StructField::try_from_arrow(&arrow_field);
    assert!(result.is_ok(), "Matching field IDs should succeed");
}

#[test]
fn test_arrow_to_kernel_conflicting_field_ids_fail() {
    let arrow_field = ArrowField {
        name: "a".to_string(),
        data_type: ArrowDataType::Int32,
        nullable: false,
        metadata: metadata_of(&[
            (PARQUET_FIELD_ID_META_KEY, "1"),
            (ColumnMetadataKey::ParquetFieldId.as_ref(), "2"),
        ]),
    };
    let result = StructField::try_from_arrow(&arrow_field);
    assert!(error_text(result.unwrap_err()).contains("conflicting parquet field IDs"));
}

// ---------------------------------------------------------------------------------------------
// Further cases
// ---------------------------------------------------------------------------------------------

#[test]
fn schema_round_trip() {
    let schema = StructType::try_new(vec![
        StructField::nullable("a", DataType::decimal(10, 2).unwrap()),
        StructField::not_null("t", DataType::timestamp()),
        StructField::not_null("n", DataType::timestamp_ntz()),
        StructField::nullable(
            "l",
            DataType::from(ArrayType::new(DataType::float16(), true)),
        ),
        StructField::nullable(
            "m",
            DataType::from(MapType::new(DataType::string(), DataType::byte(), false)),
        ),
    ])
    .unwrap();
    let arrow: ArrowSchema = (&schema).try_into_arrow().unwrap();
    assert!(matches!(arrow.fields[0].data_type, ArrowDataType::Decimal128(10, 2)));
    match &arrow.fields[1].data_type {
        ArrowDataType::Timestamp(TimeUnit::Microsecond, Some(zone)) => assert_eq!(zone, "UTC"),
        other => panic!("unexpected {other:?}"),
    }
    let back: StructType = (&arrow).try_into_kernel().unwrap();
    assert_eq!(back, schema);
}

#[test]
fn types_without_counterpart_are_refused() {
    let t = ArrowDataType::Timestamp(TimeUnit::Second, Some("CET".to_string()));
    let text = error_text(DataType::try_from_arrow(&t).unwrap_err());
    assert_eq!(text, "Invalid data type for Delta Lake: Timestamp(s, \"CET\")");
    let t = ArrowDataType::Timestamp(TimeUnit::Millisecond, None);
    let text = error_text(DataType::try_from_arrow(&t).unwrap_err());
    assert_eq!(text, "Invalid data type for Delta Lake: Timestamp(ms)");
    let t = ArrowDataType::Other("Duration(ns)".to_string());
    let text = error_text(DataType::try_from_arrow(&t).unwrap_err());
    assert_eq!(text, "Invalid data type for Delta Lake: Duration(ns)");
}

#[test]
fn unsigned_and_large_types_are_read() {
    for (arrow, kernel) in [
        (ArrowDataType::UInt64, DataType::long()),
        (ArrowDataType::UInt32, DataType::integer()),
        (ArrowDataType::UInt16, DataType::short()),
        (ArrowDataType::UInt8, DataType::byte()),
        (ArrowDataType::LargeUtf8, DataType::string()),
        (ArrowDataType::Utf8View, DataType::string()),
        (ArrowDataType::LargeBinary, DataType::binary()),
        (ArrowDataType::BinaryView, DataType::binary()),
        (ArrowDataType::FixedSizeBinary(4), DataType::binary()),
        (ArrowDataType::Date64, DataType::date()),
        (
            ArrowDataType::Dictionary(
                Box::new(ArrowDataType::Int32),
                Box::new(ArrowDataType::Utf8),
            ),
            DataType::string(),
        ),
    ] {
        assert_eq!(DataType::try_from_arrow(&arrow).unwrap(), kernel);
    }
}

#[test]
fn lists_of_all_kinds_are_read() {
    let element = || Box::new(arrow_field("element", ArrowDataType::Int64, true));
    for t in [
        ArrowDataType::List(element()),
        ArrowDataType::ListView(element()),
        ArrowDataType::LargeList(element()),
        ArrowDataType::LargeListView(element()),
        ArrowDataType::FixedSizeList(element(), 3),
    ] {
        assert_eq!(
            DataType::try_from_arrow(&t).unwrap(),
            DataType::from(ArrayType::new(DataType::long(), true))
        );
    }
}

#[test]
fn arrow_decimals_out_of_range_are_refused() {
    assert!(DataType::try_from_arrow(&ArrowDataType::Decimal128(5, -1)).is_err());
    assert!(DataType::try_from_arrow(&ArrowDataType::Decimal128(39, 2)).is_err());
}

#[test]
fn text_of_arrow_timestamps_agrees_with_arrow() {
    let zone = arrow_schema::DataType::Timestamp(
        arrow_schema::TimeUnit::Nanosecond,
        Some("Asia/Tokyo".into()),
    );
    let t = ArrowDataType::Timestamp(TimeUnit::Nanosecond, Some("Asia/Tokyo".to_string()));
    let text = error_text(DataType::try_from_arrow(&t).unwrap_err());
    assert_eq!(text, format!("Invalid data type for Delta Lake: {zone}"));
}
