//! Table features.
use delta_schema::error::Error;
use delta_schema::schema::primitive::PrimitiveType;
use delta_schema::schema::types::{ArrayType, DataType, MapType, StructField, StructType};
use delta_schema::table_features::{
    schema_contains_float16, validate_float16_feature_support, Protocol, TableFeature,
};

#[test]
fn test_float16_feature_validation() {
    let schema_with = StructType::new_unchecked(vec![
        StructField::new("id", DataType::integer(), false),
        StructField::new("ts", DataType::Primitive(PrimitiveType::Float16), true),
    ]);
    let schema_without = StructType::new_unchecked(vec![
        StructField::new("id", DataType::integer(), false),
        StructField::new("name", DataType::string(), true),
    ]);
    let nested_schema_with = StructType::new_unchecked(vec![
        StructField::new("id", DataType::integer(), false),
        StructField::new(
            "nested",
            DataType::Struct(Box::new(StructType::new_unchecked(vec![StructField::new(
                "inner_ts",
                DataType::Primitive(PrimitiveType::Float16),
                true,
            )]))),
            true,
        ),
    ]);
    let protocol_with = Protocol {
        reader_features: vec![TableFeature::Float16],
        writer_features: vec![TableFeature::Float16],
    };
    let protocol_without = Protocol {
        reader_features: vec![],
        writer_features: vec![],
    };
    let message = "Table contains FLOAT16 columns but does not have the required 'float16' feature in reader and writer features";

    assert!(validate_float16_feature_support(&protocol_with, &schema_with).is_ok());
    assert!(validate_float16_feature_support(&protocol_with, &schema_without).is_ok());
    assert!(validate_float16_feature_support(&protocol_without, &schema_without).is_ok());
    for schema in [&schema_with, &nested_schema_with] {
        match validate_float16_feature_support(&protocol_without, schema) {
            Err(Error::Unsupported(text)) => assert_eq!(text, message),
            other => panic!("unexpected {other:?}"),
        }
    }
    assert!(validate_float16_feature_support(&protocol_with, &nested_schema_with).is_ok());
}

#[test]
fn feature_must_be_declared_on_both_sides() {
    let schema = StructType::new_unchecked(vec![StructField::nullable("h", DataType::float16())]);
    let half_declared = Protocol {
        reader_features: vec![TableFeature::Float16],
        writer_features: vec![],
    };
    assert!(validate_float16_feature_support(&half_declared, &schema).is_err());
}

#[test]
fn half_floats_are_found_in_arrays_and_maps() {
    for t in [
        DataType::from(ArrayType::new(DataType::float16(), true)),
        DataType::from(MapType::new(DataType::float16(), DataType::string(), true)),
        DataType::from(MapType::new(DataType::string(), DataType::float16(), true)),
    ] {
        let schema = StructType::new_unchecked(vec![StructField::nullable("x", t)]);
        assert!(schema_contains_float16(&schema));
    }
    let schema = StructType::new_unchecked(vec![StructField::nullable("x", DataType::float())]);
    assert!(!schema_contains_float16(&schema));
}

#[test]
fn widening_of_primitive_types() {
    let widens = |a: PrimitiveType, b: PrimitiveType| a.can_widen_to(&b);
    assert!(widens(PrimitiveType::Byte, PrimitiveType::Long));
    assert!(widens(PrimitiveType::Short, PrimitiveType::Integer));
    assert!(widens(PrimitiveType::Float16, PrimitiveType::Double));
    assert!(widens(PrimitiveType::Float, PrimitiveType::Double));
    assert!(widens(PrimitiveType::Timestamp, PrimitiveType::TimestampNtz));
    assert!(!widens(PrimitiveType::Long, PrimitiveType::Integer));
    assert!(!widens(PrimitiveType::Integer, PrimitiveType::Integer));
    assert!(!widens(PrimitiveType::Integer, PrimitiveType::Double));
    assert!(!widens(PrimitiveType::Integer, PrimitiveType::Date));
}

#[test]
fn compatibility_of_statistics() {
    assert!(PrimitiveType::Integer.is_checkpoint_cast_compatible(&PrimitiveType::Date));
    assert!(PrimitiveType::Long.is_checkpoint_cast_compatible(&PrimitiveType::Timestamp));
    assert!(!PrimitiveType::Long.is_checkpoint_cast_compatible(&PrimitiveType::Date));
    assert!(PrimitiveType::Integer.is_stats_type_compatible_with(&PrimitiveType::Integer));
    assert!(PrimitiveType::Integer.is_stats_type_compatible_with(&PrimitiveType::Date));
    assert!(PrimitiveType::Byte.is_stats_type_compatible_with(&PrimitiveType::Short));
    assert!(!PrimitiveType::String.is_stats_type_compatible_with(&PrimitiveType::Binary));
}
