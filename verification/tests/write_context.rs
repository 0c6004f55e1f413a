//! Write contexts, partition paths and the handles on them.
use delta_schema::column_mapping::ColumnMappingMode;
use delta_schema::column_name::ColumnName;
use delta_schema::expressions::{Expression, Scalar};
use delta_schema::ffi::{get_write_path, get_write_schema, SharedWriteContext};
use delta_schema::partition_path::build_partition_path;
use delta_schema::schema::types::{DataType, StructField, StructType};
use delta_schema::text_map::TextMap;
use delta_schema::write_context::{
    alphanumeric_prefix, random_alphanumeric_prefix, SharedWriteState, WriteContext,
};
use std::collections::HashSet;
use std::sync::Arc;
use url::Url;

fn make_write_context(
    cm_mode: ColumnMappingMode,
    partition_columns: Vec<String>,
    partition_values: &[(&str, Option<&str>)],
) -> WriteContext {
    let schema = Arc::new(StructType::new_unchecked(vec![StructField::nullable(
        "value",
        DataType::integer(),
    )]));
    let shared = Arc::new(SharedWriteState {
        table_root: Url::parse("s3://bucket/table/").unwrap(),
        logical_schema: schema.clone(),
        physical_schema: schema.clone(),
        logical_to_physical: Arc::new(Expression::literal(true)),
        column_mapping_mode: cm_mode,
        stats_columns: vec![],
        logical_partition_columns: partition_columns,
    });
    let mut values = TextMap::new();
    for (name, value) in partition_values {
        values.insert(name.to_string(), value.map(|v| v.to_string()));
    }
    WriteContext {
        shared,
        physical_partition_values: values,
    }
}

/// The cross product of column mapping modes and partitioned or unpartitioned tables.
#[test]
fn test_write_dir_structure() {
    for cm_mode in [
        ColumnMappingMode::Disabled,
        ColumnMappingMode::Name,
        ColumnMappingMode::Id,
    ] {
        for is_partitioned in [true, false] {
            let wc = if is_partitioned {
                make_write_context(
                    cm_mode,
                    vec!["year".into(), "month".into()],
                    &[("year", Some("2024")), ("month", Some("03"))],
                )
            } else {
                make_write_context(cm_mode, vec![], &[])
            };
            let path = wc.write_dir().path().to_string();

            match cm_mode {
                ColumnMappingMode::Disabled if !is_partitioned => {
                    assert_eq!(
                        path, "/table/",
                        "CM off, unpartitioned: should be table root"
                    );
                }
                ColumnMappingMode::Disabled => {
                    assert_eq!(
                        path, "/table/year=2024/month=03/",
                        "CM off, partitioned: full Hive-style path"
                    );
                }
                ColumnMappingMode::Name | ColumnMappingMode::Id => {
                    assert!(
                        !path.contains("year="),
                        "CM on: should NOT contain Hive-style dirs, got: {path}"
                    );
                    // /table/<2-char-alphanumeric>/ regardless of partitioning
                    let prefix_dir = path
                        .strip_prefix("/table/")
                        .unwrap()
                        .strip_suffix('/')
                        .unwrap();
                    assert_eq!(
                        prefix_dir.len(),
                        2,
                        "expected 2-char prefix, got: {prefix_dir}"
                    );
                    assert!(
                        prefix_dir.chars().all(|c| c.is_ascii_alphanumeric()),
                        "prefix should be alphanumeric, got: {prefix_dir}"
                    );
                }
            }
        }
    }
}

#[test]
fn test_write_dir_cm_on_generates_different_prefixes_per_call() {
    let wc = make_write_context(ColumnMappingMode::Name, vec![], &[]);
    let dirs: Vec<String> = (0..20).map(|_| wc.write_dir().path().to_string()).collect();
    let unique: HashSet<_> = dirs.iter().collect();
    assert!(
        unique.len() > 1,
        "20 calls should produce at least 2 distinct prefixes"
    );
}

#[test]
fn test_write_dir_cm_off_partitioned_null_value_uses_hive_default() {
    let wc = make_write_context(
        ColumnMappingMode::Disabled,
        vec!["region".into()],
        &[("region", None)],
    );
    let path = wc.write_dir().path().to_string();
    assert!(
        path.contains("__HIVE_DEFAULT_PARTITION__"),
        "null partition value should use HIVE_DEFAULT_PARTITION, got: {path}"
    );
}

#[test]
fn test_random_alphanumeric_prefix_format() {
    for _ in 0..100 {
        let prefix = random_alphanumeric_prefix();
        assert_eq!(prefix.len(), 2, "prefix should be exactly 2 chars");
        assert!(
            prefix.chars().all(|c| c.is_ascii_alphanumeric()),
            "prefix should be alphanumeric, got: {prefix}"
        );
    }
}

// ---------------------------------------------------------------------------------------------
// Further cases
// ---------------------------------------------------------------------------------------------

#[test]
fn missing_partition_value_counts_as_null() {
    let wc = make_write_context(ColumnMappingMode::Disabled, vec!["region".into()], &[]);
    assert_eq!(
        wc.write_dir().path(),
        "/table/region=__HIVE_DEFAULT_PARTITION__/"
    );
}

#[test]
fn partition_paths_are_escaped() {
    assert_eq!(
        build_partition_path(&vec![
            ("p_timestamp", Some("2025-03-31T15:30:00.123456Z")),
            ("a=b", Some("x/y%z")),
            ("n", None),
            ("e", Some("")),
        ]),
        "p_timestamp=2025-03-31T15%3A30%3A00.123456Z/a%3Db=x%2Fy%25z/n=__HIVE_DEFAULT_PARTITION__/e=__HIVE_DEFAULT_PARTITION__/"
    );
    assert_eq!(build_partition_path(&vec![("c", Some("\u{1}\u{7f}"))]), "c=%01%7F/");
    assert_eq!(build_partition_path(&vec![]), "");
}

const NORMAL_VALUES: [(&str, &str); 13] = [
    ("p_string", "hello"),
    ("p_int", "42"),
    ("p_long", "9876543210"),
    ("p_short", "7"),
    ("p_byte", "3"),
    ("p_float", "1.25"),
    ("p_double", "99.99"),
    ("p_boolean", "true"),
    ("p_date", "2025-03-31"),
    ("p_timestamp", "2025-03-31T15:30:00.123456Z"),
    ("p_decimal", "123.45"),
    ("p_binary", "Hello"),
    ("p_timestamp_ntz", "2025-03-31 15:30:00.123456"),
];

#[test]
fn partition_directories_of_all_types() {
    let names: Vec<String> = NORMAL_VALUES.iter().map(|(k, _)| k.to_string()).collect();
    let values: Vec<(&str, Option<&str>)> =
        NORMAL_VALUES.iter().map(|(k, v)| (*k, Some(*v))).collect();
    let wc = make_write_context(ColumnMappingMode::Disabled, names.clone(), &values);
    assert_eq!(
        wc.write_dir().path(),
        "/table/p_string=hello/p_int=42/p_long=9876543210/p_short=7/\
         p_byte=3/p_float=1.25/p_double=99.99/p_boolean=true/p_date=2025-03-31/\
         p_timestamp=2025-03-31T15%3A30%3A00.123456Z/p_decimal=123.45/\
         p_binary=Hello/p_timestamp_ntz=2025-03-31%2015%3A30%3A00.123456/"
    );
    let nulls: Vec<(&str, Option<&str>)> = NORMAL_VALUES.iter().map(|(k, _)| (*k, None)).collect();
    let wc = make_write_context(ColumnMappingMode::Disabled, names.clone(), &nulls);
    let mut expected = String::from("/table/");
    for name in &names {
        expected.push_str(&format!("{name}=__HIVE_DEFAULT_PARTITION__/"));
    }
    assert_eq!(wc.write_dir().path(), expected);
}

#[test]
fn prefixes_of_given_positions() {
    assert_eq!(alphanumeric_prefix(0, 25), "az");
    assert_eq!(alphanumeric_prefix(26, 51), "AZ");
    assert_eq!(alphanumeric_prefix(52, 61), "09");
    let wc = make_write_context(ColumnMappingMode::Id, vec![], &[]);
    assert_eq!(wc.prefixed_dir("aZ").as_str(), "s3://bucket/table/aZ/");
    assert_eq!(wc.dir_path("/t/", "q7"), "/t/q7/");
}

#[test]
fn short_directories_fit() {
    let wc = make_write_context(ColumnMappingMode::Disabled, vec![], &[]);
    assert_eq!(wc.checked_write_dir().unwrap().as_str(), "s3://bucket/table/");
}

#[test]
fn parts_of_a_write_context() {
    let wc = make_write_context(ColumnMappingMode::Name, vec![], &[("a", Some("1"))]);
    assert_eq!(wc.table_root_dir().as_str(), "s3://bucket/table/");
    assert_eq!(wc.logical_schema().num_fields(), 1);
    assert_eq!(wc.physical_schema().num_fields(), 1);
    assert_eq!(wc.column_mapping_mode(), ColumnMappingMode::Name);
    let none: &Vec<ColumnName> = wc.stats_columns();
    assert!(none.is_empty());
    assert_eq!(
        wc.physical_partition_values().get("a"),
        Some(&Some("1".to_string()))
    );
    assert!(matches!(
        *wc.logical_to_physical(),
        Expression::Literal(Scalar::Boolean(true))
    ));
}

#[test]
fn deletion_vector_paths_are_unique() {
    let wc = make_write_context(ColumnMappingMode::Disabled, vec![], &[]);
    let a = wc.new_deletion_vector_path("ab".to_string());
    let b = wc.new_deletion_vector_path(String::new());
    assert_ne!(a.id, b.id);
    assert_eq!(a.table_root.as_str(), "s3://bucket/table/");
    assert!(a.relative_path().starts_with("ab/deletion_vector_"));
    assert!(b.relative_path().starts_with("deletion_vector_"));
    assert!(b.relative_path().ends_with(".bin"));
    assert_eq!(b.relative_path().len(), "deletion_vector_.bin".len() + 36);
}

#[test]
fn handles_show_schema_and_root() {
    let handle = SharedWriteContext::new(make_write_context(
        ColumnMappingMode::Disabled,
        vec!["p".into()],
        &[("p", Some("1"))],
    ));
    let other = handle.share();
    assert_eq!(get_write_path(&other), "s3://bucket/table/");
    assert_eq!(get_write_schema(&handle).num_fields(), 1);
}
