//! Delta table schemas.
use vstd::prelude::*;

pub mod arrow;
pub mod arrow_laws;
pub mod column_data;
pub mod column_mapping;
pub mod column_name;
pub mod counting_reporter;
pub mod engine_data;
pub mod error;
pub mod expressions;
pub mod ffi;
pub mod json;
pub mod metrics;
pub mod parquet;
pub mod partition_path;
pub mod schema;
pub mod sidecar;
pub mod stats_laws;
pub mod stats_schema;
pub mod stats_verifier;
pub mod table_builder;
pub mod table_features;
pub mod table_url;
pub mod text;
pub mod text_map;
pub mod unity_catalog;
pub mod verifier_laws;
pub mod workload;
pub mod write_context;

verus! {

} // verus!
