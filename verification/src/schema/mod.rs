//! Schemas of Delta tables: data types, fields, and the operations on them.
pub mod data_type;
pub mod display;
pub mod edit;
pub mod field;
pub mod json_schema;
pub mod json_text;
pub mod json_write;
pub mod metadata;
pub mod physical;
pub mod physical_laws;
pub mod primitive;
pub mod struct_laws;
pub mod struct_type;
pub mod type_laws;
pub mod types;
pub mod walk;
