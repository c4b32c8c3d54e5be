//! Turns a database schema's column metadata into one record type per table.
//!
//! The pipeline: rows describing columns are grouped by table, internal
//! tables are filtered out, each native column type is mapped to a Rust
//! type, and one record definition per table is produced and rendered.

pub mod schema;
pub mod type_mapper;
pub mod naming;
pub mod table_filter;
pub mod grouping;
pub mod emitter;
pub mod render;
