//! What the readers decide: schemas, projections, and the order of files.

pub mod column_filter;
pub mod jsonl;
pub mod multi_file;
pub mod parquet;
pub mod schema;
