//! What the writers decide: buffering, schema evolution, and shards.

pub mod buffer;
pub mod jsonl;
pub mod parquet;
pub mod pattern;
pub mod sharded;
