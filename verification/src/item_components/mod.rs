//! Item readers, processors and writers, and the decisions that drive them.

pub mod aggregate;
pub mod basic;
pub mod classify;
pub mod composite;
pub mod delimited;
pub mod file_output;
pub mod filter;
pub mod fixed_width;
pub mod json_array;
pub mod json_array_output;
pub mod json_array_text;
pub mod jsonl;
pub mod lines;
pub mod multi_resource;
pub mod object_store;
pub mod peek;
pub mod position;
pub mod postgres_batch;
pub mod postgres_cursor;
pub mod postgres_keyset;
pub mod postgres_paging;
pub mod validate;
