//! Batch-processing building blocks with machine-checked contracts.

pub mod component_state;
pub mod digest;
pub mod hex;
pub mod item_components;
pub mod item_listener;
pub mod item_stream;
pub mod json;
pub mod listener;
pub mod nested_job_runtime;
pub mod partition;
pub mod plan;
pub mod runtime;
pub mod text;
pub mod tokens;
