//! Multi-resource readers and writers.
//!
//! Several physical resources (files, objects, ...) form one ordered,
//! restartable logical input or output. One resource is open at a time; its own
//! delegate position is carried inside the position of the whole set.

pub mod error;
pub mod identity;
pub mod lifecycle;
pub mod reader;
pub mod state;
pub mod writer;
