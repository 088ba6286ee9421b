//! Object-store capability basics.
//!
//! Bounded get, put, stat and list over whole objects, with a stable version
//! token where the backend can supply one, and the bridges that serve and
//! accumulate items of one object within a multi-resource input or output.

pub mod identity;
pub mod memory;
pub mod position;
pub mod reader;
pub mod writer;
