//! Flow graphs and the compiled execution plans they lower into.

pub mod compiled;
pub mod error;
pub mod graph;
pub mod laws;
pub mod meaning;
pub mod node;
pub mod order;
pub mod pattern;
pub mod walk;
