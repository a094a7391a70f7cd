//! Static analysis of Custom Difficulty documents: a span-preserving parser,
//! a schema-directed decoder, and a suite of semantic lints.

pub mod bins;
pub mod circuit_laws;
pub mod circuits;
pub mod config;
pub mod custom_difficulty;
pub mod decoder;
pub mod descriptor;
pub mod descriptors;
pub mod diagnostic;
pub mod dot;
pub mod edit_distance;
pub mod fields;
pub mod grammar;
pub mod graph;
pub mod johnson;
pub mod json;
pub mod late_lints;
pub mod laws;
pub mod members;
pub mod names;
pub mod number;
pub mod number_laws;
pub mod objects;
pub mod parser;
pub mod pipeline;
pub mod same;
pub mod same_fields;
pub mod same_lints;
pub mod scc;
pub mod source;
pub mod span;
pub mod stats;
pub mod text;
pub mod validate;
