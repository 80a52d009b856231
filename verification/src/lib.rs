//! An in-process RDF-style triple store abstraction: a minimal `Graph`
//! interface that any storage backend can satisfy, plus backend-agnostic
//! lookup, pattern matching, cardinality hints and mutation, all derived
//! from a single primitive (full iteration).

pub mod graph;
pub mod laws;
pub mod matcher;
pub mod seq_facts;
pub mod term;
pub mod vec_graph;
