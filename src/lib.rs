//! Typed computation graphs for neural-network layer blocks.
//!
//! A [`builder::Builder`] owns a graph whose nodes are tensor types and whose
//! edges are operations. Layer assembly functions in [`layers`] append
//! shape-consistent operations to it, and [`graph::simplify`] makes value
//! sharing explicit before a graph is drawn.

pub mod tensor;
pub mod graph;
pub mod builder;
pub mod layers;
pub mod diagrams;
