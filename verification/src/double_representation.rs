//! The two readings of one program: its syntax tree and its graphs.

pub mod definition;
pub mod graph;
pub mod lines;
pub mod node;
pub mod rewrite;
