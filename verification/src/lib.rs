//! Bridges the textual syntax tree of a program and the node graph of a visual editor.
//!
//! The tree of a module is read as named definitions; the body of one definition is read as
//! an ordered list of lines, each of which is a nested definition, a graph node or neither.
//! Nodes are listed, inserted relative to each other and removed, while every other line of
//! the source stays as it was.

pub mod ast;
pub mod controller;
pub mod double_representation;
pub mod error;
pub mod view;
