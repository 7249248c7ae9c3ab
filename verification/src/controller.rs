//! Controllers: the handles through which a view reads and changes a program.

pub mod graph;
pub mod module;
pub mod node;
pub mod notification;
pub mod text;
