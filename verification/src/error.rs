//! The ways in which an operation on a graph fails.

use vstd::prelude::*;
use crate::ast::ID;
use crate::double_representation::graph::Id;

verus! {

/// A graph cannot be found in its module.
#[derive(Debug)]
pub enum AddressingError {
    /// The graph identifier holds no crumb.
    EmptyGraphId,
    /// Some crumb of the identifier names no definition where it is looked up.
    DefinitionNotFound(Id),
}

/// A node cannot be found in its graph.
#[derive(Clone, Copy, Debug, PartialEq, Eq, Structural)]
pub enum NodeLookupError {
    /// No node of the graph has the identity.
    NodeNotFound(ID),
}

/// A line cannot take the place that it was meant for.
#[derive(Clone, Copy, Debug, PartialEq, Eq, Structural)]
pub enum StructuralError {
    /// The line would not show as a node of the graph: it reads as a nested definition.
    NotANode,
}

/// Failure of an operation on a graph.
#[derive(Debug)]
pub enum Error {
    /// The graph was not found.
    Addressing(AddressingError),
    /// A node was not found.
    NodeLookup(NodeLookupError),
    /// A line does not fit.
    Structure(StructuralError),
}

} // verus!
