//! Node controller: refers to one node of one graph.

use vstd::prelude::*;
use crate::ast::ID;
use crate::controller::graph::Handle as GraphHandle;

verus! {

/// Refers to a node of a graph.
#[derive(Debug)]
pub struct Handle {
    /// The graph that shows the node.
    pub graph: GraphHandle,
    /// Identity of the node.
    pub id: ID,
}

impl Handle {
    /// A handle for the node of the given identity in the given graph.
    pub fn new(graph: GraphHandle, id: ID) -> (res: Handle)
        ensures
            res.graph == graph,
            res.id == id,
    {
        Handle { graph, id }
    }

    /// Identity of the node.
    pub fn id(&self) -> (res: ID)
        ensures
            res == self.id,
    {
        self.id
    }
}

} // verus!
