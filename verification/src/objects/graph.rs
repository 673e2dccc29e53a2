//! The graph of a document's objects.
use crate::pages::{ObjectVertex, PagesList};
use vstd::prelude::*;

verus! {

/// Builds the object graph of a document.
pub struct ObjectGraphAnalysis {}

/// A connection from one object to another.
#[derive(Clone, Copy, Debug, PartialEq, Eq, Structural)]
pub struct ObjectEdge {
    /// The object that the connection leaves.
    pub src: ObjectVertex,
    /// The object that the connection reaches.
    pub dst: ObjectVertex,
}

/// The object graph.
#[derive(Debug)]
pub struct ObjectGraph {
    /// The numbers of the objects.
    pub vertices: Vec<ObjectVertex>,
    /// The connections between the objects.
    pub edges: Vec<ObjectEdge>,
}

impl ObjectGraphAnalysis {
    /// The graph of the objects that the pages use. No page contributes a
    /// vertex or an edge: the graph is empty for every document.
    pub fn analyze(pages: &PagesList) -> (r: ObjectGraph)
        ensures
            r.vertices@.len() == 0,
            r.edges@.len() == 0,
    {
        ObjectGraph::new(Vec::new(), Vec::new())
    }
}

impl ObjectGraph {
    /// The graph of the given vertices and edges.
    pub fn new(vertices: Vec<ObjectVertex>, edges: Vec<ObjectEdge>) -> (r: Self)
        ensures
            r.vertices == vertices,
            r.edges == edges,
    {
        Self { vertices, edges }
    }
}

} // verus!
