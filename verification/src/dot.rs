//! The drawing of a graph of names in the DOT language, made by petgraph.

use crate::names::NameTable;
use petgraph::dot::{Config, Dot};
use petgraph::graph::{Graph, NodeIndex};
use petgraph::Directed;
use vstd::prelude::*;

verus! {

/// What petgraph's `Dot` writes, when it is formatted for debugging with
/// the option `EdgeNoLabel`, for the directed graph that has one node for
/// each name of `names`, with the name as its weight, and the edges of
/// `edges` in order.
pub uninterp spec fn dot_text(names: Seq<Seq<char>>, edges: Seq<(usize, usize)>) -> Seq<char>;

/// Formats `petgraph::dot::Dot::with_config` for the graph of `names` and
/// `edges`. Claimed of it: the text is a function of the names and the
/// edges alone.
#[verifier::external_body]
pub(crate) fn dot_source(names: &NameTable, edges: &Vec<(usize, usize)>) -> (text: String)
    requires
        forall|k: int|
            0 <= k < edges@.len() ==> (#[trigger] edges@[k]).0 < names@.len() && edges@[k].1 < names@.len(),
    ensures
        text@ == dot_text(names@, edges@),
{
    let mut graph = Graph::<String, (), Directed, usize>::with_capacity(names.set.len(), edges.len());
    for name in names.set.iter() {
        graph.add_node(name.clone());
    }
    for edge in edges.iter() {
        graph.add_edge(NodeIndex::new(edge.0), NodeIndex::new(edge.1), ());
    }
    format!("{:?}", Dot::with_config(&graph, &[Config::EdgeNoLabel]))
}

} // verus!
