//! The mathematical model of the dependency graph: what each operation does
//! to the set of artifacts and compute nodes.
use vstd::prelude::*;

use crate::error::GraphError;

verus! {

/// A compute node as the graph sees it.
pub ghost struct NodeView {
    pub node_type: Seq<char>,
    /// Artifact ids, in the order given at creation.
    pub inputs: Seq<Seq<char>>,
    /// Artifact ids this node currently claims as its outputs (its producer edges).
    pub outputs: Seq<Seq<char>>,
    pub dirty: bool,
}

/// The whole graph: each artifact id with its `external` flag, and each compute node.
pub ghost struct GraphView {
    pub artifacts: Map<Seq<char>, bool>,
    pub nodes: Map<Seq<char>, NodeView>,
}

/// The graph is finite and every producer edge points at a registered artifact.
pub open spec fn graph_valid(g: GraphView) -> bool {
    &&& g.artifacts.dom().finite()
    &&& g.nodes.dom().finite()
    &&& forall|n: Seq<char>, a: Seq<char>|
        #![trigger g.nodes[n].outputs.contains(a)]
        g.nodes.contains_key(n) && g.nodes[n].outputs.contains(a) ==> g.artifacts.contains_key(a)
}

pub open spec fn is_dirty(g: GraphView, n: Seq<char>) -> bool {
    g.nodes.contains_key(n) && g.nodes[n].dirty
}

/// `n` consumes `a`: there is an input edge from `a` to `n`.
pub open spec fn is_downstream(g: GraphView, a: Seq<char>, n: Seq<char>) -> bool {
    g.nodes.contains_key(n) && g.nodes[n].inputs.contains(a)
}

/// Some live compute node claims `a` as an output.
pub open spec fn produced(g: GraphView, a: Seq<char>) -> bool {
    exists|n: Seq<char>| #[trigger] g.nodes.contains_key(n) && g.nodes[n].outputs.contains(a)
}

/// An internal artifact that no live compute node produces.
pub open spec fn is_orphan(g: GraphView, a: Seq<char>) -> bool {
    g.artifacts.contains_key(a) && !g.artifacts[a] && !produced(g, a)
}

pub open spec fn orphan_pred(g: GraphView) -> spec_fn(Seq<char>) -> bool {
    |a: Seq<char>| is_orphan(g, a)
}

pub open spec fn orphans(g: GraphView) -> Set<Seq<char>> {
    g.artifacts.dom().filter(orphan_pred(g))
}

pub open spec fn all_registered(g: GraphView, ids: Seq<Seq<char>>) -> bool {
    forall|i: int| 0 <= i < ids.len() ==> g.artifacts.contains_key(#[trigger] ids[i])
}

/// Registering an artifact inserts it when it is new and leaves the graph as it is otherwise.
pub open spec fn after_register(g: GraphView, id: Seq<char>, external: bool) -> GraphView {
    if g.artifacts.contains_key(id) {
        g
    } else {
        GraphView { artifacts: g.artifacts.insert(id, external), nodes: g.nodes }
    }
}

/// Registering each of `ids` in turn.
pub open spec fn after_register_each(g: GraphView, ids: Seq<Seq<char>>, external: bool) -> GraphView
    decreases ids.len(),
{
    if ids.len() == 0 {
        g
    } else {
        after_register(after_register_each(g, ids.drop_last(), external), ids.last(), external)
    }
}

/// Why registering `id` is refused, if it is.
pub open spec fn register_error(g: GraphView, id: Seq<char>, external: bool) -> Option<GraphError> {
    if g.artifacts.contains_key(id) && g.artifacts[id] != external {
        Some(GraphError::ExternalMismatch)
    } else {
        None
    }
}

pub open spec fn new_node(inputs: Seq<Seq<char>>, node_type: Seq<char>) -> NodeView {
    NodeView { node_type, inputs, outputs: Seq::empty(), dirty: true }
}

/// Why creating node `id` is refused, if it is.
pub open spec fn create_error(g: GraphView, id: Seq<char>, inputs: Seq<Seq<char>>) -> Option<
    GraphError,
> {
    if g.nodes.contains_key(id) {
        Some(GraphError::DuplicateNode)
    } else if !all_registered(g, inputs) {
        Some(GraphError::UnknownArtifact)
    } else {
        None
    }
}

pub open spec fn after_create(
    g: GraphView,
    id: Seq<char>,
    inputs: Seq<Seq<char>>,
    node_type: Seq<char>,
) -> GraphView {
    GraphView { artifacts: g.artifacts, nodes: g.nodes.insert(id, new_node(inputs, node_type)) }
}

/// The artifacts after registering each of `outs` as internal where it is new.
pub open spec fn with_outputs(arts: Map<Seq<char>, bool>, outs: Seq<Seq<char>>) -> Map<
    Seq<char>,
    bool,
> {
    Map::new(
        |a: Seq<char>| arts.contains_key(a) || outs.contains(a),
        |a: Seq<char>|
            if arts.contains_key(a) {
                arts[a]
            } else {
                false
            },
    )
}

/// Setting the outputs of node `id`: they are registered, they replace the
/// node's producer edges, and the node becomes clean.
pub open spec fn after_set_outputs(g: GraphView, id: Seq<char>, outs: Seq<Seq<char>>) -> GraphView {
    GraphView {
        artifacts: with_outputs(g.artifacts, outs),
        nodes: g.nodes.insert(
            id,
            NodeView {
                node_type: g.nodes[id].node_type,
                inputs: g.nodes[id].inputs,
                outputs: outs,
                dirty: false,
            },
        ),
    }
}

/// Removing a node drops it with its input and producer edges; artifacts stay.
pub open spec fn after_remove(g: GraphView, id: Seq<char>) -> GraphView {
    GraphView { artifacts: g.artifacts, nodes: g.nodes.remove(id) }
}

/// Collection deletes exactly the orphans.
pub open spec fn after_cleanup(g: GraphView) -> GraphView {
    GraphView { artifacts: g.artifacts.remove_keys(orphans(g)), nodes: g.nodes }
}

} // verus!
