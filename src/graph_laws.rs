//! Properties of the dependency graph's operations, over the graph model.
use vstd::prelude::*;

use crate::graph_model::{
    after_cleanup, after_create, after_register, after_register_each, after_remove,
    after_set_outputs, all_registered, create_error, graph_valid, is_dirty, is_downstream,
    is_orphan, orphan_pred, orphans, produced, GraphView,
};

verus! {

/// Registering each of `ids` leaves all of them registered and the nodes as they were.
pub proof fn lemma_register_each(g: GraphView, ids: Seq<Seq<char>>, external: bool)
    ensures
        all_registered(after_register_each(g, ids, external), ids),
        after_register_each(g, ids, external).nodes == g.nodes,
        forall|a: Seq<char>|
            #[trigger] g.artifacts.contains_key(a) ==> after_register_each(
                g,
                ids,
                external,
            ).artifacts.contains_key(a) && after_register_each(g, ids, external).artifacts[a]
                == g.artifacts[a],
    decreases ids.len(),
{
    if ids.len() > 0 {
        let p = ids.drop_last();
        lemma_register_each(g, p, external);
        let g1 = after_register_each(g, p, external);
        let g2 = after_register(g1, ids.last(), external);
        assert forall|i: int| 0 <= i < ids.len() implies g2.artifacts.contains_key(
            #[trigger] ids[i],
        ) by {
            if i < ids.len() - 1 {
                assert(ids[i] == p[i]);
            }
        }
    }
}

/// A new node is dirty: after registering each input as external and creating
/// node `n` over them, creation succeeds and `n` is among the dirty nodes.
pub proof fn law_new_node_is_dirty(
    g: GraphView,
    n: Seq<char>,
    inputs: Seq<Seq<char>>,
    node_type: Seq<char>,
)
    requires
        !g.nodes.contains_key(n),
    ensures
        create_error(after_register_each(g, inputs, true), n, inputs) is None,
        is_dirty(after_create(after_register_each(g, inputs, true), n, inputs, node_type), n),
{
    lemma_register_each(g, inputs, true);
}

/// Downstream lookup: a node created with `a` among its inputs is downstream of `a`.
pub proof fn law_downstream_of_input(
    g: GraphView,
    n: Seq<char>,
    inputs: Seq<Seq<char>>,
    node_type: Seq<char>,
    a: Seq<char>,
)
    requires
        create_error(g, n, inputs) is None,
        inputs.contains(a),
    ensures
        is_downstream(after_create(g, n, inputs, node_type), a, n),
{
}

/// Setting a node's outputs makes it clean and keeps its type, its inputs and
/// so every downstream edge into it.
pub proof fn law_clean_on_output(g: GraphView, n: Seq<char>, outs: Seq<Seq<char>>)
    requires
        g.nodes.contains_key(n),
    ensures
        !is_dirty(after_set_outputs(g, n, outs), n),
        after_set_outputs(g, n, outs).nodes.contains_key(n),
        after_set_outputs(g, n, outs).nodes[n].node_type == g.nodes[n].node_type,
        after_set_outputs(g, n, outs).nodes[n].inputs == g.nodes[n].inputs,
        forall|a: Seq<char>|
            #[trigger] is_downstream(g, a, n) ==> is_downstream(after_set_outputs(g, n, outs), a, n),
{
}

/// Collection goes by producers: an output that a live node claims survives,
/// whether or not any node consumes it.
pub proof fn law_produced_output_survives(g: GraphView, c1: Seq<char>, o1: Seq<char>)
    requires
        g.nodes.contains_key(c1),
        g.nodes[c1].outputs.contains(o1),
        g.artifacts.contains_key(o1),
    ensures
        after_cleanup(g).artifacts.contains_key(o1),
{
    assert(produced(g, o1));
    assert(!orphans(g).contains(o1));
}

/// When the only producer of `o1` is removed from a graph without orphans,
/// and `o1` was its only output, collection deletes exactly `o1` and counts one.
pub proof fn law_removed_producer_orphans_output(g: GraphView, c1: Seq<char>, o1: Seq<char>)
    requires
        graph_valid(g),
        orphans(g) == Set::<Seq<char>>::empty(),
        g.nodes.contains_key(c1),
        g.nodes[c1].outputs.contains(o1),
        forall|a: Seq<char>| #[trigger] g.nodes[c1].outputs.contains(a) ==> a == o1,
        forall|n: Seq<char>|
            #[trigger] g.nodes.contains_key(n) && n != c1 ==> !g.nodes[n].outputs.contains(o1),
        !g.artifacts[o1],
    ensures
        orphans(after_remove(g, c1)) == set![o1],
        orphans(after_remove(g, c1)).len() == 1,
        after_cleanup(after_remove(g, c1)).artifacts == g.artifacts.remove(o1),
        after_cleanup(after_remove(g, c1)).nodes == g.nodes.remove(c1),
{
    let g1 = after_remove(g, c1);
    assert(g.artifacts.contains_key(o1));
    assert forall|a: Seq<char>| orphans(g1).contains(a) <==> a == o1 by {
        if a == o1 {
            assert(!produced(g1, o1));
        } else if is_orphan(g1, a) {
            if produced(g, a) {
                let n = choose|n: Seq<char>|
                    #[trigger] g.nodes.contains_key(n) && g.nodes[n].outputs.contains(a);
                assert(n != c1);
                assert(g1.nodes.contains_key(n));
            }
            assert(is_orphan(g, a));
            assert(orphans(g).contains(a));
        }
    }
    assert(orphans(g1) =~= set![o1]);
    assert(set![o1].len() == 1) by {
        assert(set![o1] =~= Set::<Seq<char>>::empty().insert(o1));
    }
    assert(g1.artifacts.remove_keys(orphans(g1)) =~= g.artifacts.remove(o1));
}

/// External artifacts are permanent: collection keeps each of them, with its
/// flag, whatever produces or consumes it; and no other operation drops one or
/// changes its flag.
pub proof fn law_external_permanent(g: GraphView, a: Seq<char>)
    requires
        g.artifacts.contains_key(a),
        g.artifacts[a],
    ensures
        after_cleanup(g).artifacts.contains_key(a),
        after_cleanup(g).artifacts[a],
        forall|id: Seq<char>, external: bool|
            #[trigger] after_register(g, id, external).artifacts.contains_key(a)
                && after_register(g, id, external).artifacts[a],
        forall|id: Seq<char>, inputs: Seq<Seq<char>>, t: Seq<char>|
            #[trigger] after_create(g, id, inputs, t).artifacts.contains_key(a) && after_create(
                g,
                id,
                inputs,
                t,
            ).artifacts[a],
        forall|id: Seq<char>, outs: Seq<Seq<char>>|
            #[trigger] after_set_outputs(g, id, outs).artifacts.contains_key(a)
                && after_set_outputs(g, id, outs).artifacts[a],
        forall|id: Seq<char>|
            #[trigger] after_remove(g, id).artifacts.contains_key(a) && after_remove(
                g,
                id,
            ).artifacts[a],
{
    assert(!orphans(g).contains(a));
}

/// Retrying is safe: registering, setting outputs, removing and collecting a
/// second time with the same arguments changes nothing more, and creating a
/// node that exists is refused.
pub proof fn law_retries_are_idempotent(
    g: GraphView,
    id: Seq<char>,
    external: bool,
    n: Seq<char>,
    inputs: Seq<Seq<char>>,
    node_type: Seq<char>,
    outs: Seq<Seq<char>>,
)
    ensures
        after_register(after_register(g, id, external), id, external) == after_register(
            g,
            id,
            external,
        ),
        create_error(after_create(g, n, inputs, node_type), n, inputs) == Some(
            crate::error::GraphError::DuplicateNode,
        ),
        g.nodes.contains_key(n) ==> after_set_outputs(after_set_outputs(g, n, outs), n, outs)
            == after_set_outputs(g, n, outs),
        after_remove(after_remove(g, n), n) == after_remove(g, n),
        orphans(after_cleanup(g)) == Set::<Seq<char>>::empty(),
        after_cleanup(after_cleanup(g)) == after_cleanup(g),
{
    let g1 = after_set_outputs(g, n, outs);
    if g.nodes.contains_key(n) {
        let g2 = after_set_outputs(g1, n, outs);
        assert(g2.artifacts =~= g1.artifacts);
        assert(g2.nodes =~= g1.nodes);
    }
    assert(after_remove(after_remove(g, n), n).nodes =~= after_remove(g, n).nodes);
    let c = after_cleanup(g);
    assert forall|a: Seq<char>| !#[trigger] orphans(c).contains(a) by {
        if is_orphan(c, a) {
            assert(g.artifacts.contains_key(a));
            assert(c.artifacts[a] == g.artifacts[a]);
            assert(c.nodes == g.nodes);
            assert(produced(c, a) == produced(g, a));
            assert(orphan_pred(g)(a));
            assert(orphans(g).contains(a));
        }
    }
    assert(orphans(c) =~= Set::<Seq<char>>::empty());
    assert(c.artifacts.remove_keys(orphans(c)) =~= c.artifacts);
}

} // verus!
