//! The dependency graph: artifacts and compute nodes kept as keyed rows, with
//! dirty tracking, downstream lookup and orphan collection.
use vstd::prelude::*;

use crate::error::GraphError;
use crate::graph_model::{
    after_cleanup, after_create, after_register, after_remove, after_set_outputs,
    all_registered, create_error, graph_valid, is_dirty, is_downstream, is_orphan, orphan_pred,
    orphans, produced, register_error, with_outputs, GraphView, NodeView,
};
use crate::keyed::{
    keyed_map, keys_unique, lemma_keyed_contains, lemma_keyed_index, lemma_keyed_len,
    lemma_keyed_push, lemma_keyed_remove, lemma_keyed_take_step, lemma_keyed_update,
};

verus! {

/// The row of one artifact.
struct ArtifactRecord {
    id: String,
    external: bool,
}

/// The row of one compute node, with its producer edges.
struct NodeRecord {
    id: String,
    node_type: String,
    inputs: Vec<String>,
    outputs: Vec<String>,
    dirty: bool,
}

impl NodeRecord {
    spec fn view(self) -> NodeView {
        NodeView {
            node_type: self.node_type@,
            inputs: self.inputs.deep_view(),
            outputs: self.outputs.deep_view(),
            dirty: self.dirty,
        }
    }
}

spec fn artifact_key() -> spec_fn(ArtifactRecord) -> Seq<char> {
    |r: ArtifactRecord| r.id@
}

spec fn artifact_flag() -> spec_fn(ArtifactRecord) -> bool {
    |r: ArtifactRecord| r.external
}

spec fn node_key() -> spec_fn(NodeRecord) -> Seq<char> {
    |r: NodeRecord| r.id@
}

spec fn node_val() -> spec_fn(NodeRecord) -> NodeView {
    |r: NodeRecord| r.view()
}

/// The artifact/compute-node graph.
pub struct DependencyGraph {
    artifacts: Vec<ArtifactRecord>,
    nodes: Vec<NodeRecord>,
}

impl View for DependencyGraph {
    type V = GraphView;

    closed spec fn view(&self) -> GraphView {
        GraphView {
            artifacts: keyed_map(self.artifacts@, artifact_key(), artifact_flag()),
            nodes: keyed_map(self.nodes@, node_key(), node_val()),
        }
    }
}

/// Whether `id` is one of `ids`.
fn contains_id(ids: &Vec<String>, id: &String) -> (r: bool)
    ensures
        r == ids.deep_view().contains(id@),
{
    let mut i: usize = 0;
    while i < ids.len()
        invariant
            0 <= i <= ids@.len(),
            forall|j: int| 0 <= j < i ==> ids@[j]@ != id@,
        decreases ids@.len() - i,
    {
        if ids[i] == *id {
            assert(ids.deep_view()[i as int] == id@);
            return true;
        }
        i += 1;
    }
    assert(!ids.deep_view().contains(id@)) by {
        if ids.deep_view().contains(id@) {
            let j = choose|j: int| 0 <= j < ids.deep_view().len() && ids.deep_view()[j] == id@;
            assert(ids@[j]@ == id@);
        }
    }
    false
}

/// A copy of a list of ids.
fn copy_ids(ids: &Vec<String>) -> (r: Vec<String>)
    ensures
        r.deep_view() == ids.deep_view(),
{
    let mut r: Vec<String> = Vec::new();
    let mut i: usize = 0;
    while i < ids.len()
        invariant
            0 <= i <= ids@.len(),
            r@.len() == i,
            forall|j: int| 0 <= j < i ==> r@[j]@ == ids@[j]@,
        decreases ids@.len() - i,
    {
        r.push(ids[i].clone());
        i += 1;
    }
    assert(r.deep_view() =~= ids.deep_view());
    r
}

impl DependencyGraph {
    /// Rows have unique ids and the view is a valid graph.
    pub closed spec fn wf(&self) -> bool {
        &&& keys_unique(self.artifacts@, artifact_key())
        &&& keys_unique(self.nodes@, node_key())
        &&& graph_valid(self@)
    }

    /// A well-formed graph's view is a valid graph.
    pub proof fn lemma_view_valid(&self)
        requires
            self.wf(),
        ensures
            graph_valid(self@),
    {
    }

    /// An empty graph.
    pub fn new() -> (g: DependencyGraph)
        ensures
            g.wf(),
            g@.artifacts == Map::<Seq<char>, bool>::empty(),
            g@.nodes == Map::<Seq<char>, NodeView>::empty(),
    {
        let g = DependencyGraph { artifacts: Vec::new(), nodes: Vec::new() };
        assert(g@.artifacts.dom() =~= Set::empty());
        assert(g@.nodes.dom() =~= Set::empty());
        g
    }

    fn find_artifact(&self, id: &String) -> (r: Option<usize>)
        requires
            self.wf(),
        ensures
            match r {
                Some(i) => {
                    &&& i < self.artifacts@.len()
                    &&& self.artifacts@[i as int].id@ == id@
                    &&& self@.artifacts.contains_key(id@)
                    &&& self@.artifacts[id@] == self.artifacts@[i as int].external
                },
                None => !self@.artifacts.contains_key(id@),
            },
    {
        let mut i: usize = 0;
        while i < self.artifacts.len()
            invariant
                self.wf(),
                0 <= i <= self.artifacts@.len(),
                forall|j: int| 0 <= j < i ==> self.artifacts@[j].id@ != id@,
            decreases self.artifacts@.len() - i,
        {
            if self.artifacts[i].id == *id {
                proof {
                    lemma_keyed_index(self.artifacts@, artifact_key(), artifact_flag(), i as int);
                }
                return Some(i);
            }
            i += 1;
        }
        proof {
            lemma_keyed_contains(self.artifacts@, artifact_key(), artifact_flag(), id@);
        }
        None
    }

    fn find_node(&self, id: &String) -> (r: Option<usize>)
        requires
            self.wf(),
        ensures
            match r {
                Some(i) => {
                    &&& i < self.nodes@.len()
                    &&& self.nodes@[i as int].id@ == id@
                    &&& self@.nodes.contains_key(id@)
                    &&& self@.nodes[id@] == self.nodes@[i as int].view()
                },
                None => !self@.nodes.contains_key(id@),
            },
    {
        let mut i: usize = 0;
        while i < self.nodes.len()
            invariant
                self.wf(),
                0 <= i <= self.nodes@.len(),
                forall|j: int| 0 <= j < i ==> self.nodes@[j].id@ != id@,
            decreases self.nodes@.len() - i,
        {
            if self.nodes[i].id == *id {
                proof {
                    lemma_keyed_index(self.nodes@, node_key(), node_val(), i as int);
                }
                return Some(i);
            }
            i += 1;
        }
        proof {
            lemma_keyed_contains(self.nodes@, node_key(), node_val(), id@);
        }
        None
    }

    /// Inserts `id` as internal when it is not registered yet.
    fn register_internal(&mut self, id: &String)
        requires
            old(self).wf(),
        ensures
            final(self).wf(),
            final(self)@ == after_register(old(self)@, id@, false),
            final(self).nodes@ == old(self).nodes@,
    {
        match self.find_artifact(id) {
            Some(_) => {},
            None => {
                let rec = ArtifactRecord { id: id.clone(), external: false };
                proof {
                    lemma_keyed_push(self.artifacts@, artifact_key(), artifact_flag(), rec);
                }
                self.artifacts.push(rec);
                proof {
                    lemma_keyed_len(self.artifacts@, artifact_key(), artifact_flag());
                }
            },
        }
    }

    /// Registers an artifact. A new id is inserted with the given flag; an id
    /// that is already registered keeps its flag, and asking for the other
    /// flag is refused. No node becomes dirty: a change reaches the graph as
    /// a new artifact id wired into a newly created node.
    pub fn register_artifact(&mut self, id: String, external: bool) -> (r: Result<(), GraphError>)
        requires
            old(self).wf(),
        ensures
            final(self).wf(),
            match register_error(old(self)@, id@, external) {
                Some(e) => r == Err::<(), GraphError>(e) && final(self)@ == old(self)@,
                None => r is Ok && final(self)@ == after_register(old(self)@, id@, external),
            },
    {
        match self.find_artifact(&id) {
            Some(i) => {
                if self.artifacts[i].external == external {
                    Ok(())
                } else {
                    Err(GraphError::ExternalMismatch)
                }
            },
            None => {
                let rec = ArtifactRecord { id, external };
                proof {
                    lemma_keyed_push(self.artifacts@, artifact_key(), artifact_flag(), rec);
                }
                self.artifacts.push(rec);
                proof {
                    lemma_keyed_len(self.artifacts@, artifact_key(), artifact_flag());
                }
                Ok(())
            },
        }
    }

    /// Creates a dirty compute node with the given inputs and no outputs.
    pub fn create_compute_node(&mut self, id: String, inputs: Vec<String>, node_type: String) -> (r:
        Result<(), GraphError>)
        requires
            old(self).wf(),
        ensures
            final(self).wf(),
            match create_error(old(self)@, id@, inputs.deep_view()) {
                Some(e) => r == Err::<(), GraphError>(e) && final(self)@ == old(self)@,
                None => r is Ok && final(self)@ == after_create(
                    old(self)@,
                    id@,
                    inputs.deep_view(),
                    node_type@,
                ),
            },
    {
        if self.find_node(&id).is_some() {
            return Err(GraphError::DuplicateNode);
        }
        let mut k: usize = 0;
        while k < inputs.len()
            invariant
                self.wf(),
                self@ == old(self)@,
                !self@.nodes.contains_key(id@),
                0 <= k <= inputs@.len(),
                forall|j: int| 0 <= j < k ==> self@.artifacts.contains_key(#[trigger] inputs@[j]@),
            decreases inputs@.len() - k,
        {
            if self.find_artifact(&inputs[k]).is_none() {
                assert(!all_registered(self@, inputs.deep_view())) by {
                    assert(inputs.deep_view()[k as int] == inputs@[k as int]@);
                }
                return Err(GraphError::UnknownArtifact);
            }
            k += 1;
        }
        assert(all_registered(self@, inputs.deep_view())) by {
            assert forall|j: int| 0 <= j < inputs.deep_view().len() implies self@.artifacts.contains_key(
                #[trigger] inputs.deep_view()[j],
            ) by {
                assert(inputs.deep_view()[j] == inputs@[j]@);
            }
        }
        let rec = NodeRecord { id, node_type, inputs, outputs: Vec::new(), dirty: true };
        proof {
            assert(rec.outputs.deep_view() =~= Seq::<Seq<char>>::empty());
            lemma_keyed_push(self.nodes@, node_key(), node_val(), rec);
        }
        self.nodes.push(rec);
        proof {
            lemma_keyed_len(self.nodes@, node_key(), node_val());
            let g = self@;
            assert forall|n: Seq<char>, a: Seq<char>|
                g.nodes.contains_key(n) && #[trigger] g.nodes[n].outputs.contains(
                    a,
                ) implies g.artifacts.contains_key(a) by {
                if n == rec.id@ {
                    assert(g.nodes[n].outputs =~= Seq::<Seq<char>>::empty());
                }
            }
        }
        Ok(())
    }

    /// The ids of all dirty compute nodes, each once, in no particular order.
    pub fn get_dirty_compute_nodes(&self) -> (r: Vec<String>)
        requires
            self.wf(),
        ensures
            r.deep_view().no_duplicates(),
            forall|n: Seq<char>| r.deep_view().contains(n) <==> is_dirty(self@, n),
    {
        let mut r: Vec<String> = Vec::new();
        let mut i: usize = 0;
        while i < self.nodes.len()
            invariant
                self.wf(),
                0 <= i <= self.nodes@.len(),
                r.deep_view().no_duplicates(),
                forall|a: int|
                    0 <= a < r@.len() ==> exists|j: int|
                        0 <= j < i && (#[trigger] r@[a])@ == self.nodes@[j].id@,
                forall|n: Seq<char>|
                    r.deep_view().contains(n) <==> exists|j: int|
                        0 <= j < i && (#[trigger] self.nodes@[j]).id@ == n && self.nodes@[j].dirty,
            decreases self.nodes@.len() - i,
        {
            if self.nodes[i].dirty {
                let ghost before = r.deep_view();
                let id = self.nodes[i].id.clone();
                r.push(id);
                proof {
                    assert(r.deep_view() =~= before.push(self.nodes@[i as int].id@));
                    assert forall|a: int| 0 <= a < before.len() implies before[a]
                        != self.nodes@[i as int].id@ by {
                        assert(before[a] == r@[a]@);
                        let j = choose|j: int| 0 <= j < i && (#[trigger] r@[a])@ == self.nodes@[j].id@;
                        assert(node_key()(self.nodes@[j]) != node_key()(self.nodes@[i as int]));
                    }
                    assert forall|a: int| 0 <= a < r@.len() implies exists|j: int|
                        0 <= j < i + 1 && (#[trigger] r@[a])@ == self.nodes@[j].id@ by {
                        if a < before.len() {
                            assert(before[a] == r@[a]@);
                        } else {
                            assert(r@[a]@ == self.nodes@[i as int].id@);
                        }
                    }
                    assert forall|n: Seq<char>|
                        (exists|j: int|
                            0 <= j < i + 1 && (#[trigger] self.nodes@[j]).id@ == n
                                && self.nodes@[j].dirty) implies r.deep_view().contains(n) by {
                        let j = choose|j: int|
                            0 <= j < i + 1 && (#[trigger] self.nodes@[j]).id@ == n
                                && self.nodes@[j].dirty;
                        if j < i {
                            assert(before.contains(n));
                            let a = choose|a: int| 0 <= a < before.len() && before[a] == n;
                            assert(r.deep_view()[a] == n);
                        } else {
                            assert(r.deep_view()[before.len() as int] == n);
                        }
                    }
                    assert forall|n: Seq<char>|
                        r.deep_view().contains(n) implies exists|j: int|
                            0 <= j < i + 1 && (#[trigger] self.nodes@[j]).id@ == n
                                && self.nodes@[j].dirty by {
                        let a = choose|a: int|
                            0 <= a < r.deep_view().len() && r.deep_view()[a] == n;
                        if a < before.len() {
                            assert(before[a] == n);
                            assert(before.contains(n));
                            let j = choose|j: int|
                                0 <= j < i && (#[trigger] self.nodes@[j]).id@ == n
                                    && self.nodes@[j].dirty;
                            assert(self.nodes@[j].id@ == n);
                        } else {
                            assert(self.nodes@[i as int].id@ == n);
                        }
                    }
                }
            }
            i += 1;
        }
        proof {
            assert forall|n: Seq<char>| r.deep_view().contains(n) <==> is_dirty(self@, n) by {
                lemma_keyed_contains(self.nodes@, node_key(), node_val(), n);
                if self@.nodes.contains_key(n) {
                    let j = choose|j: int|
                        0 <= j < self.nodes@.len() && node_key()(#[trigger] self.nodes@[j]) == n;
                    lemma_keyed_index(self.nodes@, node_key(), node_val(), j);
                }
                if r.deep_view().contains(n) {
                    let j = choose|j: int|
                        0 <= j < i && (#[trigger] self.nodes@[j]).id@ == n && self.nodes@[j].dirty;
                    lemma_keyed_index(self.nodes@, node_key(), node_val(), j);
                }
            }
        }
        r
    }

    /// The ids of all compute nodes whose inputs contain `artifact_id`, each once.
    pub fn get_downstream_compute_nodes(&self, artifact_id: String) -> (r: Vec<String>)
        requires
            self.wf(),
        ensures
            r.deep_view().no_duplicates(),
            forall|n: Seq<char>| r.deep_view().contains(n) <==> is_downstream(self@, artifact_id@, n),
    {
        let mut r: Vec<String> = Vec::new();
        let mut i: usize = 0;
        while i < self.nodes.len()
            invariant
                self.wf(),
                0 <= i <= self.nodes@.len(),
                r.deep_view().no_duplicates(),
                forall|a: int|
                    0 <= a < r@.len() ==> exists|j: int|
                        0 <= j < i && (#[trigger] r@[a])@ == self.nodes@[j].id@,
                forall|n: Seq<char>|
                    r.deep_view().contains(n) <==> exists|j: int|
                        0 <= j < i && (#[trigger] self.nodes@[j]).id@ == n
                            && self.nodes@[j].inputs.deep_view().contains(artifact_id@),
            decreases self.nodes@.len() - i,
        {
            if contains_id(&self.nodes[i].inputs, &artifact_id) {
                let ghost before = r.deep_view();
                let id = self.nodes[i].id.clone();
                r.push(id);
                proof {
                    assert(r.deep_view() =~= before.push(self.nodes@[i as int].id@));
                    assert forall|a: int| 0 <= a < before.len() implies before[a]
                        != self.nodes@[i as int].id@ by {
                        assert(before[a] == r@[a]@);
                        let j = choose|j: int| 0 <= j < i && (#[trigger] r@[a])@ == self.nodes@[j].id@;
                        assert(node_key()(self.nodes@[j]) != node_key()(self.nodes@[i as int]));
                    }
                    assert forall|a: int| 0 <= a < r@.len() implies exists|j: int|
                        0 <= j < i + 1 && (#[trigger] r@[a])@ == self.nodes@[j].id@ by {
                        if a < before.len() {
                            assert(before[a] == r@[a]@);
                        } else {
                            assert(r@[a]@ == self.nodes@[i as int].id@);
                        }
                    }
                    assert forall|n: Seq<char>|
                        (exists|j: int|
                            0 <= j < i + 1 && (#[trigger] self.nodes@[j]).id@ == n
                                && self.nodes@[j].inputs.deep_view().contains(
                                artifact_id@,
                            )) implies r.deep_view().contains(n) by {
                        let j = choose|j: int|
                            0 <= j < i + 1 && (#[trigger] self.nodes@[j]).id@ == n
                                && self.nodes@[j].inputs.deep_view().contains(artifact_id@);
                        if j < i {
                            assert(before.contains(n));
                            let a = choose|a: int| 0 <= a < before.len() && before[a] == n;
                            assert(r.deep_view()[a] == n);
                        } else {
                            assert(r.deep_view()[before.len() as int] == n);
                        }
                    }
                    assert forall|n: Seq<char>|
                        r.deep_view().contains(n) implies exists|j: int|
                            0 <= j < i + 1 && (#[trigger] self.nodes@[j]).id@ == n
                                && self.nodes@[j].inputs.deep_view().contains(artifact_id@) by {
                        let a = choose|a: int|
                            0 <= a < r.deep_view().len() && r.deep_view()[a] == n;
                        if a < before.len() {
                            assert(before[a] == n);
                            assert(before.contains(n));
                            let j = choose|j: int|
                                0 <= j < i && (#[trigger] self.nodes@[j]).id@ == n
                                    && self.nodes@[j].inputs.deep_view().contains(artifact_id@);
                            assert(self.nodes@[j].id@ == n);
                        } else {
                            assert(self.nodes@[i as int].id@ == n);
                        }
                    }
                }
            }
            i += 1;
        }
        proof {
            assert forall|n: Seq<char>|
                r.deep_view().contains(n) <==> is_downstream(self@, artifact_id@, n) by {
                lemma_keyed_contains(self.nodes@, node_key(), node_val(), n);
                if self@.nodes.contains_key(n) {
                    let j = choose|j: int|
                        0 <= j < self.nodes@.len() && node_key()(#[trigger] self.nodes@[j]) == n;
                    lemma_keyed_index(self.nodes@, node_key(), node_val(), j);
                }
                if r.deep_view().contains(n) {
                    let j = choose|j: int|
                        0 <= j < i && (#[trigger] self.nodes@[j]).id@ == n
                            && self.nodes@[j].inputs.deep_view().contains(artifact_id@);
                    lemma_keyed_index(self.nodes@, node_key(), node_val(), j);
                }
            }
        }
        r
    }

    /// The type and the inputs of a compute node.
    pub fn get_compute_node_details(&self, id: String) -> (r: Result<(String, Vec<String>), GraphError>)
        requires
            self.wf(),
        ensures
            match r {
                Ok((node_type, inputs)) => {
                    &&& self@.nodes.contains_key(id@)
                    &&& node_type@ == self@.nodes[id@].node_type
                    &&& inputs.deep_view() == self@.nodes[id@].inputs
                },
                Err(e) => !self@.nodes.contains_key(id@) && e == GraphError::NotFound,
            },
    {
        match self.find_node(&id) {
            Some(i) => Ok((self.nodes[i].node_type.clone(), copy_ids(&self.nodes[i].inputs))),
            None => Err(GraphError::NotFound),
        }
    }

    /// Records the outputs of a compute node: each is registered as internal if
    /// new, they replace the node's producer edges, and the node becomes clean.
    pub fn set_compute_node_outputs(&mut self, id: String, outputs: Vec<String>) -> (r: Result<
        (),
        GraphError,
    >)
        requires
            old(self).wf(),
        ensures
            final(self).wf(),
            old(self)@.nodes.contains_key(id@) ==> r is Ok && final(self)@ == after_set_outputs(
                old(self)@,
                id@,
                outputs.deep_view(),
            ),
            !old(self)@.nodes.contains_key(id@) ==> r == Err::<(), GraphError>(GraphError::NotFound)
                && final(self)@ == old(self)@,
    {
        let i = match self.find_node(&id) {
            Some(i) => i,
            None => return Err(GraphError::NotFound),
        };
        let ghost g0 = self@;
        let ghost outs = outputs.deep_view();
        let mut k: usize = 0;
        while k < outputs.len()
            invariant
                self.wf(),
                0 <= k <= outputs@.len(),
                outs == outputs.deep_view(),
                self.nodes@ == old(self).nodes@,
                i < self.nodes@.len(),
                self.nodes@[i as int].id@ == id@,
                g0.nodes.contains_key(id@),
                self@.nodes == g0.nodes,
                self@.artifacts == with_outputs(g0.artifacts, outs.take(k as int)),
            decreases outputs@.len() - k,
        {
            let ghost before = self@.artifacts;
            self.register_internal(&outputs[k]);
            proof {
                assert(outs[k as int] == outputs@[k as int]@);
                let t0 = outs.take(k as int);
                let t1 = outs.take(k as int + 1);
                assert forall|a: Seq<char>| #[trigger]
                    t1.contains(a) <==> (t0.contains(a) || a == outs[k as int]) by {
                    if t1.contains(a) {
                        let j = choose|j: int| 0 <= j < t1.len() && t1[j] == a;
                        if j < k {
                            assert(t0[j] == a);
                        }
                    }
                    if t0.contains(a) {
                        let j = choose|j: int| 0 <= j < t0.len() && t0[j] == a;
                        assert(t1[j] == a);
                    }
                    if a == outs[k as int] {
                        assert(t1[k as int] == a);
                    }
                }
                assert(self@.artifacts =~= with_outputs(g0.artifacts, outs.take(k as int + 1)));
            }
            k += 1;
        }
        proof {
            assert(outs.take(outputs@.len() as int) =~= outs);
        }
        let rec = NodeRecord {
            id: self.nodes[i].id.clone(),
            node_type: self.nodes[i].node_type.clone(),
            inputs: copy_ids(&self.nodes[i].inputs),
            outputs,
            dirty: false,
        };
        proof {
            lemma_keyed_index(self.nodes@, node_key(), node_val(), i as int);
            lemma_keyed_update(self.nodes@, node_key(), node_val(), i as int, rec);
        }
        self.nodes.set(i, rec);
        proof {
            lemma_keyed_len(self.nodes@, node_key(), node_val());
            let g = self@;
            assert(g == after_set_outputs(g0, id@, outs));
            assert forall|n: Seq<char>, a: Seq<char>|
                g.nodes.contains_key(n) && #[trigger] g.nodes[n].outputs.contains(
                    a,
                ) implies g.artifacts.contains_key(a) by {
                if n != id@ {
                    assert(g0.nodes[n].outputs.contains(a));
                }
            }
        }
        Ok(())
    }

    /// Removes a compute node with its input and producer edges. The artifacts
    /// it produced stay, as candidates for collection. A missing node is no error.
    pub fn remove_compute_node(&mut self, id: String) -> (r: Result<(), GraphError>)
        requires
            old(self).wf(),
        ensures
            final(self).wf(),
            r is Ok,
            final(self)@ == after_remove(old(self)@, id@),
    {
        match self.find_node(&id) {
            Some(i) => {
                proof {
                    lemma_keyed_remove(self.nodes@, node_key(), node_val(), i as int);
                }
                self.nodes.remove(i);
                proof {
                    lemma_keyed_len(self.nodes@, node_key(), node_val());
                }
            },
            None => {
                assert(self@.nodes.remove(id@) =~= self@.nodes);
            },
        }
        Ok(())
    }

    /// Whether some compute node claims `id` as an output.
    fn is_produced(&self, id: &String) -> (r: bool)
        requires
            self.wf(),
        ensures
            r == produced(self@, id@),
    {
        let mut j: usize = 0;
        while j < self.nodes.len()
            invariant
                self.wf(),
                0 <= j <= self.nodes@.len(),
                forall|k: int|
                    0 <= k < j ==> !(#[trigger] self.nodes@[k]).outputs.deep_view().contains(id@),
            decreases self.nodes@.len() - j,
        {
            if contains_id(&self.nodes[j].outputs, id) {
                proof {
                    lemma_keyed_index(self.nodes@, node_key(), node_val(), j as int);
                    assert(self@.nodes.contains_key(self.nodes@[j as int].id@));
                }
                return true;
            }
            j += 1;
        }
        proof {
            assert forall|n: Seq<char>| #[trigger]
                self@.nodes.contains_key(n) implies !self@.nodes[n].outputs.contains(id@) by {
                lemma_keyed_contains(self.nodes@, node_key(), node_val(), n);
                let k = choose|k: int|
                    0 <= k < self.nodes@.len() && node_key()(#[trigger] self.nodes@[k]) == n;
                lemma_keyed_index(self.nodes@, node_key(), node_val(), k);
            }
        }
        false
    }

    /// Deletes every orphan, an internal artifact that no compute node
    /// produces, and returns how many were deleted. External artifacts are
    /// never deleted.
    pub fn cleanup_orphans(&mut self) -> (r: Result<usize, GraphError>)
        requires
            old(self).wf(),
        ensures
            final(self).wf(),
            final(self)@ == after_cleanup(old(self)@),
            orphans(old(self)@).finite(),
            r matches Ok(count) && count as nat == orphans(old(self)@).len(),
    {
        let ghost g0 = self@;
        let ghost arts = self.artifacts@;
        let mut kept: Vec<ArtifactRecord> = Vec::new();
        let mut count: usize = 0;
        proof {
            assert(arts.take(0) =~= Seq::<ArtifactRecord>::empty());
            let m0 = keyed_map(arts.take(0), artifact_key(), artifact_flag());
            assert(m0.dom().filter(orphan_pred(g0)) =~= Set::<Seq<char>>::empty());
            assert(keyed_map(kept@, artifact_key(), artifact_flag()) =~= m0.remove_keys(orphans(g0)));
        }
        let mut i: usize = 0;
        while i < self.artifacts.len()
            invariant
                self.wf(),
                self@ == g0,
                self.artifacts@ == arts,
                0 <= i <= arts.len(),
                count <= i,
                keys_unique(kept@, artifact_key()),
                keyed_map(kept@, artifact_key(), artifact_flag()) == keyed_map(
                    arts.take(i as int),
                    artifact_key(),
                    artifact_flag(),
                ).remove_keys(orphans(g0)),
                keyed_map(arts.take(i as int), artifact_key(), artifact_flag()).dom().filter(
                    orphan_pred(g0),
                ).finite(),
                count == keyed_map(arts.take(i as int), artifact_key(), artifact_flag()).dom().filter(
                    orphan_pred(g0),
                ).len(),
            decreases arts.len() - i,
        {
            let ghost m = keyed_map(arts.take(i as int), artifact_key(), artifact_flag());
            let ghost k = arts[i as int].id@;
            let orphan = !self.artifacts[i].external && !self.is_produced(&self.artifacts[i].id);
            proof {
                lemma_keyed_take_step(arts, artifact_key(), artifact_flag(), i as int);
                lemma_keyed_index(arts, artifact_key(), artifact_flag(), i as int);
                assert(orphan == is_orphan(g0, k));
                let t = arts.take(i as int);
                assert(keys_unique(t, artifact_key())) by {
                    assert forall|a: int, b: int|
                        0 <= a < t.len() && 0 <= b < t.len() && a != b implies artifact_key()(
                            #[trigger] t[a],
                        ) != artifact_key()(#[trigger] t[b]) by {
                        assert(t[a] == arts[a] && t[b] == arts[b]);
                    }
                }
                lemma_keyed_contains(t, artifact_key(), artifact_flag(), k);
                if m.contains_key(k) {
                    let j = choose|j: int| 0 <= j < t.len() && artifact_key()(#[trigger] t[j]) == k;
                    assert(t[j] == arts[j]);
                    assert(false);
                }
                let m2 = keyed_map(arts.take(i as int + 1), artifact_key(), artifact_flag());
                if orphan {
                    assert(m2.dom().filter(orphan_pred(g0)) =~= m.dom().filter(orphan_pred(g0)).insert(
                        k,
                    ));
                } else {
                    assert(m2.dom().filter(orphan_pred(g0)) =~= m.dom().filter(orphan_pred(g0)));
                }
            }
            if orphan {
                count += 1;
            } else {
                let rec = ArtifactRecord {
                    id: self.artifacts[i].id.clone(),
                    external: self.artifacts[i].external,
                };
                proof {
                    lemma_keyed_push(kept@, artifact_key(), artifact_flag(), rec);
                }
                kept.push(rec);
                proof {
                    let m2 = keyed_map(arts.take(i as int + 1), artifact_key(), artifact_flag());
                    assert(keyed_map(kept@, artifact_key(), artifact_flag()) =~= m2.remove_keys(
                        orphans(g0),
                    ));
                }
            }
            proof {
                if orphan {
                    let m2 = keyed_map(arts.take(i as int + 1), artifact_key(), artifact_flag());
                    assert(keyed_map(kept@, artifact_key(), artifact_flag()) =~= m2.remove_keys(
                        orphans(g0),
                    ));
                }
            }
            i += 1;
        }
        proof {
            assert(arts.take(arts.len() as int) =~= arts);
            assert(orphans(g0) =~= g0.artifacts.dom().filter(orphan_pred(g0)));
        }
        self.artifacts = kept;
        proof {
            lemma_keyed_len(self.artifacts@, artifact_key(), artifact_flag());
            let g = self@;
            assert(g == after_cleanup(g0));
            assert forall|n: Seq<char>, a: Seq<char>|
                g.nodes.contains_key(n) && #[trigger] g.nodes[n].outputs.contains(
                    a,
                ) implies g.artifacts.contains_key(a) by {
                assert(g0.nodes.contains_key(n));
                assert(produced(g0, a));
            }
        }
        Ok(count)
    }
}

} // verus!
