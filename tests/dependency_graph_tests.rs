use curio::graph::DependencyGraph;
use curio::GraphError;

fn dirty(g: &DependencyGraph) -> Vec<String> {
    let mut d = g.get_dirty_compute_nodes();
    d.sort();
    d
}

#[test]
fn test_case_1_new_flow() {
    let mut client = DependencyGraph::new();
    let artifact_id = "checksum_A".to_string();
    let compute_id = "compute_1_new_flow".to_string();

    client.register_artifact(artifact_id.clone(), true).unwrap();
    client
        .create_compute_node(compute_id.clone(), vec![artifact_id], "Compile".to_string())
        .unwrap();

    let found = client.get_dirty_compute_nodes().iter().any(|id| *id == compute_id);
    assert!(found, "Compute node should be dirty after creation");
}

#[test]
fn test_case_2_update_flow_queries() {
    let mut client = DependencyGraph::new();
    let artifact_id_a = "checksum_A_update".to_string();
    let compute_id_1 = "compute_1_update".to_string();

    client.register_artifact(artifact_id_a.clone(), true).unwrap();
    client
        .create_compute_node(compute_id_1.clone(), vec![artifact_id_a.clone()], "Compile".to_string())
        .unwrap();

    let downstream = client.get_downstream_compute_nodes(artifact_id_a);
    let first = downstream.first().expect("stream empty");
    assert_eq!(*first, compute_id_1);

    let (node_type, inputs) = client.get_compute_node_details(compute_id_1.clone()).unwrap();
    assert_eq!(node_type, "Compile");
    assert_eq!(inputs.len(), 1);
    assert_eq!(inputs[0], "checksum_A_update");

    client
        .set_compute_node_outputs(compute_id_1.clone(), vec!["checksum_B".to_string()])
        .unwrap();

    for id in client.get_dirty_compute_nodes() {
        if id == compute_id_1 {
            panic!("Compute node should be clean after set_compute_node_outputs");
        }
    }
}

#[test]
fn test_gc_flow() {
    let mut client = DependencyGraph::new();
    let external_input = "ext_1".to_string();
    let compute_1 = "comp_1".to_string();
    let output_1 = "out_1".to_string();

    client.register_artifact(external_input.clone(), true).unwrap();
    client.register_artifact(output_1.clone(), false).unwrap();

    client
        .create_compute_node(compute_1.clone(), vec![external_input.clone()], "Compile".to_string())
        .unwrap();
    client.set_compute_node_outputs(compute_1.clone(), vec![output_1.clone()]).unwrap();

    let compute_2 = "comp_2".to_string();
    let output_2 = "out_2".to_string();
    client.register_artifact(output_2.clone(), false).unwrap();

    client.remove_compute_node(compute_1.clone()).unwrap();
    client
        .create_compute_node(compute_2.clone(), vec![external_input.clone()], "Compile".to_string())
        .unwrap();
    client.set_compute_node_outputs(compute_2.clone(), vec![output_2.clone()]).unwrap();

    let count = client.cleanup_orphans().unwrap();
    assert_eq!(count, 1, "Should delete 1 orphan (out_1)");
}

#[test]
fn scenario_dirty_then_clean_keeps_downstream() {
    let mut g = DependencyGraph::new();
    g.register_artifact("A".to_string(), true).unwrap();
    g.create_compute_node("c1".to_string(), vec!["A".to_string()], "Compile".to_string()).unwrap();
    assert_eq!(dirty(&g), vec!["c1".to_string()]);
    g.set_compute_node_outputs("c1".to_string(), vec!["B".to_string()]).unwrap();
    assert!(dirty(&g).is_empty());
    assert_eq!(g.get_downstream_compute_nodes("A".to_string()), vec!["c1".to_string()]);
}

#[test]
fn new_node_over_external_inputs_is_dirty() {
    let mut g = DependencyGraph::new();
    let inputs = vec!["x".to_string(), "y".to_string(), "z".to_string()];
    for i in &inputs {
        g.register_artifact(i.clone(), true).unwrap();
    }
    g.create_compute_node("n".to_string(), inputs, "T".to_string()).unwrap();
    assert!(dirty(&g).contains(&"n".to_string()));
}

#[test]
fn downstream_lists_every_consumer_once() {
    let mut g = DependencyGraph::new();
    g.register_artifact("a".to_string(), true).unwrap();
    g.register_artifact("b".to_string(), true).unwrap();
    g.create_compute_node("n1".to_string(), vec!["a".to_string()], "T".to_string()).unwrap();
    g.create_compute_node("n2".to_string(), vec!["b".to_string(), "a".to_string()], "T".to_string())
        .unwrap();
    g.create_compute_node("n3".to_string(), vec!["b".to_string()], "T".to_string()).unwrap();
    let mut down = g.get_downstream_compute_nodes("a".to_string());
    down.sort();
    assert_eq!(down, vec!["n1".to_string(), "n2".to_string()]);
    assert!(g.get_downstream_compute_nodes("zzz".to_string()).is_empty());
}

#[test]
fn details_survive_setting_outputs() {
    let mut g = DependencyGraph::new();
    g.register_artifact("a".to_string(), true).unwrap();
    g.register_artifact("b".to_string(), true).unwrap();
    g.create_compute_node("n".to_string(), vec!["b".to_string(), "a".to_string()], "Link".to_string())
        .unwrap();
    g.set_compute_node_outputs("n".to_string(), vec!["o".to_string()]).unwrap();
    let (t, ins) = g.get_compute_node_details("n".to_string()).unwrap();
    assert_eq!(t, "Link");
    assert_eq!(ins, vec!["b".to_string(), "a".to_string()]);
    assert!(dirty(&g).is_empty());
}

#[test]
fn produced_output_without_consumer_survives_collection() {
    let mut g = DependencyGraph::new();
    g.register_artifact("src".to_string(), true).unwrap();
    g.create_compute_node("c1".to_string(), vec!["src".to_string()], "T".to_string()).unwrap();
    g.set_compute_node_outputs("c1".to_string(), vec!["o1".to_string()]).unwrap();
    assert_eq!(g.cleanup_orphans().unwrap(), 0);
    // o1 is still registered: registering it again as internal is accepted,
    // as external it is refused.
    assert_eq!(g.register_artifact("o1".to_string(), false), Ok(()));
    assert_eq!(g.register_artifact("o1".to_string(), true), Err(GraphError::ExternalMismatch));

    g.remove_compute_node("c1".to_string()).unwrap();
    assert_eq!(g.cleanup_orphans().unwrap(), 1);
    // o1 is gone now: registering it as external is a fresh insert.
    assert_eq!(g.register_artifact("o1".to_string(), true), Ok(()));
}

#[test]
fn output_claimed_by_another_node_survives() {
    let mut g = DependencyGraph::new();
    g.register_artifact("src".to_string(), true).unwrap();
    g.create_compute_node("c1".to_string(), vec!["src".to_string()], "T".to_string()).unwrap();
    g.create_compute_node("c2".to_string(), vec!["src".to_string()], "T".to_string()).unwrap();
    g.set_compute_node_outputs("c1".to_string(), vec!["o".to_string()]).unwrap();
    g.set_compute_node_outputs("c2".to_string(), vec!["o".to_string()]).unwrap();
    g.remove_compute_node("c1".to_string()).unwrap();
    assert_eq!(g.cleanup_orphans().unwrap(), 0);
}

#[test]
fn replaced_outputs_become_orphans() {
    let mut g = DependencyGraph::new();
    g.register_artifact("src".to_string(), true).unwrap();
    g.create_compute_node("c".to_string(), vec!["src".to_string()], "T".to_string()).unwrap();
    g.set_compute_node_outputs("c".to_string(), vec!["o1".to_string(), "o2".to_string()]).unwrap();
    g.set_compute_node_outputs("c".to_string(), vec!["o2".to_string()]).unwrap();
    assert_eq!(g.cleanup_orphans().unwrap(), 1);
    assert_eq!(g.cleanup_orphans().unwrap(), 0);
}

#[test]
fn external_artifacts_are_never_collected() {
    let mut g = DependencyGraph::new();
    g.register_artifact("e1".to_string(), true).unwrap();
    g.register_artifact("e2".to_string(), true).unwrap();
    g.register_artifact("i1".to_string(), false).unwrap();
    g.create_compute_node("c".to_string(), vec!["e1".to_string()], "T".to_string()).unwrap();
    g.set_compute_node_outputs("c".to_string(), vec!["e2".to_string()]).unwrap();
    g.remove_compute_node("c".to_string()).unwrap();
    assert_eq!(g.cleanup_orphans().unwrap(), 1);
    assert_eq!(g.register_artifact("e1".to_string(), true), Ok(()));
    assert_eq!(g.register_artifact("e2".to_string(), true), Ok(()));
    assert_eq!(g.register_artifact("e2".to_string(), false), Err(GraphError::ExternalMismatch));
}

#[test]
fn graph_errors() {
    let mut g = DependencyGraph::new();
    g.register_artifact("a".to_string(), true).unwrap();
    assert_eq!(
        g.create_compute_node("n".to_string(), vec!["a".to_string(), "missing".to_string()], "T".to_string()),
        Err(GraphError::UnknownArtifact)
    );
    assert!(dirty(&g).is_empty());
    g.create_compute_node("n".to_string(), vec!["a".to_string()], "T".to_string()).unwrap();
    assert_eq!(
        g.create_compute_node("n".to_string(), vec!["a".to_string()], "U".to_string()),
        Err(GraphError::DuplicateNode)
    );
    assert_eq!(g.get_compute_node_details("n".to_string()).unwrap().0, "T");
    assert_eq!(g.get_compute_node_details("nope".to_string()), Err(GraphError::NotFound));
    assert_eq!(
        g.set_compute_node_outputs("nope".to_string(), vec!["o".to_string()]),
        Err(GraphError::NotFound)
    );
    assert_eq!(g.remove_compute_node("nope".to_string()), Ok(()));
    assert_eq!(g.register_artifact("a".to_string(), false), Err(GraphError::ExternalMismatch));
}

#[test]
fn removed_node_is_gone_everywhere() {
    let mut g = DependencyGraph::new();
    g.register_artifact("a".to_string(), true).unwrap();
    g.create_compute_node("n".to_string(), vec!["a".to_string()], "T".to_string()).unwrap();
    g.remove_compute_node("n".to_string()).unwrap();
    assert!(dirty(&g).is_empty());
    assert!(g.get_downstream_compute_nodes("a".to_string()).is_empty());
    assert_eq!(g.get_compute_node_details("n".to_string()), Err(GraphError::NotFound));
    g.create_compute_node("n".to_string(), vec!["a".to_string()], "T2".to_string()).unwrap();
    assert_eq!(dirty(&g), vec!["n".to_string()]);
}

#[test]
fn unproduced_internal_input_is_collected() {
    let mut g = DependencyGraph::new();
    g.register_artifact("i".to_string(), false).unwrap();
    g.create_compute_node("n".to_string(), vec!["i".to_string()], "T".to_string()).unwrap();
    assert_eq!(g.cleanup_orphans().unwrap(), 1);
    assert_eq!(g.get_downstream_compute_nodes("i".to_string()), vec!["n".to_string()]);
}

#[test]
fn retries_are_harmless() {
    let mut g = DependencyGraph::new();
    g.register_artifact("a".to_string(), true).unwrap();
    g.register_artifact("a".to_string(), true).unwrap();
    g.create_compute_node("n".to_string(), vec!["a".to_string()], "T".to_string()).unwrap();
    assert_eq!(
        g.create_compute_node("n".to_string(), vec!["a".to_string()], "T".to_string()),
        Err(GraphError::DuplicateNode)
    );
    g.set_compute_node_outputs("n".to_string(), vec!["o".to_string()]).unwrap();
    g.set_compute_node_outputs("n".to_string(), vec!["o".to_string()]).unwrap();
    assert!(dirty(&g).is_empty());
    assert_eq!(g.cleanup_orphans().unwrap(), 0);
    g.remove_compute_node("n".to_string()).unwrap();
    g.remove_compute_node("n".to_string()).unwrap();
    assert_eq!(g.cleanup_orphans().unwrap(), 1);
    assert_eq!(g.cleanup_orphans().unwrap(), 0);
}
