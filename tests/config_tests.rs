use curio::rules::{ArtifactRule, ComputeNodeTemplate, CurioConfig, InputTemplate, WorkflowRule};
use curio::template::{instantiate, plan_compute_nodes, render_template, ResolvedInput};
use curio::rules::ArtifactMatch;

fn rule(t: &str, pattern: &str) -> ArtifactRule {
    ArtifactRule { artifact_type: t.to_string(), match_pattern: pattern.to_string() }
}

fn sample_config() -> CurioConfig {
    let artifacts = vec![
        rule("document", r"websites/(?P<site_id>[^/]+)/documents/(?P<doc_id>[^/]+)\.pdf"),
        rule("site_config", r"websites/(?P<site_id>[^/]+)/config\.json"),
    ];
    let workflows = vec![WorkflowRule {
        trigger: "document".to_string(),
        compute_node: ComputeNodeTemplate {
            node_type: "analyze_document".to_string(),
            id: "analysis-{site_id}-{doc_id}".to_string(),
            inputs: vec![
                InputTemplate::SelfArtifact,
                InputTemplate::Artifact { path: "websites/{site_id}/config.json".to_string() },
            ],
        },
    }];
    CurioConfig::compile(artifacts, workflows).expect("Failed to parse YAML")
}

fn vars(pairs: &[(&str, &str)]) -> ArtifactMatch {
    ArtifactMatch {
        artifact_type: "t".to_string(),
        variables: pairs.iter().map(|(k, v)| (k.to_string(), v.to_string())).collect(),
    }
}

#[test]
fn test_config_loading_and_matching() {
    let config = sample_config();

    let path = "websites/siteA/documents/doc1.pdf";
    let matched = config.match_artifact(path).expect("Should match document");
    assert_eq!(matched.artifact_type, "document");
    assert_eq!(matched.variable("site_id").unwrap(), "siteA");
    assert_eq!(matched.variable("doc_id").unwrap(), "doc1");

    let path_conf = "websites/siteB/config.json";
    let matched_conf = config.match_artifact(path_conf).expect("Should match config");
    assert_eq!(matched_conf.artifact_type, "site_config");
    assert_eq!(matched_conf.variable("site_id").unwrap(), "siteB");

    assert!(config.match_artifact("random/file.txt").is_none());

    let workflows = config.get_workflows_for_type("document");
    assert_eq!(workflows.len(), 1);
    assert_eq!(workflows[0].compute_node.node_type, "analyze_document");

    if let InputTemplate::Artifact { path } = &workflows[0].compute_node.inputs[1] {
        assert_eq!(path, "websites/{site_id}/config.json");
    } else {
        panic!("Expected Artifact input");
    }
}

#[test]
fn scenario_document_match_variables() {
    let config = sample_config();
    let m = config.match_artifact("websites/siteA/documents/doc1.pdf").unwrap();
    assert_eq!(m.artifact_type, "document");
    assert_eq!(
        m.variables,
        vec![
            ("site_id".to_string(), "siteA".to_string()),
            ("doc_id".to_string(), "doc1".to_string())
        ]
    );
}

#[test]
fn scenario_unmatched_path_is_untyped() {
    let config = sample_config();
    assert!(config.match_artifact("random/file.txt").is_none());
    assert!(plan_compute_nodes(&config, "random/file.txt").is_empty());
}

#[test]
fn first_declared_rule_wins() {
    let config = CurioConfig::compile(
        vec![rule("first", r"data/(?P<name>.+)"), rule("second", r"data/(?P<name>[a-z]+)\.csv")],
        vec![],
    )
    .unwrap();
    let m = config.match_artifact("data/table.csv").unwrap();
    assert_eq!(m.artifact_type, "first");
    assert_eq!(m.variable("name").unwrap(), "table.csv");

    let swapped = CurioConfig::compile(
        vec![rule("second", r"data/(?P<name>[a-z]+)\.csv"), rule("first", r"data/(?P<name>.+)")],
        vec![],
    )
    .unwrap();
    assert_eq!(swapped.match_artifact("data/table.csv").unwrap().artifact_type, "second");
}

#[test]
fn groups_that_take_no_part_are_left_out() {
    let config =
        CurioConfig::compile(vec![rule("x", r"(?P<a>\d+)?-(?P<b>\w+)")], vec![]).unwrap();
    let m = config.match_artifact("-abc").unwrap();
    assert_eq!(m.variables, vec![("b".to_string(), "abc".to_string())]);
    assert!(m.variable("a").is_none());
}

#[test]
fn invalid_pattern_is_a_config_error() {
    let err = CurioConfig::compile(
        vec![rule("ok", "a+"), rule("bad", "foo(bar"), rule("bad2", "[")],
        vec![],
    )
    .err()
    .unwrap();
    assert_eq!(err.rule_index, 1);
    assert_eq!(err.pattern, "foo(bar");
}

#[test]
fn workflows_by_trigger_in_order() {
    let wf = |trigger: &str, id: &str| WorkflowRule {
        trigger: trigger.to_string(),
        compute_node: ComputeNodeTemplate { node_type: "T".to_string(), id: id.to_string(), inputs: vec![] },
    };
    let config =
        CurioConfig::compile(vec![], vec![wf("a", "1"), wf("b", "2"), wf("a", "3")]).unwrap();
    let ids: Vec<&str> =
        config.get_workflows_for_type("a").iter().map(|w| w.compute_node.id.as_str()).collect();
    assert_eq!(ids, vec!["1", "3"]);
    assert!(config.get_workflows_for_type("c").is_empty());
}

#[test]
fn render_substitutes_variables() {
    let m = vars(&[("site_id", "siteA"), ("doc_id", "doc1")]);
    assert_eq!(render_template("analysis-{site_id}-{doc_id}", &m).unwrap(), "analysis-siteA-doc1");
    assert_eq!(render_template("plain", &m).unwrap(), "plain");
    assert_eq!(render_template("", &m).unwrap(), "");
    assert_eq!(render_template("open {site_id", &m).unwrap(), "open {site_id");
}

#[test]
fn render_missing_variable_is_an_error() {
    let m = vars(&[("site_id", "siteA")]);
    let err = render_template("x-{doc_id}-{other}", &m).unwrap_err();
    assert_eq!(err.variable, "doc_id");
}

#[test]
fn instantiate_resolves_id_and_inputs() {
    let config = sample_config();
    let path = "websites/siteA/documents/doc1.pdf";
    let m = config.match_artifact(path).unwrap();
    let w = config.get_workflows_for_type(&m.artifact_type);
    let spec = instantiate(&w[0].compute_node, &m, path).unwrap();
    assert_eq!(spec.id, "analysis-siteA-doc1");
    assert_eq!(spec.node_type, "analyze_document");
    assert_eq!(spec.inputs.len(), 2);
    match &spec.inputs[0] {
        ResolvedInput::SelfArtifact { path: p } => assert_eq!(p, path),
        _ => panic!("expected the triggering artifact"),
    }
    match &spec.inputs[1] {
        ResolvedInput::Artifact { path: p } => assert_eq!(p, "websites/siteA/config.json"),
        _ => panic!("expected an artifact path"),
    }
}

#[test]
fn plan_reports_failing_workflows_in_place() {
    let artifacts = vec![rule("document", r"docs/(?P<doc_id>[^/]+)\.pdf")];
    let node = |id: &str, inputs: Vec<InputTemplate>| ComputeNodeTemplate {
        node_type: "T".to_string(),
        id: id.to_string(),
        inputs,
    };
    let workflows = vec![
        WorkflowRule { trigger: "document".to_string(), compute_node: node("a-{doc_id}", vec![]) },
        WorkflowRule { trigger: "document".to_string(), compute_node: node("b-{site_id}", vec![]) },
        WorkflowRule {
            trigger: "document".to_string(),
            compute_node: node(
                "c-{doc_id}",
                vec![InputTemplate::External { name: "catalog".to_string() }],
            ),
        },
    ];
    let config = CurioConfig::compile(artifacts, workflows).unwrap();
    let plan = plan_compute_nodes(&config, "docs/d7.pdf");
    assert_eq!(plan.len(), 3);
    assert_eq!(plan[0].as_ref().unwrap().id, "a-d7");
    assert_eq!(plan[1].as_ref().err().unwrap().variable, "site_id");
    let third = plan[2].as_ref().unwrap();
    assert_eq!(third.id, "c-d7");
    match &third.inputs[0] {
        ResolvedInput::External { name } => assert_eq!(name, "catalog"),
        _ => panic!("expected an external input"),
    }
}

#[test]
fn from_captures_pairs_names_with_groups() {
    let names = vec![None, Some("a".to_string()), None, Some("b".to_string()), Some("c".to_string())];
    let groups = vec![
        Some("whole".to_string()),
        Some("1".to_string()),
        Some("2".to_string()),
        None,
        Some("3".to_string()),
    ];
    let m = ArtifactMatch::from_captures(&"t".to_string(), &names, &groups);
    assert_eq!(m.artifact_type, "t");
    assert_eq!(
        m.variables,
        vec![("a".to_string(), "1".to_string()), ("c".to_string(), "3".to_string())]
    );
}
