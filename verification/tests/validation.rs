use n8n_cli::models::connection::{Connection, ConnectionsMap};
use n8n_cli::models::node::Node;
use n8n_cli::models::workflow::TypedWorkflow;
use n8n_cli::validation::{validate_workflow, ValidationIssue, ValidationResult, ValidationSeverity};

fn workflow(name: &str, nodes: Vec<Node>, edges: &[(&str, &str)]) -> TypedWorkflow {
    let mut connections = ConnectionsMap::new();
    for (from, to) in edges {
        Connection::add_to_map(&mut connections, &Connection::new(from.to_string(), to.to_string()));
    }
    TypedWorkflow {
        id: None,
        name: name.to_string(),
        active: false,
        nodes,
        connections,
        settings: Default::default(),
        tags: vec![],
        version_id: None,
    }
}

fn plain(id: &str, name: &str) -> Node {
    Node::new(id.to_string(), name.to_string(), "type".to_string())
}

fn trigger(id: &str, name: &str) -> Node {
    Node::new(id.to_string(), name.to_string(), "n8n-nodes-base.manualTrigger".to_string())
}

fn shown(result: &ValidationResult) -> Vec<(ValidationSeverity, String, Option<String>)> {
    result
        .issues
        .iter()
        .map(|i| (i.severity, i.message.clone(), i.node.clone()))
        .collect()
}

fn error(message: &str, node: Option<&str>) -> (ValidationSeverity, String, Option<String>) {
    (ValidationSeverity::Error, message.to_string(), node.map(|n| n.to_string()))
}

fn warning(message: &str, node: Option<&str>) -> (ValidationSeverity, String, Option<String>) {
    (ValidationSeverity::Warning, message.to_string(), node.map(|n| n.to_string()))
}

#[test]
fn test_validate_empty_workflow() {
    let workflow = TypedWorkflow {
        id: None,
        name: "Test".to_string(),
        active: false,
        nodes: vec![],
        connections: ConnectionsMap::new(),
        settings: Default::default(),
        tags: vec![],
        version_id: None,
    };

    let result = validate_workflow(&workflow);
    assert!(result.warnings().len() > 0);
}

#[test]
fn test_validate_duplicate_names() {
    let workflow = TypedWorkflow {
        id: None,
        name: "Test".to_string(),
        active: false,
        nodes: vec![
            Node::new("1".into(), "Same".into(), "type".into()),
            Node::new("2".into(), "Same".into(), "type".into()),
        ],
        connections: ConnectionsMap::new(),
        settings: Default::default(),
        tags: vec![],
        version_id: None,
    };

    let result = validate_workflow(&workflow);
    assert!(!result.is_valid());
}

#[test]
fn empty_workflow_gets_one_warning_and_nothing_else() {
    let result = validate_workflow(&workflow("   ", vec![], &[("X", "Y")]));
    assert_eq!(shown(&result), vec![warning("Workflow has no nodes", None)]);
    assert!(result.is_valid());
}

#[test]
fn lone_trigger_named_a_has_no_issue() {
    let result = validate_workflow(&workflow("Flow", vec![trigger("1", "A")], &[]));
    assert!(result.issues.is_empty());
    assert!(result.is_valid());
    assert!(result.errors().is_empty());
    assert_eq!(result.format(true), "");
}

#[test]
fn two_nodes_named_start_give_one_duplicate_name_error() {
    let nodes = vec![trigger("1", "Start"), trigger("2", "Start")];
    let result = validate_workflow(&workflow("Flow", nodes, &[]));
    let errors = result.errors();
    assert_eq!(errors.len(), 1);
    assert_eq!(errors[0].message, "Duplicate node name: Start");
    assert_eq!(errors[0].node.as_deref(), Some("Start"));
    assert!(!result.is_valid());
}

#[test]
fn edge_to_a_missing_node_gives_one_dangling_target_error() {
    let result = validate_workflow(&workflow("Flow", vec![trigger("1", "X")], &[("X", "Y")]));
    let errors = result.errors();
    assert_eq!(errors.len(), 1);
    assert_eq!(errors[0].message, "Connection references non-existent target node: Y");
    assert_eq!(errors[0].node.as_deref(), Some("Y"));
}

#[test]
fn every_later_duplicate_id_is_flagged_and_the_first_is_not() {
    let nodes = vec![trigger("1", "A"), trigger("1", "B"), trigger("2", "C"), trigger("1", "D")];
    let result = validate_workflow(&workflow("Flow", nodes, &[]));
    assert_eq!(
        shown(&result),
        vec![error("Duplicate node ID: 1", Some("B")), error("Duplicate node ID: 1", Some("D"))]
    );
}

#[test]
fn missing_trigger_is_a_warning() {
    let result =
        validate_workflow(&workflow("Flow", vec![plain("1", "A"), plain("2", "B")], &[("A", "B")]));
    assert_eq!(
        shown(&result),
        vec![warning("No trigger node found. Workflow can only be executed manually.", None)]
    );
    assert!(result.is_valid());
}

#[test]
fn dangling_source_comes_before_dangling_target() {
    let result = validate_workflow(&workflow("Flow", vec![trigger("1", "A")], &[("P", "Q")]));
    assert_eq!(
        shown(&result),
        vec![
            error("Connection references non-existent source node: P", Some("P")),
            error("Connection references non-existent target node: Q", Some("Q")),
        ]
    );
}

#[test]
fn unconnected_node_is_a_warning_unless_it_is_a_trigger() {
    let nodes = vec![trigger("1", "T"), plain("2", "A"), plain("3", "B"), plain("4", "C")];
    let result = validate_workflow(&workflow("Flow", nodes, &[("A", "B")]));
    assert_eq!(
        shown(&result),
        vec![warning("Node 'C' is not connected to any other node", Some("C"))]
    );
}

#[test]
fn self_loop_is_a_warning() {
    let nodes = vec![trigger("1", "T"), plain("2", "A")];
    let result = validate_workflow(&workflow("Flow", nodes, &[("A", "A")]));
    assert_eq!(shown(&result), vec![warning("Node 'A' has a self-loop connection", Some("A"))]);
}

#[test]
fn blank_node_name_is_an_error_under_the_node_id() {
    let nodes = vec![trigger("1", "T"), trigger("id-2", " \t\u{a0}"), trigger("id-3", "")];
    let result = validate_workflow(&workflow("Flow", nodes, &[]));
    assert_eq!(
        shown(&result),
        vec![error("Node has empty name", Some("id-2")), error("Node has empty name", Some("id-3"))]
    );
}

#[test]
fn blank_workflow_name_is_an_error() {
    let result = validate_workflow(&workflow(" \n ", vec![trigger("1", "A")], &[]));
    assert_eq!(shown(&result), vec![error("Workflow has empty name", None)]);
    assert!(!result.is_valid());
}

#[test]
fn rules_speak_in_their_order() {
    let nodes = vec![plain("1", "A"), plain("1", "A"), plain("3", "Lonely")];
    let result = validate_workflow(&workflow("", nodes, &[("A", "A"), ("A", "Gone")]));
    assert_eq!(
        shown(&result),
        vec![
            error("Duplicate node ID: 1", Some("A")),
            error("Duplicate node name: A", Some("A")),
            warning("No trigger node found. Workflow can only be executed manually.", None),
            error("Connection references non-existent target node: Gone", Some("Gone")),
            warning("Node 'Lonely' is not connected to any other node", Some("Lonely")),
            warning("Node 'A' has a self-loop connection", Some("A")),
            error("Workflow has empty name", None),
        ]
    );
    assert_eq!(result.errors().len(), 4);
    assert_eq!(result.warnings().len(), 3);
}

fn result_of(issues: Vec<(ValidationSeverity, &str, Option<&str>)>) -> ValidationResult {
    ValidationResult {
        issues: issues
            .into_iter()
            .map(|(severity, message, node)| ValidationIssue {
                severity,
                message: message.to_string(),
                node: node.map(|n| n.to_string()),
            })
            .collect(),
    }
}

#[test]
fn format_leaves_warnings_out_unless_asked() {
    let result = result_of(vec![
        (ValidationSeverity::Warning, "first", None),
        (ValidationSeverity::Error, "second", Some("N")),
        (ValidationSeverity::Warning, "third", Some("M")),
        (ValidationSeverity::Error, "fourth", None),
    ]);
    assert_eq!(result.format(false), "ERROR[N]: second\nERROR: fourth");
    assert_eq!(
        result.format(true),
        "WARNING: first\nERROR[N]: second\nWARNING[M]: third\nERROR: fourth"
    );
}

#[test]
fn format_of_nothing_is_empty() {
    assert_eq!(result_of(vec![]).format(true), "");
    assert_eq!(result_of(vec![(ValidationSeverity::Warning, "w", None)]).format(false), "");
}

#[test]
fn is_valid_ignores_warnings() {
    assert!(result_of(vec![(ValidationSeverity::Warning, "w", None)]).is_valid());
    assert!(!result_of(vec![
        (ValidationSeverity::Warning, "w", None),
        (ValidationSeverity::Error, "e", None)
    ])
    .is_valid());
}
