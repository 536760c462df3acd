use n8n_cli::models::connection::{Connection, ConnectionsMap};
use n8n_cli::models::node::{Node, Position};
use n8n_cli::models::workflow::{TypedWorkflow, Workflow, WorkflowSettings, WorkflowTag};

fn node(id: &str, name: &str) -> Node {
    Node::new(id.to_string(), name.to_string(), "n8n-nodes-base.set".to_string())
}

fn workflow(nodes: Vec<Node>, edges: &[(&str, &str)]) -> TypedWorkflow {
    let mut connections = ConnectionsMap::new();
    for (from, to) in edges {
        Connection::add_to_map(&mut connections, &Connection::new(from.to_string(), to.to_string()));
    }
    TypedWorkflow {
        id: None,
        name: "Test".to_string(),
        active: false,
        nodes,
        connections,
        settings: WorkflowSettings::default(),
        tags: vec![],
        version_id: None,
    }
}

fn pairs(w: &TypedWorkflow) -> Vec<(String, String)> {
    let mut p: Vec<(String, String)> = w
        .connections_flat()
        .iter()
        .map(|c| (c.source_node.clone(), c.target_node.clone()))
        .collect();
    p.sort();
    p
}

fn pair(a: &str, b: &str) -> (String, String) {
    (a.to_string(), b.to_string())
}

#[test]
fn find_node_looks_for_the_identifier_first() {
    let w = workflow(vec![node("1", "X"), node("X", "Y")], &[]);
    assert_eq!(w.find_node("X").unwrap().name, "Y");
    assert_eq!(w.find_node("Y").unwrap().id, "X");
    assert_eq!(w.find_node("1").unwrap().name, "X");
    assert_eq!(w.find_node_index("X"), Some(1));
}

#[test]
fn find_node_falls_back_to_the_name() {
    let w = workflow(vec![node("1", "First"), node("2", "Second"), node("3", "Second")], &[]);
    assert_eq!(w.find_node("Second").unwrap().id, "2");
    assert_eq!(w.get_node_name("2"), Some("Second".to_string()));
    assert!(w.find_node("Third").is_none());
    assert_eq!(w.get_node_name("Third"), None);
}

#[test]
fn find_node_mut_edits_the_node_in_place() {
    let mut w = workflow(vec![node("1", "A"), node("2", "B")], &[]);
    w.find_node_mut("B").unwrap().position = Position::new(7, 8);
    assert_eq!(w.nodes[1].position, Position::new(7, 8));
    assert_eq!(w.nodes[0].position, Position::new(0, 0));
    assert!(w.find_node_mut("C").is_none());
}

#[test]
fn add_node_appends_without_connecting() {
    let mut w = workflow(vec![node("1", "A")], &[]);
    w.add_node(node("2", "B"));
    assert_eq!(w.node_names(), vec!["A", "B"]);
    assert!(w.connections_flat().is_empty());
}

#[test]
fn remove_node_takes_its_connections_along() {
    let mut w = workflow(
        vec![node("1", "A"), node("2", "B"), node("3", "C")],
        &[("A", "B"), ("B", "C"), ("C", "A"), ("A", "C")],
    );
    let removed = w.remove_node("2").expect("node 2 is there");
    assert_eq!(removed.name, "B");
    assert_eq!(w.node_names(), vec!["A", "C"]);
    assert_eq!(pairs(&w), vec![pair("A", "C"), pair("C", "A")]);
    for c in w.connections_flat() {
        assert_ne!(c.source_node, "B");
        assert_ne!(c.target_node, "B");
    }
}

#[test]
fn remove_node_by_name_works_too() {
    let mut w = workflow(vec![node("1", "A"), node("2", "B")], &[("A", "B")]);
    assert_eq!(w.remove_node("A").unwrap().id, "1");
    assert!(w.connections_flat().is_empty());
}

#[test]
fn remove_node_that_is_not_there_changes_nothing() {
    let mut w = workflow(vec![node("1", "A"), node("2", "B")], &[("A", "B"), ("A", "Z")]);
    assert!(w.remove_node("Z").is_none());
    assert_eq!(w.node_names(), vec!["A", "B"]);
    assert_eq!(pairs(&w), vec![pair("A", "B"), pair("A", "Z")]);
}

#[test]
fn renaming_a_node_by_id_moves_its_edge() {
    let mut w = workflow(vec![node("n1", "Old"), node("n2", "B")], &[("Old", "B")]);
    let renamed = w.find_node_mut("n1").expect("n1 is there");
    let old_name = renamed.name.clone();
    renamed.name = "New".to_string();
    w.rename_node_in_connections(&old_name, "New");

    let flat = w.connections_flat();
    assert_eq!(flat.len(), 1);
    assert_eq!(flat[0].source_node, "New");
    assert_eq!(flat[0].target_node, "B");
    let old_references = flat
        .iter()
        .filter(|c| c.source_node == "Old" || c.target_node == "Old")
        .count();
    assert_eq!(old_references, 0);
}

#[test]
fn add_connection_stores_ends_under_node_names() {
    let mut w = workflow(vec![node("1", "A"), node("2", "B")], &[]);
    w.add_connection(Connection::new("1".to_string(), "2".to_string()));
    w.add_connection(Connection::new("A".to_string(), "Stale".to_string()));
    assert_eq!(pairs(&w), vec![pair("A", "B"), pair("A", "Stale")]);
}

#[test]
fn remove_connection_resolves_both_ends() {
    let mut w = workflow(vec![node("1", "A"), node("2", "B")], &[("A", "B"), ("A", "Stale")]);
    assert!(w.remove_connection("1", "2"));
    assert!(!w.remove_connection("1", "2"));
    assert!(w.remove_connection("A", "Stale"));
    assert!(!w.remove_connection("nobody", "B"));
    assert!(w.connections_flat().is_empty());
}

#[test]
fn auto_position_is_right_of_the_rightmost_node() {
    let w = workflow(
        vec![
            node("1", "A").with_position(100, 0),
            node("2", "B").with_position(450, 900),
            node("3", "C").with_position(-20, 5),
        ],
        &[],
    );
    assert_eq!(w.auto_position(), Position::new(650, 100));
}

#[test]
fn auto_position_of_an_empty_workflow_starts_from_the_origin() {
    let w = workflow(vec![], &[]);
    assert_eq!(w.auto_position(), Position::new(200, 100));
}

#[test]
fn auto_position_follows_nodes_left_of_the_origin() {
    let w = workflow(vec![node("1", "A").with_position(-500, 0)], &[]);
    assert_eq!(w.auto_position(), Position::new(-300, 100));
}

#[test]
fn has_trigger_looks_at_every_node() {
    let mut w = workflow(vec![node("1", "A"), node("2", "B")], &[]);
    assert!(!w.has_trigger());
    w.add_node(Node::new("3".to_string(), "T".to_string(), "x.cronTrigger".to_string()));
    assert!(w.has_trigger());
}

#[test]
fn default_settings_are_empty() {
    let s = WorkflowSettings::default();
    assert!(s.save_execution_progress.is_none());
    assert!(s.timezone.is_none());
    assert!(s.execution_timeout.is_none());
    assert_eq!(s.extra, serde_json::Value::Null);
}

#[test]
fn workflow_row_joins_and_shortens_tags() {
    let tag = |n: &str| WorkflowTag { id: "t".to_string(), name: n.to_string() };
    let w = Workflow {
        id: "42".to_string(),
        name: "Nightly".to_string(),
        active: true,
        created_at: "2024-01-01T00:00:00Z".to_string(),
        updated_at: "2024-03-05T17:45:10+02:00".to_string(),
        tags: vec![tag("production"), tag("billing"), tag("x")],
    };
    assert_eq!(Workflow::headers(), vec!["ID", "NAME", "ACTIVE", "TAGS", "UPDATED"]);
    assert_eq!(
        w.row(),
        vec![
            "42".to_string(),
            "Nightly".to_string(),
            "yes".to_string(),
            "production, billi...".to_string(),
            "2024-03-05 17:45".to_string(),
        ]
    );
}
