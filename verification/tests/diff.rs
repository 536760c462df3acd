use n8n_cli::diff::{compare_nodes, node_diff, unified_text, NodeChange, WorkflowDiff};
use n8n_cli::linediff::{LineChange, LineTag};
use n8n_cli::models::connection::Connection;
use n8n_cli::models::node::Node;
use n8n_cli::models::workflow::TypedWorkflow;

fn workflow(name: &str, nodes: Vec<Node>, edges: Vec<Connection>) -> TypedWorkflow {
    TypedWorkflow {
        id: None,
        name: name.to_string(),
        active: false,
        nodes,
        connections: Connection::to_connections_map(&edges),
        settings: Default::default(),
        tags: vec![],
        version_id: None,
    }
}

fn node(id: &str, name: &str) -> Node {
    Node::new(id.to_string(), name.to_string(), "n8n-nodes-base.set".to_string())
}

fn json(text: &str) -> serde_json::Value {
    serde_json::from_str(text).unwrap()
}

fn ids(nodes: &[Node]) -> Vec<&str> {
    nodes.iter().map(|n| n.id.as_str()).collect()
}

#[test]
fn moved_node_is_reported_as_position_change() {
    let old = workflow("W", vec![node("a", "A").with_position(0, 0)], vec![]);
    let new = workflow("W", vec![node("a", "A").with_position(100, 0)], vec![]);
    let diff = WorkflowDiff::compare(&old, &new);
    assert!(!diff.is_empty());
    assert!(diff.nodes_added.is_empty());
    assert!(diff.nodes_removed.is_empty());
    assert_eq!(diff.nodes_modified.len(), 1);
    let entry = &diff.nodes_modified[0];
    assert_eq!(entry.node_id, "a");
    assert_eq!(entry.node_name, "A");
    assert_eq!(entry.changes.len(), 1);
    assert!(matches!(entry.changes[0], NodeChange::PositionChanged((0, 0), (100, 0))));
}

#[test]
fn comparing_a_workflow_with_itself_finds_nothing() {
    let w = workflow(
        "W",
        vec![
            node("a", "A").with_parameters(json("{\"k\":[1,2]}")),
            node("b", "B"),
            node("a", "Again"),
        ],
        vec![
            Connection::new("A".to_string(), "B".to_string()),
            Connection::new("A".to_string(), "B".to_string()),
            Connection::new("B".to_string(), "Gone".to_string()),
        ],
    );
    let diff = WorkflowDiff::compare(&w, &w);
    assert!(diff.is_empty());
    assert_eq!(diff.summary_text(), "No differences found.\n");
    assert_eq!(diff.full_text(), "No differences found.\n");
}

#[test]
fn default_diff_is_empty() {
    assert!(WorkflowDiff::default().is_empty());
}

#[test]
fn nodes_are_sorted_by_identifier_into_added_removed_and_modified() {
    let old = workflow(
        "W",
        vec![node("keep", "Same"), node("gone", "Gone"), node("edit", "Before")],
        vec![],
    );
    let new = workflow(
        "W",
        vec![node("edit", "After"), node("new", "New"), node("keep", "Same")],
        vec![],
    );
    let diff = WorkflowDiff::compare(&old, &new);
    assert_eq!(ids(&diff.nodes_added), vec!["new"]);
    assert_eq!(ids(&diff.nodes_removed), vec!["gone"]);
    let modified: Vec<&str> = diff.nodes_modified.iter().map(|d| d.node_id.as_str()).collect();
    assert_eq!(modified, vec!["edit"]);
    assert_eq!(diff.nodes_modified[0].node_name, "Before");
    assert!(matches!(
        &diff.nodes_modified[0].changes[..],
        [NodeChange::NameChanged(a, b)] if a == "Before" && b == "After"
    ));
}

#[test]
fn name_and_active_changes_are_recorded() {
    let old = workflow("Old name", vec![], vec![]);
    let mut new = workflow("New name", vec![], vec![]);
    new.active = true;
    let diff = WorkflowDiff::compare(&old, &new);
    assert_eq!(diff.name_changed, Some(("Old name".to_string(), "New name".to_string())));
    assert_eq!(diff.active_changed, Some((false, true)));
    assert!(!diff.is_empty());
}

#[test]
fn the_last_node_of_an_identifier_stands_for_it() {
    let old = workflow("W", vec![node("x", "First"), node("x", "Second")], vec![]);
    let new = workflow("W", vec![node("x", "Second")], vec![]);
    assert!(WorkflowDiff::compare(&old, &new).is_empty());
    let newer = workflow("W", vec![node("x", "First")], vec![]);
    let diff = WorkflowDiff::compare(&old, &newer);
    assert_eq!(diff.nodes_modified.len(), 1);
    assert_eq!(diff.nodes_modified[0].node_name, "Second");
}

#[test]
fn connections_are_matched_by_the_ports_they_join() {
    let typed = |from: &str, to: &str, kind: &str| {
        Connection::new_full(from.to_string(), 0, kind.to_string(), to.to_string(), 0, kind.to_string())
    };
    let old = workflow(
        "W",
        vec![],
        vec![typed("A", "B", "main"), typed("A", "C", "main"), typed("D", "E", "main")],
    );
    let new = workflow(
        "W",
        vec![],
        vec![
            typed("A", "B", "main"),
            Connection::new_full("A".to_string(), 1, "main".to_string(), "C".to_string(), 0, "main".to_string()),
            typed("F", "G", "ai_tool"),
        ],
    );
    let diff = WorkflowDiff::compare(&old, &new);
    let added: Vec<(&str, u32, &str, &str)> = diff
        .connections_added
        .iter()
        .map(|c| (c.source_node.as_str(), c.source_output, c.target_node.as_str(), c.source_type.as_str()))
        .collect();
    assert_eq!(added, vec![("A", 1, "C", "main"), ("F", 0, "G", "ai_tool")]);
    let removed: Vec<(&str, u32, &str)> = diff
        .connections_removed
        .iter()
        .map(|c| (c.source_node.as_str(), c.source_output, c.target_node.as_str()))
        .collect();
    assert_eq!(removed, vec![("A", 0, "C"), ("D", 0, "E")]);
}

#[test]
fn port_types_take_no_part_in_matching_connections() {
    let typed = |kind: &str| {
        Connection::new_full("A".to_string(), 0, kind.to_string(), "B".to_string(), 0, kind.to_string())
    };
    let old = workflow("W", vec![], vec![typed("main")]);
    let new = workflow("W", vec![], vec![typed("ai_tool")]);
    assert!(WorkflowDiff::compare(&old, &new).is_empty());
}

#[test]
fn dangling_connections_are_compared_like_any_other() {
    let old = workflow("W", vec![node("a", "A")], vec![Connection::new("A".to_string(), "Nowhere".to_string())]);
    let new = workflow("W", vec![node("a", "A")], vec![]);
    let diff = WorkflowDiff::compare(&old, &new);
    assert_eq!(diff.connections_removed.len(), 1);
    assert_eq!(diff.connections_removed[0].target_node, "Nowhere");
}

#[test]
fn changed_parameters_carry_their_line_comparison() {
    let old = node("a", "A").with_parameters(json("{\"a\":1,\"b\":true}"));
    let new = node("a", "A").with_parameters(json("{\"a\":2,\"b\":true}"));
    let diff = compare_nodes(&old, &new).expect("parameters differ");
    assert_eq!(diff.changes.len(), 1);
    match &diff.changes[0] {
        NodeChange::ParametersChanged(text) => {
            assert_eq!(text, " {\n-  \"a\": 1,\n+  \"a\": 2,\n   \"b\": true\n }\n");
        }
        other => panic!("unexpected change {:?}", other),
    }
}

#[test]
fn equal_parameters_in_another_notation_are_no_change() {
    let old = node("a", "A").with_parameters(json("{\"a\": 1,   \"b\": [ ]}"));
    let new = node("a", "A").with_parameters(json("{\"a\":1,\"b\":[]}"));
    assert!(compare_nodes(&old, &new).is_none());
    assert!(compare_nodes(&node("a", "A"), &node("a", "A").with_parameters(json("{}"))).is_none());
}

#[test]
fn node_changes_come_in_a_fixed_order() {
    let old = Node::new("a".to_string(), "A".to_string(), "t1".to_string()).with_position(1, 2);
    let new = Node::new("a".to_string(), "B".to_string(), "t2".to_string())
        .with_position(1, 3)
        .with_disabled(true);
    let diff = node_diff(&old, &new, Some("text".to_string())).expect("they differ");
    assert_eq!(diff.node_id, "a");
    assert_eq!(diff.node_name, "A");
    assert!(matches!(
        &diff.changes[..],
        [
            NodeChange::NameChanged(n1, n2),
            NodeChange::TypeChanged(t1, t2),
            NodeChange::PositionChanged((1, 2), (1, 3)),
            NodeChange::DisabledChanged(false, true),
            NodeChange::ParametersChanged(p),
        ] if n1 == "A" && n2 == "B" && t1 == "t1" && t2 == "t2" && p == "text"
    ));
    assert!(node_diff(&old, &old, None).is_none());
}

#[test]
fn unified_text_marks_every_line() {
    let line = |tag: LineTag, text: &str| LineChange { tag, text: text.to_string() };
    let changes = vec![
        line(LineTag::Equal, "same\n"),
        line(LineTag::Delete, "old\n"),
        line(LineTag::Insert, "new\n"),
    ];
    assert_eq!(unified_text(&changes), " same\n-old\n+new\n");
    assert_eq!(unified_text(&vec![]), "");
}

#[test]
fn summary_lists_every_section_with_its_count() {
    let old = workflow(
        "Old",
        vec![
            node("gone", "Gone"),
            Node::new("edit".to_string(), "Edit".to_string(), "t1".to_string())
                .with_position(-5, 10)
                .with_parameters(json("{\"a\":1}")),
        ],
        vec![Connection::new("Gone".to_string(), "Edit".to_string())],
    );
    let mut new = workflow(
        "New",
        vec![
            Node::new("edit".to_string(), "Edited".to_string(), "t2".to_string())
                .with_position(0, 10)
                .with_disabled(true)
                .with_parameters(json("{\"a\":2}")),
            node("n1", "First"),
            node("n2", "Second"),
        ],
        vec![Connection::new("First".to_string(), "Second".to_string())],
    );
    new.active = true;
    let diff = WorkflowDiff::compare(&old, &new);
    let summary = "  Name: \"Old\" -> \"New\"\n\
                   \x20 Active: false -> true\n\
                   \n+ Added 2 node(s):\n\
                   \x20 + First (n8n-nodes-base.set)\n\
                   \x20 + Second (n8n-nodes-base.set)\n\
                   \n- Removed 1 node(s):\n\
                   \x20 - Gone (n8n-nodes-base.set)\n\
                   \n~ Modified 1 node(s):\n\
                   \x20 ~ Edit\n\
                   \x20   name: \"Edit\" -> \"Edited\"\n\
                   \x20   type: t1 -> t2\n\
                   \x20   position: (-5,10) -> (0,10)\n\
                   \x20   disabled: false -> true\n\
                   \x20   parameters: (modified)\n\
                   \n+ Added 1 connection(s):\n\
                   \x20 + First -> Second\n\
                   \n- Removed 1 connection(s):\n\
                   \x20 - Gone -> Edit\n";
    assert_eq!(diff.summary_text(), summary);
    let full = format!(
        "{}\n--- Edit parameters ---\n {{\n-  \"a\": 1\n+  \"a\": 2\n }}\n\n",
        summary
    );
    assert_eq!(diff.full_text(), full);
}
