use n8n_cli::models::node::{DEFAULT_TYPE_VERSION, Node, Position};

#[test]
fn test_node_creation() {
    let node = Node::new(
        "test-id".to_string(),
        "Test Node".to_string(),
        "n8n-nodes-base.httpRequest".to_string(),
    );
    assert_eq!(node.name, "Test Node");
    assert_eq!(f64::from_bits(node.type_version), 1.0);
    assert!(!node.disabled);
}

#[test]
fn test_is_trigger() {
    let trigger = Node::new(
        "1".to_string(),
        "Trigger".to_string(),
        "n8n-nodes-base.manualTrigger".to_string(),
    );
    assert!(trigger.is_trigger());

    let non_trigger = Node::new(
        "2".to_string(),
        "HTTP".to_string(),
        "n8n-nodes-base.httpRequest".to_string(),
    );
    assert!(!non_trigger.is_trigger());
}

fn typed(node_type: &str) -> Node {
    Node::new("1".to_string(), "N".to_string(), node_type.to_string())
}

#[test]
fn trigger_is_found_in_any_mix_of_case() {
    assert!(typed("n8n-nodes-base.scheduleTrigger").is_trigger());
    assert!(typed("n8n-nodes-base.webhooktrigger").is_trigger());
    assert!(typed("custom.MYTRIGGER").is_trigger());
    assert!(typed("tRiGgEr").is_trigger());
    assert!(typed("xtriggery").is_trigger());
}

#[test]
fn start_type_is_a_trigger() {
    assert!(typed("n8n-nodes-base.start").is_trigger());
}

#[test]
fn other_types_are_no_trigger() {
    assert!(!typed("").is_trigger());
    assert!(!typed("trigge").is_trigger());
    assert!(!typed("n8n-nodes-base.start2").is_trigger());
    assert!(!typed("n8n-nodes-base.set").is_trigger());
    assert!(!typed("trig ger").is_trigger());
}

#[test]
fn new_node_has_every_default() {
    let node = Node::new("i".to_string(), "n".to_string(), "t".to_string());
    assert_eq!(node.id, "i");
    assert_eq!(node.node_type, "t");
    assert_eq!(node.type_version, DEFAULT_TYPE_VERSION);
    assert_eq!(node.position, Position { x: 0, y: 0 });
    assert_eq!(node.parameters, serde_json::Value::Object(serde_json::Map::new()));
    assert!(node.credentials.is_none());
    assert!(node.notes.is_none());
    assert!(!node.continue_on_fail);
    assert!(!node.retry_on_fail);
    assert!(node.max_tries.is_none());
    assert!(node.wait_between_tries.is_none());
    assert!(!node.always_output_data);
    assert!(!node.execute_once);
    assert!(node.webhook_id.is_none());
    assert_eq!(node.extra, serde_json::Value::Object(serde_json::Map::new()));
}

#[test]
fn builders_set_one_field_each() {
    let params: serde_json::Value = serde_json::from_str("{\"url\":\"http://x\"}").unwrap();
    let node = Node::new("i".to_string(), "n".to_string(), "t".to_string())
        .with_position(10, -20)
        .with_parameters(params.clone())
        .with_disabled(true);
    assert_eq!(node.position, Position::new(10, -20));
    assert_eq!(node.parameters, params);
    assert!(node.disabled);
    assert_eq!(node.id, "i");
    assert_eq!(node.name, "n");
}

#[test]
fn clone_keeps_every_field() {
    let params: serde_json::Value = serde_json::from_str("{\"a\":[1,2,{\"b\":null}]}").unwrap();
    let mut node = Node::new("i".to_string(), "n".to_string(), "t".to_string())
        .with_position(1, 2)
        .with_parameters(params.clone());
    node.notes = Some("note".to_string());
    node.max_tries = Some(3);
    node.webhook_id = Some("hook".to_string());
    node.credentials = Some(serde_json::from_str("{\"c\":1}").unwrap());
    let copy = node.clone();
    assert_eq!(copy.id, node.id);
    assert_eq!(copy.name, node.name);
    assert_eq!(copy.node_type, node.node_type);
    assert_eq!(copy.position, node.position);
    assert_eq!(copy.parameters, params);
    assert_eq!(copy.credentials, node.credentials);
    assert_eq!(copy.notes, node.notes);
    assert_eq!(copy.max_tries, Some(3));
    assert_eq!(copy.webhook_id, node.webhook_id);
    assert_eq!(copy.extra, node.extra);
}

#[test]
fn generated_ids_are_uuids_and_differ() {
    let a = Node::generate_id();
    let b = Node::generate_id();
    assert_eq!(a.chars().count(), 36);
    assert_eq!(b.chars().count(), 36);
    assert_ne!(a, b);
    assert_eq!(a.matches('-').count(), 4);
}

#[test]
fn node_row_shows_position_and_state() {
    let node = Node::new(
        "0123456789012345678901234".to_string(),
        "Name".to_string(),
        "n8n-nodes-base.httpRequest".to_string(),
    )
    .with_position(-200, 300)
    .with_disabled(true);
    assert_eq!(Node::headers(), vec!["ID", "NAME", "TYPE", "POSITION", "DISABLED"]);
    assert_eq!(
        node.row(),
        vec![
            "01234567890123456...".to_string(),
            "Name".to_string(),
            "n8n-nodes-base.httpRequest".to_string(),
            "-200,300".to_string(),
            "yes".to_string(),
        ]
    );
}
