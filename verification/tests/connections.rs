use n8n_cli::models::connection::{
    Connection, ConnectionEndpoint, ConnectionsMap, PortOutputs, SourceOutputs,
};

fn edge(from: &str, out: u32, to: &str, input: u32) -> Connection {
    Connection::new_full(
        from.to_string(),
        out,
        "main".to_string(),
        to.to_string(),
        input,
        "main".to_string(),
    )
}

fn key(c: &Connection) -> (String, u32, String, String, u32, String) {
    (
        c.source_node.clone(),
        c.source_output,
        c.source_type.clone(),
        c.target_node.clone(),
        c.target_input,
        c.target_type.clone(),
    )
}

fn sorted_keys(list: &[Connection]) -> Vec<(String, u32, String, String, u32, String)> {
    let mut keys: Vec<_> = list.iter().map(key).collect();
    keys.sort();
    keys
}

#[test]
fn test_connections_roundtrip() {
    let connections = vec![
        Connection::new("Node1".to_string(), "Node2".to_string()),
        Connection::new_full(
            "Node2".to_string(),
            0,
            "main".to_string(),
            "Node3".to_string(),
            0,
            "main".to_string(),
        ),
    ];

    let map = Connection::to_connections_map(&connections);
    let flat = Connection::from_connections_map(&map);

    assert_eq!(connections.len(), flat.len());
}

#[test]
fn test_add_remove_connection() {
    let mut map: ConnectionsMap = ConnectionsMap::new();

    let conn = Connection::new("A".to_string(), "B".to_string());
    Connection::add_to_map(&mut map, &conn);

    let flat = Connection::from_connections_map(&map);
    assert_eq!(flat.len(), 1);

    let removed = Connection::remove_from_map(&mut map, "A", "B");
    assert!(removed);

    let flat = Connection::from_connections_map(&map);
    assert_eq!(flat.len(), 0);
}

#[test]
fn new_connection_uses_first_ports_of_type_main() {
    let c = Connection::new("A".to_string(), "B".to_string());
    assert_eq!(c.source_node, "A");
    assert_eq!(c.source_output, 0);
    assert_eq!(c.source_type, "main");
    assert_eq!(c.target_node, "B");
    assert_eq!(c.target_input, 0);
    assert_eq!(c.target_type, "main");
}

#[test]
fn roundtrip_keeps_every_edge_as_often_as_given() {
    let edges = vec![
        edge("A", 0, "B", 0),
        edge("A", 2, "C", 1),
        edge("B", 0, "C", 0),
        edge("A", 0, "B", 0),
        Connection::new_full(
            "A".to_string(),
            1,
            "ai_tool".to_string(),
            "D".to_string(),
            3,
            "ai_tool".to_string(),
        ),
    ];
    let map = Connection::to_connections_map(&edges);
    let flat = Connection::from_connections_map(&map);
    assert_eq!(sorted_keys(&flat), sorted_keys(&edges));
}

#[test]
fn flattening_walks_sources_port_types_ports_and_fan_out_in_order() {
    let edges = vec![
        edge("A", 1, "X", 0),
        edge("B", 0, "Y", 0),
        edge("A", 0, "Z", 0),
        edge("A", 1, "W", 0),
    ];
    let map = Connection::to_connections_map(&edges);
    let flat = Connection::from_connections_map(&map);
    let targets: Vec<&str> = flat.iter().map(|c| c.target_node.as_str()).collect();
    assert_eq!(targets, vec!["Z", "X", "W", "Y"]);
    let outputs: Vec<u32> = flat.iter().map(|c| c.source_output).collect();
    assert_eq!(outputs, vec![0, 1, 1, 0]);
}

#[test]
fn adding_at_a_high_port_pads_with_empty_fan_out_lists() {
    let mut map = ConnectionsMap::new();
    Connection::add_to_map(&mut map, &edge("A", 3, "B", 0));
    let sources = map.sources();
    assert_eq!(sources.len(), 1);
    assert_eq!(sources[0].source, "A");
    assert_eq!(sources[0].ports.len(), 1);
    assert_eq!(sources[0].ports[0].port_type, "main");
    let slots = &sources[0].ports[0].slots;
    assert_eq!(slots.len(), 4);
    assert!(slots[0].is_empty());
    assert!(slots[1].is_empty());
    assert!(slots[2].is_empty());
    assert_eq!(slots[3].len(), 1);
    assert_eq!(slots[3][0].node, "B");
    assert_eq!(slots[3][0].connection_type, "main");
    assert_eq!(slots[3][0].index, 0);
}

#[test]
fn fan_out_keeps_the_order_of_insertion() {
    let mut map = ConnectionsMap::new();
    Connection::add_to_map(&mut map, &edge("A", 0, "first", 0));
    Connection::add_to_map(&mut map, &edge("A", 0, "second", 0));
    Connection::add_to_map(&mut map, &edge("A", 0, "third", 0));
    let slot = &map.sources()[0].ports[0].slots[0];
    let names: Vec<&str> = slot.iter().map(|e| e.node.as_str()).collect();
    assert_eq!(names, vec!["first", "second", "third"]);
}

#[test]
fn removing_leaves_the_shape_and_the_other_endpoints() {
    let mut map = ConnectionsMap::new();
    Connection::add_to_map(&mut map, &edge("A", 0, "B", 0));
    Connection::add_to_map(&mut map, &edge("A", 1, "C", 0));
    Connection::add_to_map(&mut map, &edge("A", 1, "B", 2));
    Connection::add_to_map(&mut map, &edge("D", 0, "B", 0));

    assert!(Connection::remove_from_map(&mut map, "A", "B"));

    let slots = &map.sources()[0].ports[0].slots;
    assert_eq!(slots.len(), 2);
    assert!(slots[0].is_empty());
    assert_eq!(slots[1].len(), 1);
    assert_eq!(slots[1][0].node, "C");

    let flat = Connection::from_connections_map(&map);
    assert_eq!(
        sorted_keys(&flat),
        sorted_keys(&[edge("A", 1, "C", 0), edge("D", 0, "B", 0)])
    );
}

#[test]
fn removing_what_is_not_there_reports_false_and_changes_nothing() {
    let mut map = ConnectionsMap::new();
    Connection::add_to_map(&mut map, &edge("A", 0, "B", 0));
    assert!(!Connection::remove_from_map(&mut map, "A", "C"));
    assert!(!Connection::remove_from_map(&mut map, "B", "A"));
    assert!(!Connection::remove_from_map(&mut map, "X", "B"));
    let flat = Connection::from_connections_map(&map);
    assert_eq!(sorted_keys(&flat), sorted_keys(&[edge("A", 0, "B", 0)]));
}

#[test]
fn rename_moves_the_entry_and_every_target() {
    let mut map = ConnectionsMap::new();
    Connection::add_to_map(&mut map, &edge("Old", 0, "B", 0));
    Connection::add_to_map(&mut map, &edge("C", 0, "Old", 1));
    Connection::add_to_map(&mut map, &edge("Old", 1, "Old", 0));
    map.rename_node("Old", "New");
    let flat = Connection::from_connections_map(&map);
    assert_eq!(
        sorted_keys(&flat),
        sorted_keys(&[edge("New", 0, "B", 0), edge("C", 0, "New", 1), edge("New", 1, "New", 0)])
    );
    assert_eq!(map.sources()[0].source, "New");
}

#[test]
fn rename_onto_an_existing_source_replaces_its_entry() {
    let mut map = ConnectionsMap::new();
    Connection::add_to_map(&mut map, &edge("B", 0, "X", 0));
    Connection::add_to_map(&mut map, &edge("A", 0, "Y", 0));
    map.rename_node("A", "B");
    let flat = Connection::from_connections_map(&map);
    assert_eq!(sorted_keys(&flat), sorted_keys(&[edge("B", 0, "Y", 0)]));
}

#[test]
fn rename_of_a_name_without_entry_only_rewrites_targets() {
    let mut map = ConnectionsMap::new();
    Connection::add_to_map(&mut map, &edge("B", 0, "A", 0));
    map.rename_node("A", "C");
    let flat = Connection::from_connections_map(&map);
    assert_eq!(sorted_keys(&flat), sorted_keys(&[edge("B", 0, "C", 0)]));
}

#[test]
fn remove_node_drops_its_entry_and_what_leads_to_it() {
    let mut map = ConnectionsMap::new();
    Connection::add_to_map(&mut map, &edge("A", 0, "B", 0));
    Connection::add_to_map(&mut map, &edge("B", 0, "C", 0));
    Connection::add_to_map(&mut map, &edge("C", 0, "A", 0));
    Connection::add_to_map(&mut map, &edge("C", 0, "B", 0));
    map.remove_node("B");
    let flat = Connection::from_connections_map(&map);
    assert_eq!(sorted_keys(&flat), sorted_keys(&[edge("C", 0, "A", 0)]));
    assert_eq!(map.sources().len(), 2);
}

#[test]
fn from_sources_accepts_a_mapping_and_keeps_its_shape() {
    let sources = vec![SourceOutputs {
        source: "A".to_string(),
        ports: vec![PortOutputs {
            port_type: "main".to_string(),
            slots: vec![
                vec![],
                vec![ConnectionEndpoint {
                    node: "B".to_string(),
                    connection_type: "main".to_string(),
                    index: 4,
                }],
            ],
        }],
    }];
    let map = ConnectionsMap::from_sources(sources).expect("well formed");
    let flat = Connection::from_connections_map(&map);
    assert_eq!(sorted_keys(&flat), sorted_keys(&[edge("A", 1, "B", 4)]));
}

#[test]
fn from_sources_refuses_a_source_name_given_twice() {
    let entry = |name: &str| SourceOutputs { source: name.to_string(), ports: vec![] };
    assert!(ConnectionsMap::from_sources(vec![entry("A"), entry("B"), entry("A")]).is_none());
}

#[test]
fn from_sources_refuses_a_port_type_given_twice() {
    let port = |t: &str| PortOutputs { port_type: t.to_string(), slots: vec![] };
    let sources = vec![SourceOutputs {
        source: "A".to_string(),
        ports: vec![port("main"), port("main")],
    }];
    assert!(ConnectionsMap::from_sources(sources).is_none());
}

#[test]
fn connection_row_shows_ports_with_their_numbers() {
    let c = Connection::new_full(
        "A node with a very long name indeed".to_string(),
        12,
        "main".to_string(),
        "B".to_string(),
        0,
        "ai_tool".to_string(),
    );
    assert_eq!(Connection::headers(), vec!["FROM NODE", "OUTPUT", "TO NODE", "INPUT"]);
    assert_eq!(
        c.row(),
        vec![
            "A node with a very lon...".to_string(),
            "main[12]".to_string(),
            "B".to_string(),
            "ai_tool[0]".to_string(),
        ]
    );
}
