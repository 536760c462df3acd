use n8n_cli::commands::{
    api_error, api_url, choose_editor, http_method, is_yes, method_named, path_or_id, request_error,
    resolve_tag_ids, webhook_path, webhook_url, HttpMethod,
};
use n8n_cli::error::{ApiErrorResponse, N8nError};
use n8n_cli::models::connection::{Connection, ConnectionsMap};
use n8n_cli::models::node::{Node, Position};
use n8n_cli::models::tag::Tag;
use n8n_cli::models::workflow::TypedWorkflow;
use n8n_cli::pagination::HealthResponse;

fn workflow(nodes: Vec<Node>, edges: &[(&str, &str)]) -> TypedWorkflow {
    let mut connections = ConnectionsMap::new();
    for (from, to) in edges {
        Connection::add_to_map(&mut connections, &Connection::new(from.to_string(), to.to_string()));
    }
    TypedWorkflow {
        id: Some("wf-1".to_string()),
        name: "Test".to_string(),
        active: false,
        nodes,
        connections,
        settings: Default::default(),
        tags: vec![],
        version_id: None,
    }
}

fn node(id: &str, name: &str, kind: &str) -> Node {
    Node::new(id.to_string(), name.to_string(), kind.to_string())
}

fn pairs(list: &[Connection]) -> Vec<(String, String)> {
    list.iter().map(|c| (c.source_node.clone(), c.target_node.clone())).collect()
}

fn pair(a: &str, b: &str) -> (String, String) {
    (a.to_string(), b.to_string())
}

#[test]
fn yes_is_the_letter_y_alone() {
    assert!(is_yes("y"));
    assert!(is_yes("Y"));
    assert!(is_yes("  y\n"));
    assert!(is_yes("\tY\r\n"));
    assert!(!is_yes(""));
    assert!(!is_yes("\n"));
    assert!(!is_yes("yes"));
    assert!(!is_yes("n"));
    assert!(!is_yes("y y"));
}

#[test]
fn api_url_drops_slashes_at_the_end_of_the_base() {
    assert_eq!(api_url("http://localhost:5678", "/workflows"), "http://localhost:5678/api/v1/workflows");
    assert_eq!(api_url("http://host///", "/tags/1"), "http://host/api/v1/tags/1");
    assert_eq!(api_url("", ""), "/api/v1");
    assert_eq!(api_url("/", "/x"), "/api/v1/x");
}

#[test]
fn webhook_url_depends_on_the_active_flag() {
    assert_eq!(webhook_url("http://h/", true, "hook"), "http://h/webhook/hook");
    assert_eq!(webhook_url("http://h", false, "hook"), "http://h/webhook-test/hook");
    assert_eq!(webhook_url("http://h", true, "/a/b"), "http://h/webhook/a/b");
    assert_eq!(webhook_url("http://h", false, ""), "http://h/webhook-test/");
}

#[test]
fn webhook_node_is_the_first_of_a_webhook_type() {
    let w = workflow(
        vec![
            node("1", "Set", "n8n-nodes-base.set"),
            node("2", "Form", "n8n-nodes-base.formTrigger"),
            node("3", "Hook", "n8n-nodes-base.webhook"),
        ],
        &[],
    );
    assert_eq!(w.webhook_node().unwrap().id, "2");
    let w = workflow(vec![node("1", "Set", "n8n-nodes-base.set"), node("2", "W", "x.Webhook")], &[]);
    assert!(w.webhook_node().is_none());
}

#[test]
fn webhook_path_is_the_path_parameter_or_the_workflow_id() {
    let with_path = node("1", "Hook", "n8n-nodes-base.webhook")
        .with_parameters(serde_json::from_str("{\"path\":\"orders/new\",\"other\":1}").unwrap());
    assert_eq!(webhook_path(&with_path, "wf-1"), "orders/new");
    let number_path = node("1", "Hook", "n8n-nodes-base.webhook")
        .with_parameters(serde_json::from_str("{\"path\":7}").unwrap());
    assert_eq!(webhook_path(&number_path, "wf-1"), "wf-1");
    let no_path = node("1", "Hook", "n8n-nodes-base.webhook");
    assert_eq!(webhook_path(&no_path, "wf-1"), "wf-1");
    let no_object = node("1", "Hook", "n8n-nodes-base.webhook")
        .with_parameters(serde_json::from_str("[\"path\"]").unwrap());
    assert_eq!(webhook_path(&no_object, "wf-1"), "wf-1");
    assert_eq!(path_or_id(Some("p".to_string()), "id"), "p");
    assert_eq!(path_or_id(None, "id"), "id");
}

#[test]
fn method_names_are_read_in_any_case() {
    assert_eq!(http_method("get"), HttpMethod::Get);
    assert_eq!(http_method("Post"), HttpMethod::Post);
    assert_eq!(http_method("pUt"), HttpMethod::Put);
    assert_eq!(http_method("patch"), HttpMethod::Patch);
    assert_eq!(http_method("DELETE"), HttpMethod::Delete);
    assert_eq!(http_method("head"), HttpMethod::Post);
    assert_eq!(http_method(""), HttpMethod::Post);
    assert_eq!(method_named("get"), HttpMethod::Post);
    assert_eq!(method_named("GET"), HttpMethod::Get);
}

#[test]
fn connections_can_be_listed_by_either_end() {
    let w = workflow(
        vec![node("1", "A", "t"), node("2", "B", "t"), node("3", "C", "t")],
        &[("A", "B"), ("A", "C"), ("B", "C"), ("C", "A")],
    );
    assert_eq!(pairs(&w.connections_between(None, None)).len(), 4);
    assert_eq!(pairs(&w.connections_between(Some("1"), None)), vec![pair("A", "B"), pair("A", "C")]);
    assert_eq!(pairs(&w.connections_between(None, Some("C"))), vec![pair("A", "C"), pair("B", "C")]);
    assert_eq!(pairs(&w.connections_between(Some("A"), Some("3"))), vec![pair("A", "C")]);
    assert!(w.connections_between(Some("nobody"), None).is_empty());
}

#[test]
fn update_node_renames_and_lets_connections_follow() {
    let mut w = workflow(
        vec![node("n1", "Old", "t"), node("n2", "B", "t")],
        &[("Old", "B"), ("B", "Old")],
    );
    let name = w.update_node("n1", Some("New".to_string()), Some((5, 6)), Some(true));
    assert_eq!(name, Some("New".to_string()));
    assert_eq!(w.nodes[0].name, "New");
    assert_eq!(w.nodes[0].position, Position::new(5, 6));
    assert!(w.nodes[0].disabled);
    assert_eq!(w.nodes[1].name, "B");
    let mut found = pairs(&w.connections_flat());
    found.sort();
    assert_eq!(found, vec![pair("B", "New"), pair("New", "B")]);
}

#[test]
fn update_node_without_changes_keeps_everything() {
    let mut w = workflow(vec![node("n1", "A", "t")], &[("A", "A")]);
    assert_eq!(w.update_node("A", None, None, None), Some("A".to_string()));
    assert_eq!(w.nodes[0].position, Position::new(0, 0));
    assert_eq!(pairs(&w.connections_flat()), vec![pair("A", "A")]);
    assert_eq!(w.update_node("missing", Some("X".to_string()), None, None), None);
    assert_eq!(w.nodes[0].name, "A");
}

fn tag(id: &str, name: &str) -> Tag {
    Tag { id: id.to_string(), name: name.to_string(), created_at: None, updated_at: None }
}

#[test]
fn tags_are_meant_by_name_or_identifier() {
    let tags = vec![tag("1", "prod"), tag("2", "dev"), tag("prod", "third")];
    let wanted = vec!["dev".to_string(), "1".to_string(), "prod".to_string()];
    assert_eq!(
        resolve_tag_ids(&tags, &wanted).unwrap(),
        vec!["2".to_string(), "1".to_string(), "1".to_string()]
    );
    assert_eq!(resolve_tag_ids(&tags, &vec![]).unwrap(), Vec::<String>::new());
}

#[test]
fn the_first_unknown_tag_is_reported() {
    let tags = vec![tag("1", "prod")];
    let wanted = vec!["prod".to_string(), "x".to_string(), "y".to_string()];
    match resolve_tag_ids(&tags, &wanted) {
        Err(N8nError::Config(message)) => assert_eq!(message, "Tag not found: x"),
        other => panic!("unexpected {:?}", other),
    }
}

#[test]
fn api_error_prefers_what_the_body_says() {
    let parsed = ApiErrorResponse { code: 404, message: "gone".to_string(), hint: Some("h".to_string()) };
    let e = api_error(500, "500 Internal Server Error", "{}", Some(parsed), Some("m".to_string()));
    assert_eq!((e.code, e.message.as_str(), e.hint.as_deref()), (404, "gone", Some("h")));
    let e = api_error(400, "400 Bad Request", "{\"message\":\"m\"}", None, Some("m".to_string()));
    assert_eq!((e.code, e.message.as_str(), e.hint.as_deref()), (400, "m", None));
    let e = api_error(400, "400 Bad Request", "plain text", None, None);
    assert_eq!((e.code, e.message.as_str()), (400, "400 Bad Request: plain text"));
}

#[test]
fn api_error_leaves_out_an_empty_or_long_body() {
    let e = api_error(502, "502 Bad Gateway", "", None, None);
    assert_eq!(e.message, "Request failed with status 502 Bad Gateway");
    let long = "x".repeat(500);
    let e = api_error(502, "502 Bad Gateway", &long, None, None);
    assert_eq!(e.message, "Request failed with status 502 Bad Gateway");
    let short = "x".repeat(499);
    let e = api_error(502, "502 Bad Gateway", &short, None, None);
    assert_eq!(e.message, format!("502 Bad Gateway: {}", short));
}

#[test]
fn request_errors_tell_connection_from_the_rest() {
    match request_error(true, true, "http://u", "refused") {
        N8nError::ConnectionFailed { url, message } => {
            assert_eq!(url, "http://u");
            assert_eq!(message, "refused");
        }
        other => panic!("unexpected {:?}", other),
    }
    match request_error(false, true, "http://u", "slow") {
        N8nError::ConnectionFailed { url, message } => {
            assert_eq!(url, "http://u");
            assert_eq!(message, "Request timed out");
        }
        other => panic!("unexpected {:?}", other),
    }
    assert!(matches!(request_error(false, false, "http://u", "odd"), N8nError::Request(t) if t == "odd"));
}

#[test]
fn health_names_the_status_when_not_well() {
    assert_eq!(HealthResponse::from_response(true, "ok", "unhealthy", "200 OK").status, "ok");
    assert_eq!(
        HealthResponse::from_response(false, "ready", "not ready", "503 Service Unavailable").status,
        "not ready (503 Service Unavailable)"
    );
}

#[test]
fn editor_is_chosen_in_order() {
    let s = |t: &str| Some(t.to_string());
    assert_eq!(choose_editor(s("nano"), s("emacs"), s("code")), "nano");
    assert_eq!(choose_editor(None, s("emacs"), s("code")), "emacs");
    assert_eq!(choose_editor(None, None, s("code")), "code");
    assert_eq!(choose_editor(None, None, None), "vi");
}
