//! Nodes and their canvas positions.

use crate::ids::{random_uuid, UUID_TEXT_LEN};
use crate::json::{empty_object, pretty_json};
use crate::models::common::{can_truncate, truncate, truncated};
use crate::text::{contains_ignore_case, contains_ignore_case_str};
use crate::text::{push_signed, signed_decimal};
use vstd::prelude::*;
use vstd::string::*;

verus! {

/// Position of a node on the canvas.
#[derive(Debug, Clone, Copy, PartialEq, Eq, Structural)]
pub struct Position {
    pub x: i32,
    pub y: i32,
}

impl Position {
    /// The position `(x, y)`.
    pub fn new(x: i32, y: i32) -> (r: Self)
        ensures
            r.x == x,
            r.y == y,
    {
        Self { x, y }
    }
}

impl Default for Position {
    fn default() -> (r: Self)
        ensures
            r.x == 0,
            r.y == 0,
    {
        Self { x: 0, y: 0 }
    }
}

/// Bit pattern of the IEEE 754 double `1.0`, the version a new node starts with.
pub const DEFAULT_TYPE_VERSION: u64 = 0x3FF0_0000_0000_0000;

/// One step of a workflow.
#[derive(Debug)]
pub struct Node {
    /// Identifier, meant to be unique within the workflow.
    pub id: String,
    /// Display name; connections refer to nodes by this name.
    pub name: String,
    /// Kind of node, such as `n8n-nodes-base.httpRequest`.
    pub node_type: String,
    /// Version of the node type, as the bit pattern of an IEEE 754 double.
    pub type_version: u64,
    /// Canvas position.
    pub position: Position,
    /// Configuration of the node; its shape depends on `node_type`.
    pub parameters: serde_json::Value,
    /// Credential references.
    pub credentials: Option<serde_json::Value>,
    /// Whether the node is disabled.
    pub disabled: bool,
    /// Free-text notes.
    pub notes: Option<String>,
    pub continue_on_fail: bool,
    pub retry_on_fail: bool,
    pub max_tries: Option<u32>,
    /// Pause between retries, in milliseconds.
    pub wait_between_tries: Option<u32>,
    pub always_output_data: bool,
    pub execute_once: bool,
    pub webhook_id: Option<String>,
    /// Fields this model does not know, kept as they came.
    pub extra: serde_json::Value,
}

/// Type strings that mark an entry point without saying "trigger".
pub open spec fn is_start_type(node_type: Seq<char>) -> bool {
    node_type == "n8n-nodes-base.start"@ || node_type == "n8n-nodes-base.manualTrigger"@
}

/// A node type counts as a trigger when it holds `trigger` in any mix of
/// upper and lower case, or is one of the designated start types. This is a
/// heuristic on a free-text field.
pub open spec fn is_trigger_type(node_type: Seq<char>) -> bool {
    contains_ignore_case(node_type, "trigger"@) || is_start_type(node_type)
}

fn clone_opt_string(s: &Option<String>) -> (r: Option<String>)
    ensures
        r == *s,
{
    match s {
        Some(t) => Some(t.clone()),
        None => None,
    }
}

fn clone_opt_value(v: &Option<serde_json::Value>) -> (r: Option<serde_json::Value>)
    ensures
        r == *v,
{
    match v {
        Some(t) => Some(t.clone()),
        None => None,
    }
}

impl Clone for Node {
    fn clone(&self) -> (r: Self)
        ensures
            r == *self,
    {
        Node {
            id: self.id.clone(),
            name: self.name.clone(),
            node_type: self.node_type.clone(),
            type_version: self.type_version,
            position: self.position,
            parameters: self.parameters.clone(),
            credentials: clone_opt_value(&self.credentials),
            disabled: self.disabled,
            notes: clone_opt_string(&self.notes),
            continue_on_fail: self.continue_on_fail,
            retry_on_fail: self.retry_on_fail,
            max_tries: self.max_tries,
            wait_between_tries: self.wait_between_tries,
            always_output_data: self.always_output_data,
            execute_once: self.execute_once,
            webhook_id: clone_opt_string(&self.webhook_id),
            extra: self.extra.clone(),
        }
    }
}

impl Node {
    /// A node with the given identity and type, and every other field at its
    /// default.
    pub fn new(id: String, name: String, node_type: String) -> (r: Self)
        ensures
            r.id == id,
            r.name == name,
            r.node_type == node_type,
            r.type_version == DEFAULT_TYPE_VERSION,
            r.position == (Position { x: 0, y: 0 }),
            pretty_json(r.parameters) == "{}"@,
            r.credentials is None,
            !r.disabled,
            r.notes is None,
            !r.continue_on_fail,
            !r.retry_on_fail,
            r.max_tries is None,
            r.wait_between_tries is None,
            !r.always_output_data,
            !r.execute_once,
            r.webhook_id is None,
            pretty_json(r.extra) == "{}"@,
    {
        Self {
            id,
            name,
            node_type,
            type_version: DEFAULT_TYPE_VERSION,
            position: Position::default(),
            parameters: empty_object(),
            credentials: None,
            disabled: false,
            notes: None,
            continue_on_fail: false,
            retry_on_fail: false,
            max_tries: None,
            wait_between_tries: None,
            always_output_data: false,
            execute_once: false,
            webhook_id: None,
            extra: empty_object(),
        }
    }

    /// A fresh identifier for a node: a random UUID.
    pub fn generate_id() -> (r: String)
        ensures
            r@.len() == UUID_TEXT_LEN,
    {
        random_uuid()
    }

    /// Whether this node is an entry point of its workflow.
    pub fn is_trigger(&self) -> (r: bool)
        ensures
            r == is_trigger_type(self.node_type@),
    {
        if contains_ignore_case_str(self.node_type.as_str(), "trigger") {
            return true;
        }
        let start = String::from_str("n8n-nodes-base.start");
        let manual = String::from_str("n8n-nodes-base.manualTrigger");
        self.node_type == start || self.node_type == manual
    }

    /// The node at another position.
    pub fn with_position(self, x: i32, y: i32) -> (r: Self)
        ensures
            r == (Node { position: Position { x, y }, ..self }),
    {
        let mut node = self;
        node.position = Position::new(x, y);
        node
    }

    /// The node with other parameters.
    pub fn with_parameters(self, parameters: serde_json::Value) -> (r: Self)
        ensures
            r == (Node { parameters, ..self }),
    {
        let mut node = self;
        node.parameters = parameters;
        node
    }

    /// The node with the disabled flag set as given.
    pub fn with_disabled(self, disabled: bool) -> (r: Self)
        ensures
            r == (Node { disabled, ..self }),
    {
        let mut node = self;
        node.disabled = disabled;
        node
    }
}

/// Widest identifier shown in a table of nodes, in bytes.
pub const NODE_ID_WIDTH: usize = 20;

/// Widest name shown in a table of nodes, in bytes.
pub const NODE_NAME_WIDTH: usize = 30;

/// Widest type shown in a table of nodes, in bytes.
pub const NODE_TYPE_WIDTH: usize = 35;

/// `yes` or `no`.
pub open spec fn yes_no(b: bool) -> Seq<char> {
    if b {
        "yes"@
    } else {
        "no"@
    }
}

/// `yes` or `no`.
pub fn yes_no_text(b: bool) -> (r: String)
    ensures
        r@ == yes_no(b),
{
    if b {
        "yes".to_owned()
    } else {
        "no".to_owned()
    }
}

impl Node {
    /// The column headers of a table of nodes.
    pub fn headers() -> (r: Vec<&'static str>)
        ensures
            r@.len() == 5,
            r@[0]@ == "ID"@,
            r@[1]@ == "NAME"@,
            r@[2]@ == "TYPE"@,
            r@[3]@ == "POSITION"@,
            r@[4]@ == "DISABLED"@,
    {
        let mut h: Vec<&'static str> = Vec::new();
        h.push("ID");
        h.push("NAME");
        h.push("TYPE");
        h.push("POSITION");
        h.push("DISABLED");
        h
    }

    /// Whether [`Node::row`] can shorten what it has to shorten.
    pub open spec fn can_show(&self) -> bool {
        &&& can_truncate(self.id@, NODE_ID_WIDTH as int)
        &&& can_truncate(self.name@, NODE_NAME_WIDTH as int)
        &&& can_truncate(self.node_type@, NODE_TYPE_WIDTH as int)
    }

    /// The row of this node, column by column.
    pub fn row(&self) -> (r: Vec<String>)
        requires
            self.can_show(),
        ensures
            r.deep_view() == seq![
                truncated(self.id@, NODE_ID_WIDTH as int),
                truncated(self.name@, NODE_NAME_WIDTH as int),
                truncated(self.node_type@, NODE_TYPE_WIDTH as int),
                signed_decimal(self.position.x as int) + ","@ + signed_decimal(
                    self.position.y as int,
                ),
                yes_no(self.disabled),
            ],
    {
        let mut place = String::new();
        push_signed(&mut place, self.position.x);
        place.append(",");
        push_signed(&mut place, self.position.y);
        let mut row: Vec<String> = Vec::new();
        row.push(truncate(self.id.as_str(), NODE_ID_WIDTH));
        row.push(truncate(self.name.as_str(), NODE_NAME_WIDTH));
        row.push(truncate(self.node_type.as_str(), NODE_TYPE_WIDTH));
        row.push(place);
        row.push(yes_no_text(self.disabled));
        assert(row.deep_view() =~= seq![
            truncated(self.id@, NODE_ID_WIDTH as int),
            truncated(self.name@, NODE_NAME_WIDTH as int),
            truncated(self.node_type@, NODE_TYPE_WIDTH as int),
            signed_decimal(self.position.x as int) + ","@ + signed_decimal(self.position.y as int),
            yes_no(self.disabled),
        ]);
        row
    }
}

} // verus!
