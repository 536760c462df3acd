//! The workflow graph: nodes, the index of their connections, and the edits
//! that keep the two in step.

use crate::json::{null_value, pretty_json};
use crate::models::common::{
    can_truncate, format_timestamp_str, shown_timestamp, truncate, truncated,
};
use crate::models::connection::{Connection, ConnectionView};
use crate::models::index::ConnectionsMap;
use crate::models::index_laws::{
    apart_from, avoids, lemma_removed_node_has_no_edges, not_from, renames,
};
use crate::models::index_model::{
    has_source, index_connects, index_disconnected, index_edges, index_renamed, index_with,
    index_without_node, SourceView,
};
use crate::models::node::{is_trigger_type, Node, Position};
use crate::models::node::{yes_no, yes_no_text};
use crate::text::{joined, lemma_joined_push};
use crate::timefmt::rfc3339_minutes;
use vstd::prelude::*;
use vstd::string::*;

verus! {

/// Reference to a tag, as a workflow carries it.
#[derive(Debug)]
pub struct WorkflowTag {
    pub id: String,
    pub name: String,
}

impl Clone for WorkflowTag {
    fn clone(&self) -> (r: Self)
        ensures
            r == *self,
    {
        WorkflowTag { id: self.id.clone(), name: self.name.clone() }
    }
}

/// Summary of a workflow, as the platform lists it.
#[derive(Debug)]
pub struct Workflow {
    pub id: String,
    pub name: String,
    pub active: bool,
    pub created_at: String,
    pub updated_at: String,
    pub tags: Vec<WorkflowTag>,
}

/// Widest name shown in a table of workflows, in bytes.
pub const WORKFLOW_NAME_WIDTH: usize = 40;

/// Widest list of tags shown in a table of workflows, in bytes.
pub const WORKFLOW_TAGS_WIDTH: usize = 20;

/// The names of the tags, in order.
pub open spec fn tag_names(tags: Seq<WorkflowTag>) -> Seq<Seq<char>> {
    Seq::new(tags.len(), |i: int| tags[i].name@)
}

/// The names of the tags, with a comma and a blank between each two.
pub open spec fn tag_list(tags: Seq<WorkflowTag>) -> Seq<char> {
    joined(tag_names(tags), ", "@)
}

/// The names of the tags as one text.
pub fn tag_list_text(tags: &Vec<WorkflowTag>) -> (r: String)
    ensures
        r@ == tag_list(tags@),
{
    let mut text = String::new();
    assert(tag_names(tags@.subrange(0, 0)) =~= Seq::<Seq<char>>::empty());
    let mut i: usize = 0;
    while i < tags.len()
        invariant
            i <= tags.len(),
            text@ == tag_list(tags@.subrange(0, i as int)),
        decreases tags.len() - i,
    {
        let ghost names = tag_names(tags@.subrange(0, i as int));
        proof {
            lemma_joined_push(names, ", "@, tags@[i as int].name@);
            assert(tag_names(tags@.subrange(0, i + 1)) =~= names.push(tags@[i as int].name@));
        }
        let ghost before = text@;
        if i > 0 {
            text.append(", ");
        }
        text.append(tags[i].name.as_str());
        assert(names.len() == i);
        i += 1;
    }
    assert(tags@.subrange(0, i as int) =~= tags@);
    text
}

impl Workflow {
    /// The column headers of a table of workflows.
    pub fn headers() -> (r: Vec<&'static str>)
        ensures
            r@.len() == 5,
            r@[0]@ == "ID"@,
            r@[1]@ == "NAME"@,
            r@[2]@ == "ACTIVE"@,
            r@[3]@ == "TAGS"@,
            r@[4]@ == "UPDATED"@,
    {
        let mut h: Vec<&'static str> = Vec::new();
        h.push("ID");
        h.push("NAME");
        h.push("ACTIVE");
        h.push("TAGS");
        h.push("UPDATED");
        h
    }

    /// Whether [`Workflow::row`] can shorten what it has to shorten.
    pub open spec fn can_show(&self) -> bool {
        &&& can_truncate(self.name@, WORKFLOW_NAME_WIDTH as int)
        &&& can_truncate(tag_list(self.tags@), WORKFLOW_TAGS_WIDTH as int)
    }

    /// The row of this workflow, column by column.
    pub fn row(&self) -> (r: Vec<String>)
        requires
            self.can_show(),
        ensures
            r.deep_view() == seq![
                self.id@,
                truncated(self.name@, WORKFLOW_NAME_WIDTH as int),
                yes_no(self.active),
                truncated(tag_list(self.tags@), WORKFLOW_TAGS_WIDTH as int),
                shown_timestamp(rfc3339_minutes(self.updated_at@), self.updated_at@),
            ],
    {
        let tags = tag_list_text(&self.tags);
        let mut row: Vec<String> = Vec::new();
        row.push(self.id.clone());
        row.push(truncate(self.name.as_str(), WORKFLOW_NAME_WIDTH));
        row.push(yes_no_text(self.active));
        row.push(truncate(tags.as_str(), WORKFLOW_TAGS_WIDTH));
        row.push(format_timestamp_str(self.updated_at.as_str()));
        assert(row.deep_view() =~= seq![
            self.id@,
            truncated(self.name@, WORKFLOW_NAME_WIDTH as int),
            yes_no(self.active),
            truncated(tag_list(self.tags@), WORKFLOW_TAGS_WIDTH as int),
            shown_timestamp(rfc3339_minutes(self.updated_at@), self.updated_at@),
        ]);
        row
    }
}

/// The settings of a workflow that this model knows by name, and the rest.
#[derive(Debug)]
pub struct WorkflowSettings {
    pub save_execution_progress: Option<bool>,
    pub save_data_error_execution: Option<String>,
    pub save_data_success_execution: Option<String>,
    pub save_manual_executions: Option<bool>,
    pub timezone: Option<String>,
    /// Identifier of the workflow to run on failure.
    pub error_workflow: Option<String>,
    /// Execution timeout, in seconds.
    pub execution_timeout: Option<u32>,
    pub execution_order: Option<String>,
    /// Settings this model does not know, kept as they came.
    pub extra: serde_json::Value,
}

impl Default for WorkflowSettings {
    fn default() -> (r: Self)
        ensures
            r.save_execution_progress is None,
            r.save_data_error_execution is None,
            r.save_data_success_execution is None,
            r.save_manual_executions is None,
            r.timezone is None,
            r.error_workflow is None,
            r.execution_timeout is None,
            r.execution_order is None,
            pretty_json(r.extra) == "null"@,
    {
        WorkflowSettings {
            save_execution_progress: None,
            save_data_error_execution: None,
            save_data_success_execution: None,
            save_manual_executions: None,
            timezone: None,
            error_workflow: None,
            execution_timeout: None,
            execution_order: None,
            extra: null_value(),
        }
    }
}

fn clone_text(t: &Option<String>) -> (r: Option<String>)
    ensures
        r == *t,
{
    match t {
        Some(s) => Some(s.clone()),
        None => None,
    }
}

impl Clone for WorkflowSettings {
    fn clone(&self) -> (r: Self)
        ensures
            r == *self,
    {
        WorkflowSettings {
            save_execution_progress: self.save_execution_progress,
            save_data_error_execution: clone_text(&self.save_data_error_execution),
            save_data_success_execution: clone_text(&self.save_data_success_execution),
            save_manual_executions: self.save_manual_executions,
            timezone: clone_text(&self.timezone),
            error_workflow: clone_text(&self.error_workflow),
            execution_timeout: self.execution_timeout,
            execution_order: clone_text(&self.execution_order),
            extra: self.extra.clone(),
        }
    }
}

/// A workflow with typed nodes and connections.
#[derive(Debug)]
pub struct TypedWorkflow {
    pub id: Option<String>,
    pub name: String,
    pub active: bool,
    pub nodes: Vec<Node>,
    pub connections: ConnectionsMap,
    pub settings: WorkflowSettings,
    pub tags: Vec<WorkflowTag>,
    pub version_id: Option<String>,
}

/// Some node has the identifier `key`.
pub open spec fn has_id(nodes: Seq<Node>, key: Seq<char>) -> bool {
    exists|i: int| 0 <= i < nodes.len() && (#[trigger] nodes[i]).id@ == key
}

/// Some node has the name `key`.
pub open spec fn has_name(nodes: Seq<Node>, key: Seq<char>) -> bool {
    exists|i: int| 0 <= i < nodes.len() && (#[trigger] nodes[i]).name@ == key
}

/// The node at `i` has the identifier `key`, and no node before it has.
pub open spec fn is_first_id(nodes: Seq<Node>, key: Seq<char>, i: int) -> bool {
    &&& 0 <= i < nodes.len()
    &&& nodes[i].id@ == key
    &&& forall|j: int| 0 <= j < i ==> (#[trigger] nodes[j]).id@ != key
}

/// The node at `i` has the name `key`, and no node before it has.
pub open spec fn is_first_name(nodes: Seq<Node>, key: Seq<char>, i: int) -> bool {
    &&& 0 <= i < nodes.len()
    &&& nodes[i].name@ == key
    &&& forall|j: int| 0 <= j < i ==> (#[trigger] nodes[j]).name@ != key
}

/// The position of the node that `key` stands for: the first node with
/// that identifier, or else the first node with that name.
pub open spec fn resolved(nodes: Seq<Node>, key: Seq<char>) -> Option<int> {
    if has_id(nodes, key) {
        Some(choose|i: int| is_first_id(nodes, key, i))
    } else if has_name(nodes, key) {
        Some(choose|i: int| is_first_name(nodes, key, i))
    } else {
        None
    }
}

/// The name under which connections know the node that `key` stands for;
/// `key` itself where it stands for no node.
pub open spec fn canonical_name(nodes: Seq<Node>, key: Seq<char>) -> Seq<char> {
    match resolved(nodes, key) {
        Some(i) => nodes[i].name@,
        None => key,
    }
}

/// The edge with both ends replaced by their canonical names.
pub open spec fn canonical_edge(nodes: Seq<Node>, c: ConnectionView) -> ConnectionView {
    ConnectionView {
        source_node: canonical_name(nodes, c.source_node),
        source_output: c.source_output,
        source_type: c.source_type,
        target_node: canonical_name(nodes, c.target_node),
        target_input: c.target_input,
        target_type: c.target_type,
    }
}

/// No connection starts at `name` and none leads to it.
pub open spec fn no_edge_names(m: Seq<SourceView>, name: Seq<char>) -> bool {
    forall|c: ConnectionView| #[trigger]
        index_edges(m).contains(c) ==> c.source_node != name && c.target_node != name
}

/// Some node is of a trigger type.
pub open spec fn any_trigger(nodes: Seq<Node>) -> bool {
    exists|i: int| 0 <= i < nodes.len() && is_trigger_type((#[trigger] nodes[i]).node_type@)
}

/// How far right of the rightmost node a new node is placed.
pub const AUTO_POSITION_STEP: i32 = 200;

/// The height at which a new node is placed.
pub const AUTO_POSITION_Y: i32 = 100;

fn clone_nodes(nodes: &Vec<Node>) -> (r: Vec<Node>)
    ensures
        r@ == nodes@,
{
    let mut out: Vec<Node> = Vec::new();
    let mut i: usize = 0;
    while i < nodes.len()
        invariant
            i <= nodes.len(),
            out@ == nodes@.subrange(0, i as int),
        decreases nodes.len() - i,
    {
        out.push(nodes[i].clone());
        i += 1;
        assert(out@ =~= nodes@.subrange(0, i as int));
    }
    assert(nodes@.subrange(0, i as int) =~= nodes@);
    out
}

fn clone_tags(tags: &Vec<WorkflowTag>) -> (r: Vec<WorkflowTag>)
    ensures
        r@ == tags@,
{
    let mut out: Vec<WorkflowTag> = Vec::new();
    let mut i: usize = 0;
    while i < tags.len()
        invariant
            i <= tags.len(),
            out@ == tags@.subrange(0, i as int),
        decreases tags.len() - i,
    {
        out.push(tags[i].clone());
        i += 1;
        assert(out@ =~= tags@.subrange(0, i as int));
    }
    assert(tags@.subrange(0, i as int) =~= tags@);
    out
}

impl Clone for TypedWorkflow {
    fn clone(&self) -> (r: Self)
        ensures
            r.id == self.id,
            r.name == self.name,
            r.active == self.active,
            r.nodes@ == self.nodes@,
            r.connections@ == self.connections@,
            r.settings == self.settings,
            r.tags@ == self.tags@,
            r.version_id == self.version_id,
    {
        TypedWorkflow {
            id: clone_text(&self.id),
            name: self.name.clone(),
            active: self.active,
            nodes: clone_nodes(&self.nodes),
            connections: self.connections.clone(),
            settings: self.settings.clone(),
            tags: clone_tags(&self.tags),
            version_id: clone_text(&self.version_id),
        }
    }
}

impl TypedWorkflow {
    /// The position in `nodes` of the node that `key` stands for.
    pub fn find_node_index(&self, key: &str) -> (r: Option<usize>)
        ensures
            match r {
                Some(i) => i < self.nodes@.len() && resolved(self.nodes@, key@) == Some(i as int),
                None => resolved(self.nodes@, key@) is None,
            },
    {
        let wanted = key.to_owned();
        let mut i: usize = 0;
        while i < self.nodes.len()
            invariant
                i <= self.nodes.len(),
                wanted@ == key@,
                forall|j: int| 0 <= j < i ==> (#[trigger] self.nodes@[j]).id@ != key@,
            decreases self.nodes.len() - i,
        {
            if self.nodes[i].id == wanted {
                assert(is_first_id(self.nodes@, key@, i as int));
                proof {
                    let c = choose|c: int| is_first_id(self.nodes@, key@, c);
                    assert(c == i);
                }
                return Some(i);
            }
            i += 1;
        }
        let mut i: usize = 0;
        while i < self.nodes.len()
            invariant
                i <= self.nodes.len(),
                wanted@ == key@,
                !has_id(self.nodes@, key@),
                forall|j: int| 0 <= j < i ==> (#[trigger] self.nodes@[j]).name@ != key@,
            decreases self.nodes.len() - i,
        {
            if self.nodes[i].name == wanted {
                assert(is_first_name(self.nodes@, key@, i as int));
                proof {
                    let c = choose|c: int| is_first_name(self.nodes@, key@, c);
                    assert(c == i);
                }
                return Some(i);
            }
            i += 1;
        }
        None
    }

    /// The node with the identifier `node_id`, or else the node with that
    /// name.
    pub fn find_node(&self, node_id: &str) -> (r: Option<&Node>)
        ensures
            match resolved(self.nodes@, node_id@) {
                Some(i) => r == Some(&self.nodes@[i]),
                None => r is None,
            },
    {
        match self.find_node_index(node_id) {
            Some(i) => Some(&self.nodes[i]),
            None => None,
        }
    }

    /// The same node as [`TypedWorkflow::find_node`] finds, for editing in
    /// place. Nothing but that node can change through it.
    pub fn find_node_mut(&mut self, node_id: &str) -> (r: Option<&mut Node>)
        ensures
            match resolved(old(self).nodes@, node_id@) {
                Some(i) => {
                    &&& r is Some
                    &&& *r->0 == old(self).nodes@[i]
                    &&& final(self).nodes@ == old(self).nodes@.update(i, *final(r->0))
                },
                None => r is None && final(self).nodes@ == old(self).nodes@,
            },
            final(self).connections == old(self).connections,
            final(self).id == old(self).id,
            final(self).name == old(self).name,
            final(self).active == old(self).active,
            final(self).settings == old(self).settings,
            final(self).tags == old(self).tags,
            final(self).version_id == old(self).version_id,
    {
        match self.find_node_index(node_id) {
            Some(i) => Some(&mut self.nodes[i]),
            None => None,
        }
    }

    /// The name of the node that `node_id` stands for.
    pub fn get_node_name(&self, node_id: &str) -> (r: Option<String>)
        ensures
            match resolved(self.nodes@, node_id@) {
                Some(i) => r is Some && r->0@ == self.nodes@[i].name@,
                None => r is None,
            },
    {
        match self.find_node_index(node_id) {
            Some(i) => Some(self.nodes[i].name.clone()),
            None => None,
        }
    }

    /// The name that connections use for `key`.
    pub fn canonical(&self, key: &str) -> (r: String)
        ensures
            r@ == canonical_name(self.nodes@, key@),
    {
        match self.find_node_index(key) {
            Some(i) => self.nodes[i].name.clone(),
            None => key.to_owned(),
        }
    }

    /// Appends a node. No connection is made.
    pub fn add_node(&mut self, node: Node)
        ensures
            final(self).nodes@ == old(self).nodes@.push(node),
            final(self).connections == old(self).connections,
            final(self).id == old(self).id,
            final(self).name == old(self).name,
            final(self).active == old(self).active,
            final(self).settings == old(self).settings,
            final(self).tags == old(self).tags,
            final(self).version_id == old(self).version_id,
    {
        self.nodes.push(node);
    }

    /// Removes the node that `node_id` stands for, together with every
    /// connection that starts at it or leads to it, and hands it back.
    /// Where `node_id` stands for no node, nothing changes.
    pub fn remove_node(&mut self, node_id: &str) -> (r: Option<Node>)
        ensures
            match resolved(old(self).nodes@, node_id@) {
                Some(i) => {
                    &&& r == Some(old(self).nodes@[i])
                    &&& final(self).nodes@ == old(self).nodes@.remove(i)
                    &&& final(self).connections@ == index_without_node(
                        old(self).connections@,
                        old(self).nodes@[i].name@,
                    )
                    &&& index_edges(final(self).connections@) == index_edges(
                        old(self).connections@,
                    ).filter(apart_from(old(self).nodes@[i].name@))
                    &&& no_edge_names(final(self).connections@, old(self).nodes@[i].name@)
                },
                None => {
                    &&& r is None
                    &&& final(self).nodes@ == old(self).nodes@
                    &&& final(self).connections@ == old(self).connections@
                },
            },
            final(self).id == old(self).id,
            final(self).name == old(self).name,
            final(self).active == old(self).active,
            final(self).settings == old(self).settings,
            final(self).tags == old(self).tags,
            final(self).version_id == old(self).version_id,
    {
        match self.find_node_index(node_id) {
            Some(i) => {
                let node = self.nodes.remove(i);
                self.connections.remove_node(node.name.as_str());
                proof {
                    lemma_removed_node_has_no_edges(old(self).connections@, node.name@);
                }
                Some(node)
            },
            None => None,
        }
    }

    /// Every connection as a flat list.
    pub fn connections_flat(&self) -> (r: Vec<Connection>)
        ensures
            r.deep_view() == index_edges(self.connections@),
    {
        Connection::from_connections_map(&self.connections)
    }

    /// Inserts a connection. Each end may name its node by identifier or
    /// by name; it is stored under the node's name, or as given where it
    /// names no node.
    pub fn add_connection(&mut self, conn: Connection)
        ensures
            final(self).connections@ == index_with(
                old(self).connections@,
                canonical_edge(old(self).nodes@, conn@),
            ),
            final(self).nodes == old(self).nodes,
            final(self).id == old(self).id,
            final(self).name == old(self).name,
            final(self).active == old(self).active,
            final(self).settings == old(self).settings,
            final(self).tags == old(self).tags,
            final(self).version_id == old(self).version_id,
    {
        let resolved = Connection {
            source_node: self.canonical(conn.source_node.as_str()),
            source_output: conn.source_output,
            source_type: conn.source_type,
            target_node: self.canonical(conn.target_node.as_str()),
            target_input: conn.target_input,
            target_type: conn.target_type,
        };
        Connection::add_to_map(&mut self.connections, &resolved);
    }

    /// Removes the connections from one node to another, each named by
    /// identifier or by name, and says whether there was one.
    pub fn remove_connection(&mut self, from_node: &str, to_node: &str) -> (removed: bool)
        ensures
            final(self).connections@ == index_disconnected(
                old(self).connections@,
                canonical_name(old(self).nodes@, from_node@),
                canonical_name(old(self).nodes@, to_node@),
            ),
            removed == index_connects(
                old(self).connections@,
                canonical_name(old(self).nodes@, from_node@),
                canonical_name(old(self).nodes@, to_node@),
            ),
            index_edges(final(self).connections@) == index_edges(old(self).connections@).filter(
                avoids(
                    canonical_name(old(self).nodes@, from_node@),
                    canonical_name(old(self).nodes@, to_node@),
                ),
            ),
            final(self).nodes == old(self).nodes,
            final(self).id == old(self).id,
            final(self).name == old(self).name,
            final(self).active == old(self).active,
            final(self).settings == old(self).settings,
            final(self).tags == old(self).tags,
            final(self).version_id == old(self).version_id,
    {
        let from_name = self.canonical(from_node);
        let to_name = self.canonical(to_node);
        Connection::remove_from_map(&mut self.connections, from_name.as_str(), to_name.as_str())
    }

    /// Where to put a new node: to the right of the rightmost node, or of
    /// the origin where there is no node yet.
    pub fn auto_position(&self) -> (r: Position)
        requires
            forall|i: int|
                0 <= i < self.nodes@.len() ==> (#[trigger] self.nodes@[i]).position.x
                    + AUTO_POSITION_STEP <= i32::MAX,
        ensures
            r.y == AUTO_POSITION_Y,
            self.nodes@.len() == 0 ==> r.x == AUTO_POSITION_STEP,
            self.nodes@.len() > 0 ==> exists|i: int|
                0 <= i < self.nodes@.len() && r.x == (#[trigger] self.nodes@[i]).position.x
                    + AUTO_POSITION_STEP,
            forall|i: int|
                0 <= i < self.nodes@.len() ==> (#[trigger] self.nodes@[i]).position.x
                    + AUTO_POSITION_STEP <= r.x,
    {
        if self.nodes.len() == 0 {
            return Position::new(AUTO_POSITION_STEP, AUTO_POSITION_Y);
        }
        let mut max_x: i32 = self.nodes[0].position.x;
        let mut i: usize = 1;
        while i < self.nodes.len()
            invariant
                1 <= i <= self.nodes.len(),
                exists|k: int| 0 <= k < i && max_x == (#[trigger] self.nodes@[k]).position.x,
                forall|k: int| 0 <= k < i ==> (#[trigger] self.nodes@[k]).position.x <= max_x,
            decreases self.nodes.len() - i,
        {
            if self.nodes[i].position.x > max_x {
                max_x = self.nodes[i].position.x;
            }
            i += 1;
        }
        Position::new(max_x + AUTO_POSITION_STEP, AUTO_POSITION_Y)
    }

    /// Whether any node is an entry point.
    pub fn has_trigger(&self) -> (r: bool)
        ensures
            r == any_trigger(self.nodes@),
    {
        let mut i: usize = 0;
        while i < self.nodes.len()
            invariant
                i <= self.nodes.len(),
                forall|k: int| 0 <= k < i ==> !is_trigger_type((#[trigger] self.nodes@[k]).node_type@),
            decreases self.nodes.len() - i,
        {
            if self.nodes[i].is_trigger() {
                return true;
            }
            i += 1;
        }
        false
    }

    /// The names of the nodes, in order.
    pub fn node_names(&self) -> (r: Vec<&str>)
        ensures
            r@.len() == self.nodes@.len(),
            forall|i: int| 0 <= i < r@.len() ==> (#[trigger] r@[i])@ == self.nodes@[i].name@,
    {
        let mut names: Vec<&str> = Vec::new();
        let mut i: usize = 0;
        while i < self.nodes.len()
            invariant
                i <= self.nodes.len(),
                names@.len() == i,
                forall|k: int| 0 <= k < i ==> (#[trigger] names@[k])@ == self.nodes@[k].name@,
            decreases self.nodes.len() - i,
        {
            names.push(self.nodes[i].name.as_str());
            i += 1;
        }
        names
    }

    /// Lets the connections follow a node from `old_name` to `new_name`.
    /// To be called whenever a node's name changes: connections know
    /// nodes by name only.
    pub fn rename_node_in_connections(&mut self, old_name: &str, new_name: &str)
        ensures
            final(self).connections@ == index_renamed(old(self).connections@, old_name@, new_name@),
            index_edges(final(self).connections@) == (if has_source(
                old(self).connections@,
                old_name@,
            ) && old_name@ != new_name@ {
                index_edges(old(self).connections@).filter(not_from(new_name@))
            } else {
                index_edges(old(self).connections@)
            }).map_values(renames(old_name@, new_name@)),
            final(self).nodes == old(self).nodes,
            final(self).id == old(self).id,
            final(self).name == old(self).name,
            final(self).active == old(self).active,
            final(self).settings == old(self).settings,
            final(self).tags == old(self).tags,
            final(self).version_id == old(self).version_id,
    {
        self.connections.rename_node(old_name, new_name);
    }
}

} // verus!
