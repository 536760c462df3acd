//! Structural comparison of two snapshots of a workflow.

use crate::gather::{gather, lemma_flatten_step};
use crate::json::{pretty_json, to_pretty_text};
use crate::linediff::{diff_lines, line_changes, LineChange, LineChangeView, LineTag};
use crate::models::connection::{Connection, ConnectionView};
use crate::models::index_model::index_edges;
use crate::models::node::Node;
use crate::models::workflow::{has_id, TypedWorkflow};
use crate::text::opt_text;
use vstd::prelude::*;
use vstd::string::*;

verus! {

/// One difference between two versions of a node.
#[derive(Debug)]
pub enum NodeChange {
    NameChanged(String, String),
    TypeChanged(String, String),
    PositionChanged((i32, i32), (i32, i32)),
    DisabledChanged(bool, bool),
    /// The parameters differ; the text is their line-by-line comparison.
    ParametersChanged(String),
}

/// A [`NodeChange`] with its texts as sequences of characters.
pub enum NodeChangeView {
    NameChanged(Seq<char>, Seq<char>),
    TypeChanged(Seq<char>, Seq<char>),
    PositionChanged((i32, i32), (i32, i32)),
    DisabledChanged(bool, bool),
    ParametersChanged(Seq<char>),
}

impl DeepView for NodeChange {
    type V = NodeChangeView;

    open spec fn deep_view(&self) -> NodeChangeView {
        match self {
            NodeChange::NameChanged(a, b) => NodeChangeView::NameChanged(a@, b@),
            NodeChange::TypeChanged(a, b) => NodeChangeView::TypeChanged(a@, b@),
            NodeChange::PositionChanged(a, b) => NodeChangeView::PositionChanged(*a, *b),
            NodeChange::DisabledChanged(a, b) => NodeChangeView::DisabledChanged(*a, *b),
            NodeChange::ParametersChanged(t) => NodeChangeView::ParametersChanged(t@),
        }
    }
}

impl View for NodeChange {
    type V = NodeChangeView;

    open spec fn view(&self) -> NodeChangeView {
        self.deep_view()
    }
}

/// The differences of one node that is in both snapshots.
#[derive(Debug)]
pub struct NodeDiff {
    pub node_id: String,
    /// The name the node had in the old snapshot.
    pub node_name: String,
    pub changes: Vec<NodeChange>,
}

/// A [`NodeDiff`] with its texts as sequences of characters.
pub struct NodeDiffView {
    pub node_id: Seq<char>,
    pub node_name: Seq<char>,
    pub changes: Seq<NodeChangeView>,
}

impl DeepView for NodeDiff {
    type V = NodeDiffView;

    open spec fn deep_view(&self) -> NodeDiffView {
        NodeDiffView {
            node_id: self.node_id@,
            node_name: self.node_name@,
            changes: self.changes.deep_view(),
        }
    }
}

impl View for NodeDiff {
    type V = NodeDiffView;

    open spec fn view(&self) -> NodeDiffView {
        self.deep_view()
    }
}

/// The differences between two snapshots of a workflow.
#[derive(Debug)]
pub struct WorkflowDiff {
    pub name_changed: Option<(String, String)>,
    pub active_changed: Option<(bool, bool)>,
    pub nodes_added: Vec<Node>,
    pub nodes_removed: Vec<Node>,
    pub nodes_modified: Vec<NodeDiff>,
    pub connections_added: Vec<Connection>,
    pub connections_removed: Vec<Connection>,
}

/// The mark a line gets in a comparison text.
pub open spec fn sign(tag: LineTag) -> char {
    match tag {
        LineTag::Equal => ' ',
        LineTag::Delete => '-',
        LineTag::Insert => '+',
    }
}

/// One line of a comparison text: the mark, then the line.
pub open spec fn unified_rule(changes: Seq<LineChangeView>) -> spec_fn(int) -> Seq<char> {
    |i: int| seq![sign(changes[i].tag)] + changes[i].text
}

/// The comparison text of a list of line changes: each line behind its mark.
pub open spec fn unified_of(changes: Seq<LineChangeView>) -> Seq<char> {
    gather(changes.len() as int, unified_rule(changes))
}

/// What is reported of two parameter texts: nothing where they are the
/// same, else their comparison text.
pub open spec fn parameters_change(old_text: Seq<char>, new_text: Seq<char>) -> Option<Seq<char>> {
    if old_text == new_text {
        None
    } else {
        let text = unified_of(line_changes(old_text, new_text));
        if text.len() == 0 {
            None
        } else {
            Some(text)
        }
    }
}

/// The entry for a changed name, where the name changed.
pub open spec fn name_change(old: Node, new: Node) -> Seq<NodeChangeView> {
    if old.name@ != new.name@ {
        seq![NodeChangeView::NameChanged(old.name@, new.name@)]
    } else {
        Seq::empty()
    }
}

/// The entry for a changed type, where the type changed.
pub open spec fn type_change(old: Node, new: Node) -> Seq<NodeChangeView> {
    if old.node_type@ != new.node_type@ {
        seq![NodeChangeView::TypeChanged(old.node_type@, new.node_type@)]
    } else {
        Seq::empty()
    }
}

/// The entry for a changed position, where the position changed.
pub open spec fn position_change(old: Node, new: Node) -> Seq<NodeChangeView> {
    if old.position != new.position {
        seq![
            NodeChangeView::PositionChanged(
                (old.position.x, old.position.y),
                (new.position.x, new.position.y),
            ),
        ]
    } else {
        Seq::empty()
    }
}

/// The entry for a changed disabled flag, where the flag changed.
pub open spec fn disabled_change(old: Node, new: Node) -> Seq<NodeChangeView> {
    if old.disabled != new.disabled {
        seq![NodeChangeView::DisabledChanged(old.disabled, new.disabled)]
    } else {
        Seq::empty()
    }
}

/// The entry for changed parameters, where there is a comparison text.
pub open spec fn parameters_entry(parameters: Option<Seq<char>>) -> Seq<NodeChangeView> {
    match parameters {
        Some(text) => seq![NodeChangeView::ParametersChanged(text)],
        None => Seq::empty(),
    }
}

/// The changes between two versions of a node, in the order name, type,
/// position, disabled, parameters.
pub open spec fn changes_of(old: Node, new: Node, parameters: Option<Seq<char>>) -> Seq<
    NodeChangeView,
> {
    name_change(old, new) + type_change(old, new) + position_change(old, new) + disabled_change(
        old,
        new,
    ) + parameters_entry(parameters)
}

/// The report on two versions of a node, given what is to be said of
/// their parameters: none where nothing changed.
pub open spec fn node_diff_given(old: Node, new: Node, parameters: Option<Seq<char>>) -> Option<
    NodeDiffView,
> {
    let changes = changes_of(old, new, parameters);
    if changes.len() == 0 {
        None
    } else {
        Some(NodeDiffView { node_id: old.id@, node_name: old.name@, changes })
    }
}

/// The report on two versions of a node.
pub open spec fn node_diff_of(old: Node, new: Node) -> Option<NodeDiffView> {
    node_diff_given(
        old,
        new,
        parameters_change(pretty_json(old.parameters), pretty_json(new.parameters)),
    )
}

/// The view of a report that may be missing.
pub open spec fn opt_diff(d: Option<NodeDiff>) -> Option<NodeDiffView> {
    match d {
        Some(x) => Some(x@),
        None => None,
    }
}

/// The comparison text of a list of line changes.
pub fn unified_text(changes: &Vec<LineChange>) -> (r: String)
    ensures
        r@ == unified_of(changes.deep_view()),
{
    let ghost views = changes.deep_view();
    let ghost rule = unified_rule(views);
    let mut text = String::new();
    proof {
        lemma_flatten_step(0, rule);
        assert(text@ =~= gather(0, rule));
        reveal_strlit(" ");
        reveal_strlit("-");
        reveal_strlit("+");
    }
    let mut i: usize = 0;
    while i < changes.len()
        invariant
            i <= changes.len(),
            views == changes.deep_view(),
            rule == unified_rule(views),
            text@ == gather(i as int, rule),
            " "@ == seq![' '],
            "-"@ == seq!['-'],
            "+"@ == seq!['+'],
        decreases changes.len() - i,
    {
        proof {
            lemma_flatten_step(i as nat, rule);
            assert(views[i as int] == changes@[i as int].deep_view());
        }
        let ghost before = text@;
        match changes[i].tag {
            LineTag::Equal => text.append(" "),
            LineTag::Delete => text.append("-"),
            LineTag::Insert => text.append("+"),
        }
        text.append(changes[i].text.as_str());
        assert(text@ =~= before + rule(i as int));
        i += 1;
    }
    text
}

/// The report on two versions of a node, given the comparison text of
/// their parameters where they differ.
pub fn node_diff(old: &Node, new: &Node, parameters: Option<String>) -> (r: Option<NodeDiff>)
    ensures
        opt_diff(r) == node_diff_given(*old, *new, opt_text(parameters)),
{
    let mut changes: Vec<NodeChange> = Vec::new();
    assert(changes.deep_view() =~= Seq::<NodeChangeView>::empty());
    if old.name != new.name {
        let ghost before = changes.deep_view();
        changes.push(NodeChange::NameChanged(old.name.clone(), new.name.clone()));
        assert(changes.deep_view() =~= before + name_change(*old, *new));
    }
    assert(changes.deep_view() =~= name_change(*old, *new));
    if old.node_type != new.node_type {
        let ghost before = changes.deep_view();
        changes.push(NodeChange::TypeChanged(old.node_type.clone(), new.node_type.clone()));
        assert(changes.deep_view() =~= before + type_change(*old, *new));
    }
    assert(changes.deep_view() =~= name_change(*old, *new) + type_change(*old, *new));
    if old.position.x != new.position.x || old.position.y != new.position.y {
        let ghost before = changes.deep_view();
        changes.push(
            NodeChange::PositionChanged(
                (old.position.x, old.position.y),
                (new.position.x, new.position.y),
            ),
        );
        assert(changes.deep_view() =~= before + position_change(*old, *new));
    }
    assert(changes.deep_view() =~= name_change(*old, *new) + type_change(*old, *new)
        + position_change(*old, *new));
    if old.disabled != new.disabled {
        let ghost before = changes.deep_view();
        changes.push(NodeChange::DisabledChanged(old.disabled, new.disabled));
        assert(changes.deep_view() =~= before + disabled_change(*old, *new));
    }
    assert(changes.deep_view() =~= name_change(*old, *new) + type_change(*old, *new)
        + position_change(*old, *new) + disabled_change(*old, *new));
    match parameters {
        Some(text) => {
            let ghost before = changes.deep_view();
            let ghost t = text@;
            changes.push(NodeChange::ParametersChanged(text));
            assert(changes.deep_view() =~= before + parameters_entry(Some(t)));
        },
        None => {},
    }
    assert(changes.deep_view() =~= changes_of(*old, *new, opt_text(parameters)));
    if changes.len() == 0 {
        None
    } else {
        Some(NodeDiff { node_id: old.id.clone(), node_name: old.name.clone(), changes })
    }
}

/// The comparison text of two parameter texts, where they differ.
pub fn parameters_diff(old_text: &str, new_text: &str) -> (r: Option<String>)
    ensures
        opt_text(r) == parameters_change(old_text@, new_text@),
{
    let a = old_text.to_owned();
    let b = new_text.to_owned();
    if a == b {
        return None;
    }
    let changes = diff_lines(old_text, new_text);
    let text = unified_text(&changes);
    if text.as_str().unicode_len() == 0 {
        None
    } else {
        Some(text)
    }
}

/// The report on two versions of a node: field by field, and the
/// parameters by their pretty-printed texts.
pub fn compare_nodes(old: &Node, new: &Node) -> (r: Option<NodeDiff>)
    ensures
        opt_diff(r) == node_diff_of(*old, *new),
{
    let old_text = to_pretty_text(&old.parameters);
    let new_text = to_pretty_text(&new.parameters);
    let parameters = parameters_diff(old_text.as_str(), new_text.as_str());
    node_diff(old, new, parameters)
}

/// No node after position `i` has the identifier of the node at `i`. Where
/// an identifier occurs more than once in a snapshot, its last node stands
/// for it.
pub open spec fn is_last_with_id(nodes: Seq<Node>, i: int) -> bool {
    &&& 0 <= i < nodes.len()
    &&& forall|j: int| i < j < nodes.len() ==> (#[trigger] nodes[j]).id@ != nodes[i].id@
}

/// The position of the node that stands for `id`.
pub open spec fn last_with_id(nodes: Seq<Node>, id: Seq<char>) -> int {
    choose|i: int| is_last_with_id(nodes, i) && nodes[i].id@ == id
}

/// The node at `i`, where it stands for an identifier that `others` lacks.
pub open spec fn only_in_rule(these: Seq<Node>, others: Seq<Node>) -> spec_fn(int) -> Seq<Node> {
    |i: int|
        if is_last_with_id(these, i) && !has_id(others, these[i].id@) {
            seq![these[i]]
        } else {
            Seq::empty()
        }
}

/// The nodes of `these` whose identifier no node of `others` has, one per
/// identifier, in the order of `these`.
pub open spec fn nodes_only_in(these: Seq<Node>, others: Seq<Node>) -> Seq<Node> {
    gather(these.len() as int, only_in_rule(these, others))
}

/// The report on the node at `i`, where it stands for an identifier that
/// both snapshots have and its two versions differ.
pub open spec fn modified_rule(old: Seq<Node>, new: Seq<Node>) -> spec_fn(int) -> Seq<NodeDiffView> {
    |i: int|
        if is_last_with_id(old, i) && has_id(new, old[i].id@) {
            match node_diff_of(old[i], new[last_with_id(new, old[i].id@)]) {
                Some(d) => seq![d],
                None => Seq::empty(),
            }
        } else {
            Seq::empty()
        }
}

/// The reports on the nodes that are in both snapshots and differ, in the
/// order of the old snapshot.
pub open spec fn nodes_modified(old: Seq<Node>, new: Seq<Node>) -> Seq<NodeDiffView> {
    gather(old.len() as int, modified_rule(old, new))
}

/// Two connections join the same ports of the same nodes. The port types
/// take no part in this.
pub open spec fn same_ports(a: ConnectionView, b: ConnectionView) -> bool {
    &&& a.source_node == b.source_node
    &&& a.source_output == b.source_output
    &&& a.target_node == b.target_node
    &&& a.target_input == b.target_input
}

/// Some connection of `edges` joins the ports that `c` joins.
pub open spec fn has_ports(edges: Seq<ConnectionView>, c: ConnectionView) -> bool {
    exists|k: int| 0 <= k < edges.len() && same_ports(#[trigger] edges[k], c)
}

/// The connections whose ports no connection of `edges` joins.
pub open spec fn missing_from(edges: Seq<ConnectionView>) -> spec_fn(ConnectionView) -> bool {
    |c: ConnectionView| !has_ports(edges, c)
}

/// The connections of `these` that join ports which no connection of
/// `others` joins, as they stand in `these`.
pub open spec fn edges_only_in(
    these: Seq<ConnectionView>,
    others: Seq<ConnectionView>,
) -> Seq<ConnectionView> {
    these.filter(missing_from(others))
}

/// The old and the new name of the workflow, where they differ.
pub open spec fn name_changed_of(old: Seq<char>, new: Seq<char>) -> Option<(Seq<char>, Seq<char>)> {
    if old != new {
        Some((old, new))
    } else {
        None
    }
}

/// The old and the new active flag, where they differ.
pub open spec fn active_changed_of(old: bool, new: bool) -> Option<(bool, bool)> {
    if old != new {
        Some((old, new))
    } else {
        None
    }
}

/// The texts of a pair of strings that may be missing.
pub open spec fn opt_pair(p: Option<(String, String)>) -> Option<(Seq<char>, Seq<char>)> {
    match p {
        Some((a, b)) => Some((a@, b@)),
        None => None,
    }
}

fn id_in(nodes: &Vec<Node>, id: &String) -> (r: bool)
    ensures
        r == has_id(nodes@, id@),
{
    let mut i: usize = 0;
    while i < nodes.len()
        invariant
            i <= nodes.len(),
            forall|x: int| 0 <= x < i ==> (#[trigger] nodes@[x]).id@ != id@,
        decreases nodes.len() - i,
    {
        if nodes[i].id == *id {
            return true;
        }
        i += 1;
    }
    false
}

fn is_last(nodes: &Vec<Node>, i: usize) -> (r: bool)
    requires
        i < nodes.len(),
    ensures
        r == is_last_with_id(nodes@, i as int),
{
    let mut j: usize = i + 1;
    while j < nodes.len()
        invariant
            i < j <= nodes.len(),
            forall|x: int| i < x < j ==> (#[trigger] nodes@[x]).id@ != nodes@[i as int].id@,
        decreases nodes.len() - j,
    {
        if nodes[j].id == nodes[i].id {
            return false;
        }
        j += 1;
    }
    true
}

/// The last node of a snapshot with a given identifier is one node.
pub proof fn lemma_last_with_id(nodes: Seq<Node>, i: int)
    requires
        is_last_with_id(nodes, i),
    ensures
        last_with_id(nodes, nodes[i].id@) == i,
{
    let c = last_with_id(nodes, nodes[i].id@);
    assert(is_last_with_id(nodes, c) && nodes[c].id@ == nodes[i].id@);
    if c < i {
        assert(nodes[i].id@ != nodes[c].id@);
    } else if i < c {
        assert(nodes[c].id@ != nodes[i].id@);
    }
}

fn find_last(nodes: &Vec<Node>, id: &String) -> (r: Option<usize>)
    ensures
        match r {
            Some(i) => i < nodes.len() && last_with_id(nodes@, id@) == i && nodes@[i as int].id@
                == id@,
            None => !has_id(nodes@, id@),
        },
{
    let mut found: Option<usize> = None;
    let mut i: usize = 0;
    while i < nodes.len()
        invariant
            i <= nodes.len(),
            match found {
                Some(f) => f < i && nodes@[f as int].id@ == id@ && forall|x: int|
                    f < x < i ==> (#[trigger] nodes@[x]).id@ != id@,
                None => forall|x: int| 0 <= x < i ==> (#[trigger] nodes@[x]).id@ != id@,
            },
        decreases nodes.len() - i,
    {
        if nodes[i].id == *id {
            found = Some(i);
        }
        i += 1;
    }
    proof {
        match found {
            Some(f) => {
                lemma_last_with_id(nodes@, f as int);
            },
            None => {},
        }
    }
    found
}

fn only_in(these: &Vec<Node>, others: &Vec<Node>) -> (r: Vec<Node>)
    ensures
        r@ == nodes_only_in(these@, others@),
{
    let ghost rule = only_in_rule(these@, others@);
    let mut out: Vec<Node> = Vec::new();
    proof {
        lemma_flatten_step(0, rule);
        assert(out@ =~= gather(0, rule));
    }
    let mut i: usize = 0;
    while i < these.len()
        invariant
            i <= these.len(),
            rule == only_in_rule(these@, others@),
            out@ == gather(i as int, rule),
        decreases these.len() - i,
    {
        proof {
            lemma_flatten_step(i as nat, rule);
        }
        if is_last(these, i) && !id_in(others, &these[i].id) {
            out.push(these[i].clone());
        }
        i += 1;
        assert(out@ =~= gather(i as int, rule));
    }
    out
}

fn modified(old: &Vec<Node>, new: &Vec<Node>) -> (r: Vec<NodeDiff>)
    ensures
        r.deep_view() == nodes_modified(old@, new@),
{
    let ghost rule = modified_rule(old@, new@);
    let mut out: Vec<NodeDiff> = Vec::new();
    proof {
        lemma_flatten_step(0, rule);
        assert(out.deep_view() =~= gather(0, rule));
    }
    let mut i: usize = 0;
    while i < old.len()
        invariant
            i <= old.len(),
            rule == modified_rule(old@, new@),
            out.deep_view() == gather(i as int, rule),
        decreases old.len() - i,
    {
        proof {
            lemma_flatten_step(i as nat, rule);
        }
        let ghost before = out.deep_view();
        if is_last(old, i) {
            match find_last(new, &old[i].id) {
                Some(j) => {
                    match compare_nodes(&old[i], &new[j]) {
                        Some(d) => {
                            let ghost v = d.deep_view();
                            out.push(d);
                            assert(out.deep_view() =~= before.push(v));
                        },
                        None => {},
                    }
                },
                None => {},
            }
        }
        i += 1;
        assert(out.deep_view() =~= before + rule(i - 1));
    }
    out
}

fn ports_in(edges: &Vec<Connection>, c: &Connection) -> (r: bool)
    ensures
        r == has_ports(edges.deep_view(), c@),
{
    let mut k: usize = 0;
    while k < edges.len()
        invariant
            k <= edges.len(),
            forall|x: int| 0 <= x < k ==> !same_ports(#[trigger] edges.deep_view()[x], c@),
        decreases edges.len() - k,
    {
        assert(edges.deep_view()[k as int] == edges@[k as int]@);
        let e = &edges[k];
        if e.source_node == c.source_node && e.source_output == c.source_output && e.target_node
            == c.target_node && e.target_input == c.target_input {
            return true;
        }
        k += 1;
    }
    false
}

fn edges_missing(these: &Vec<Connection>, others: &Vec<Connection>) -> (r: Vec<Connection>)
    ensures
        r.deep_view() == edges_only_in(these.deep_view(), others.deep_view()),
{
    let ghost views = these.deep_view();
    let ghost wanted = missing_from(others.deep_view());
    let mut out: Vec<Connection> = Vec::new();
    proof {
        views.subrange(0, 0).lemma_filter_len(wanted);
        assert(out.deep_view() =~= views.subrange(0, 0).filter(wanted));
    }
    let mut k: usize = 0;
    while k < these.len()
        invariant
            k <= these.len(),
            views == these.deep_view(),
            wanted == missing_from(others.deep_view()),
            out.deep_view() == views.subrange(0, k as int).filter(wanted),
        decreases these.len() - k,
    {
        let ghost prev = out.deep_view();
        proof {
            views.subrange(0, k as int).lemma_filter_push(views[k as int], wanted);
            assert(views.subrange(0, k + 1) =~= views.subrange(0, k as int).push(views[k as int]));
            assert(views[k as int] == these@[k as int]@);
        }
        if !ports_in(others, &these[k]) {
            out.push(these[k].clone());
            assert(out.deep_view() =~= prev.push(views[k as int]));
        }
        k += 1;
    }
    assert(views.subrange(0, k as int) =~= views);
    out
}

/// `d` is the report on the snapshots `old` and `new`.
pub open spec fn is_diff_of(d: WorkflowDiff, old: TypedWorkflow, new: TypedWorkflow) -> bool {
    &&& opt_pair(d.name_changed) == name_changed_of(old.name@, new.name@)
    &&& d.active_changed == active_changed_of(old.active, new.active)
    &&& d.nodes_added@ == nodes_only_in(new.nodes@, old.nodes@)
    &&& d.nodes_removed@ == nodes_only_in(old.nodes@, new.nodes@)
    &&& d.nodes_modified.deep_view() == nodes_modified(old.nodes@, new.nodes@)
    &&& d.connections_added.deep_view() == edges_only_in(
        index_edges(new.connections@),
        index_edges(old.connections@),
    )
    &&& d.connections_removed.deep_view() == edges_only_in(
        index_edges(old.connections@),
        index_edges(new.connections@),
    )
}

impl Default for WorkflowDiff {
    fn default() -> (r: Self)
        ensures
            r.no_difference(),
    {
        WorkflowDiff {
            name_changed: None,
            active_changed: None,
            nodes_added: Vec::new(),
            nodes_removed: Vec::new(),
            nodes_modified: Vec::new(),
            connections_added: Vec::new(),
            connections_removed: Vec::new(),
        }
    }
}

impl WorkflowDiff {
    /// Nothing is reported: no field changed and every list is empty.
    pub open spec fn no_difference(&self) -> bool {
        &&& self.name_changed is None
        &&& self.active_changed is None
        &&& self.nodes_added@.len() == 0
        &&& self.nodes_removed@.len() == 0
        &&& self.nodes_modified@.len() == 0
        &&& self.connections_added@.len() == 0
        &&& self.connections_removed@.len() == 0
    }

    /// Compares two snapshots of a workflow. Nodes are matched by
    /// identifier, connections by the ports they join.
    pub fn compare(old: &TypedWorkflow, new: &TypedWorkflow) -> (r: Self)
        ensures
            is_diff_of(r, *old, *new),
    {
        let name_changed = if old.name != new.name {
            Some((old.name.clone(), new.name.clone()))
        } else {
            None
        };
        let active_changed = if old.active != new.active {
            Some((old.active, new.active))
        } else {
            None
        };
        let old_edges = old.connections_flat();
        let new_edges = new.connections_flat();
        WorkflowDiff {
            name_changed,
            active_changed,
            nodes_added: only_in(&new.nodes, &old.nodes),
            nodes_removed: only_in(&old.nodes, &new.nodes),
            nodes_modified: modified(&old.nodes, &new.nodes),
            connections_added: edges_missing(&new_edges, &old_edges),
            connections_removed: edges_missing(&old_edges, &new_edges),
        }
    }

    /// Whether the two snapshots were found alike.
    pub fn is_empty(&self) -> (r: bool)
        ensures
            r == self.no_difference(),
    {
        self.name_changed.is_none() && self.active_changed.is_none() && self.nodes_added.len() == 0
            && self.nodes_removed.len() == 0 && self.nodes_modified.len() == 0
            && self.connections_added.len() == 0 && self.connections_removed.len() == 0
    }
}

} // verus!
