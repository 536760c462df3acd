//! A comparison of two workflows as text for a reader.

use crate::diff::{NodeChange, NodeChangeView, NodeDiff, NodeDiffView, WorkflowDiff};
use crate::gather::{gather, lemma_flatten_step};
use crate::models::connection::{Connection, ConnectionView};
use crate::models::node::Node;
use crate::text::{bool_text, decimal, push_bool, push_decimal, push_signed, signed_decimal};
use vstd::prelude::*;
use vstd::string::*;

verus! {

/// The line for a changed workflow name.
pub open spec fn name_line(change: Option<(String, String)>) -> Seq<char> {
    match change {
        Some((old, new)) => "  Name: \""@ + old@ + "\" -> \""@ + new@ + "\"\n"@,
        None => Seq::empty(),
    }
}

/// The line for a changed active flag.
pub open spec fn active_line(change: Option<(bool, bool)>) -> Seq<char> {
    match change {
        Some((old, new)) => "  Active: "@ + bool_text(old) + " -> "@ + bool_text(new) + "\n"@,
        None => Seq::empty(),
    }
}

/// The heading of a section: a mark, what happened, and to how many.
pub open spec fn heading(mark: Seq<char>, verb: Seq<char>, count: nat, what: Seq<char>) -> Seq<
    char,
> {
    "\n"@ + mark + " "@ + verb + " "@ + decimal(count) + " "@ + what + "(s):\n"@
}

/// A section is left out where it has nothing to list.
pub open spec fn section(
    mark: Seq<char>,
    verb: Seq<char>,
    count: nat,
    what: Seq<char>,
    lines: Seq<char>,
) -> Seq<char> {
    if count == 0 {
        Seq::empty()
    } else {
        heading(mark, verb, count, what) + lines
    }
}

/// The line of an added or removed node: its name, and its type in
/// brackets.
pub open spec fn node_line(mark: Seq<char>, node: Node) -> Seq<char> {
    "  "@ + mark + " "@ + node.name@ + " ("@ + node.node_type@ + ")\n"@
}

/// The line of the node at each position.
pub open spec fn node_line_rule(mark: Seq<char>, nodes: Seq<Node>) -> spec_fn(int) -> Seq<char> {
    |i: int| node_line(mark, nodes[i])
}

/// The line of an added or removed connection: its two ends.
pub open spec fn edge_line(mark: Seq<char>, c: ConnectionView) -> Seq<char> {
    "  "@ + mark + " "@ + c.source_node + " -> "@ + c.target_node + "\n"@
}

/// The line of the connection at each position.
pub open spec fn edge_line_rule(mark: Seq<char>, edges: Seq<ConnectionView>) -> spec_fn(int) -> Seq<
    char,
> {
    |i: int| edge_line(mark, edges[i])
}

/// A position as `(x,y)`.
pub open spec fn position_text(p: (i32, i32)) -> Seq<char> {
    "("@ + signed_decimal(p.0 as int) + ","@ + signed_decimal(p.1 as int) + ")"@
}

/// The line of one change in the summary. Of changed parameters it says
/// only that they changed.
pub open spec fn change_line(c: NodeChangeView) -> Seq<char> {
    match c {
        NodeChangeView::NameChanged(old, new) => "    name: \""@ + old + "\" -> \""@ + new
            + "\"\n"@,
        NodeChangeView::TypeChanged(old, new) => "    type: "@ + old + " -> "@ + new + "\n"@,
        NodeChangeView::PositionChanged(old, new) => "    position: "@ + position_text(old)
            + " -> "@ + position_text(new) + "\n"@,
        NodeChangeView::DisabledChanged(old, new) => "    disabled: "@ + bool_text(old) + " -> "@
            + bool_text(new) + "\n"@,
        NodeChangeView::ParametersChanged(_) => "    parameters: (modified)\n"@,
    }
}

/// The line of the change at each position.
pub open spec fn change_line_rule(changes: Seq<NodeChangeView>) -> spec_fn(int) -> Seq<char> {
    |i: int| change_line(changes[i])
}

/// The lines of one modified node: its name, then its changes.
pub open spec fn modified_lines(d: NodeDiffView) -> Seq<char> {
    "  ~ "@ + d.node_name + "\n"@ + gather(d.changes.len() as int, change_line_rule(d.changes))
}

/// The lines of the modified node at each position.
pub open spec fn modified_lines_rule(diffs: Seq<NodeDiffView>) -> spec_fn(int) -> Seq<char> {
    |i: int| modified_lines(diffs[i])
}

/// The summary of a comparison: the changed fields, then the nodes added,
/// removed and modified, then the connections added and removed, each
/// section under a heading with its count.
pub open spec fn summary_of(d: WorkflowDiff) -> Seq<char> {
    if d.no_difference() {
        "No differences found.\n"@
    } else {
        name_line(d.name_changed) + active_line(d.active_changed) + section(
            "+"@,
            "Added"@,
            d.nodes_added@.len(),
            "node"@,
            gather(d.nodes_added@.len() as int, node_line_rule("+"@, d.nodes_added@)),
        ) + section(
            "-"@,
            "Removed"@,
            d.nodes_removed@.len(),
            "node"@,
            gather(d.nodes_removed@.len() as int, node_line_rule("-"@, d.nodes_removed@)),
        ) + section(
            "~"@,
            "Modified"@,
            d.nodes_modified@.len(),
            "node"@,
            gather(
                d.nodes_modified@.len() as int,
                modified_lines_rule(d.nodes_modified.deep_view()),
            ),
        ) + section(
            "+"@,
            "Added"@,
            d.connections_added@.len(),
            "connection"@,
            gather(
                d.connections_added@.len() as int,
                edge_line_rule("+"@, d.connections_added.deep_view()),
            ),
        ) + section(
            "-"@,
            "Removed"@,
            d.connections_removed@.len(),
            "connection"@,
            gather(
                d.connections_removed@.len() as int,
                edge_line_rule("-"@, d.connections_removed.deep_view()),
            ),
        )
    }
}

/// The comparison text of one change, under the name of its node; nothing
/// for a change that is not one of parameters.
pub open spec fn parameters_block(node_name: Seq<char>, c: NodeChangeView) -> Seq<char> {
    match c {
        NodeChangeView::ParametersChanged(text) => "\n--- "@ + node_name + " parameters ---\n"@
            + text + "\n"@,
        _ => Seq::empty(),
    }
}

/// The block of the change at each position.
pub open spec fn parameters_block_rule(d: NodeDiffView) -> spec_fn(int) -> Seq<char> {
    |i: int| parameters_block(d.node_name, d.changes[i])
}

/// The comparison texts of one modified node.
pub open spec fn parameters_blocks(d: NodeDiffView) -> Seq<char> {
    gather(d.changes.len() as int, parameters_block_rule(d))
}

/// The comparison texts of the modified node at each position.
pub open spec fn parameters_blocks_rule(diffs: Seq<NodeDiffView>) -> spec_fn(int) -> Seq<char> {
    |i: int| parameters_blocks(diffs[i])
}

/// The full report of a comparison: the summary, then the comparison text
/// of every change of parameters.
pub open spec fn full_report_of(d: WorkflowDiff) -> Seq<char> {
    if d.no_difference() {
        "No differences found.\n"@
    } else {
        summary_of(d) + gather(
            d.nodes_modified@.len() as int,
            parameters_blocks_rule(d.nodes_modified.deep_view()),
        )
    }
}

fn push_heading(out: &mut String, mark: &str, verb: &str, count: usize, what: &str)
    ensures
        final(out)@ == old(out)@ + heading(mark@, verb@, count as nat, what@),
{
    out.append("\n");
    out.append(mark);
    out.append(" ");
    out.append(verb);
    out.append(" ");
    push_decimal(out, count as u64);
    out.append(" ");
    out.append(what);
    out.append("(s):\n");
    assert(out@ =~= old(out)@ + heading(mark@, verb@, count as nat, what@));
}

fn push_node_section(out: &mut String, mark: &str, verb: &str, nodes: &Vec<Node>)
    ensures
        final(out)@ == old(out)@ + section(
            mark@,
            verb@,
            nodes@.len(),
            "node"@,
            gather(nodes@.len() as int, node_line_rule(mark@, nodes@)),
        ),
{
    if nodes.len() == 0 {
        assert(out@ =~= old(out)@ + Seq::<char>::empty());
        return ;
    }
    push_heading(out, mark, verb, nodes.len(), "node");
    let ghost base = out@;
    let ghost rule = node_line_rule(mark@, nodes@);
    proof {
        lemma_flatten_step(0, rule);
        assert(out@ =~= base + gather(0, rule));
    }
    let mut i: usize = 0;
    while i < nodes.len()
        invariant
            i <= nodes.len(),
            rule == node_line_rule(mark@, nodes@),
            out@ == base + gather(i as int, rule),
        decreases nodes.len() - i,
    {
        proof {
            lemma_flatten_step(i as nat, rule);
        }
        let ghost before = out@;
        out.append("  ");
        out.append(mark);
        out.append(" ");
        out.append(nodes[i].name.as_str());
        out.append(" (");
        out.append(nodes[i].node_type.as_str());
        out.append(")\n");
        assert(out@ =~= before + node_line(mark@, nodes@[i as int]));
        i += 1;
        assert(out@ =~= base + gather(i as int, rule));
    }
    assert(out@ =~= old(out)@ + (heading(mark@, verb@, nodes@.len(), "node"@) + gather(
        nodes@.len() as int,
        rule,
    )));
}

fn push_edge_section(out: &mut String, mark: &str, verb: &str, edges: &Vec<Connection>)
    ensures
        final(out)@ == old(out)@ + section(
            mark@,
            verb@,
            edges@.len(),
            "connection"@,
            gather(edges@.len() as int, edge_line_rule(mark@, edges.deep_view())),
        ),
{
    if edges.len() == 0 {
        assert(out@ =~= old(out)@ + Seq::<char>::empty());
        return ;
    }
    push_heading(out, mark, verb, edges.len(), "connection");
    let ghost base = out@;
    let ghost rule = edge_line_rule(mark@, edges.deep_view());
    proof {
        lemma_flatten_step(0, rule);
        assert(out@ =~= base + gather(0, rule));
    }
    let mut i: usize = 0;
    while i < edges.len()
        invariant
            i <= edges.len(),
            rule == edge_line_rule(mark@, edges.deep_view()),
            out@ == base + gather(i as int, rule),
        decreases edges.len() - i,
    {
        proof {
            lemma_flatten_step(i as nat, rule);
            assert(edges.deep_view()[i as int] == edges@[i as int]@);
        }
        let ghost before = out@;
        out.append("  ");
        out.append(mark);
        out.append(" ");
        out.append(edges[i].source_node.as_str());
        out.append(" -> ");
        out.append(edges[i].target_node.as_str());
        out.append("\n");
        assert(out@ =~= before + edge_line(mark@, edges@[i as int]@));
        i += 1;
        assert(out@ =~= base + gather(i as int, rule));
    }
    assert(out@ =~= old(out)@ + (heading(mark@, verb@, edges@.len(), "connection"@) + gather(
        edges@.len() as int,
        rule,
    )));
}

fn push_position(out: &mut String, p: &(i32, i32))
    ensures
        final(out)@ == old(out)@ + position_text(*p),
{
    out.append("(");
    push_signed(out, p.0);
    out.append(",");
    push_signed(out, p.1);
    out.append(")");
    assert(out@ =~= old(out)@ + position_text(*p));
}

fn push_change_line(out: &mut String, change: &NodeChange)
    ensures
        final(out)@ == old(out)@ + change_line(change@),
{
    match change {
        NodeChange::NameChanged(old_name, new_name) => {
            out.append("    name: \"");
            out.append(old_name.as_str());
            out.append("\" -> \"");
            out.append(new_name.as_str());
            out.append("\"\n");
        },
        NodeChange::TypeChanged(old_type, new_type) => {
            out.append("    type: ");
            out.append(old_type.as_str());
            out.append(" -> ");
            out.append(new_type.as_str());
            out.append("\n");
        },
        NodeChange::PositionChanged(old_position, new_position) => {
            out.append("    position: ");
            push_position(out, old_position);
            out.append(" -> ");
            push_position(out, new_position);
            out.append("\n");
        },
        NodeChange::DisabledChanged(was, is) => {
            out.append("    disabled: ");
            push_bool(out, *was);
            out.append(" -> ");
            push_bool(out, *is);
            out.append("\n");
        },
        NodeChange::ParametersChanged(_) => {
            out.append("    parameters: (modified)\n");
        },
    }
    assert(out@ =~= old(out)@ + change_line(change@));
}

fn push_modified_lines(out: &mut String, d: &NodeDiff)
    ensures
        final(out)@ == old(out)@ + modified_lines(d@),
{
    out.append("  ~ ");
    out.append(d.node_name.as_str());
    out.append("\n");
    let ghost base = out@;
    let ghost rule = change_line_rule(d@.changes);
    proof {
        lemma_flatten_step(0, rule);
        assert(out@ =~= base + gather(0, rule));
    }
    let mut i: usize = 0;
    while i < d.changes.len()
        invariant
            i <= d.changes.len(),
            rule == change_line_rule(d@.changes),
            out@ == base + gather(i as int, rule),
        decreases d.changes.len() - i,
    {
        proof {
            lemma_flatten_step(i as nat, rule);
            assert(d@.changes[i as int] == d.changes@[i as int]@);
        }
        push_change_line(out, &d.changes[i]);
        i += 1;
        assert(out@ =~= base + gather(i as int, rule));
    }
    assert(out@ =~= old(out)@ + modified_lines(d@));
}

fn push_modified_section(out: &mut String, diffs: &Vec<NodeDiff>)
    ensures
        final(out)@ == old(out)@ + section(
            "~"@,
            "Modified"@,
            diffs@.len(),
            "node"@,
            gather(diffs@.len() as int, modified_lines_rule(diffs.deep_view())),
        ),
{
    if diffs.len() == 0 {
        assert(out@ =~= old(out)@ + Seq::<char>::empty());
        return ;
    }
    push_heading(out, "~", "Modified", diffs.len(), "node");
    let ghost base = out@;
    let ghost rule = modified_lines_rule(diffs.deep_view());
    proof {
        lemma_flatten_step(0, rule);
        assert(out@ =~= base + gather(0, rule));
    }
    let mut i: usize = 0;
    while i < diffs.len()
        invariant
            i <= diffs.len(),
            rule == modified_lines_rule(diffs.deep_view()),
            out@ == base + gather(i as int, rule),
        decreases diffs.len() - i,
    {
        proof {
            lemma_flatten_step(i as nat, rule);
            assert(diffs.deep_view()[i as int] == diffs@[i as int]@);
        }
        push_modified_lines(out, &diffs[i]);
        i += 1;
        assert(out@ =~= base + gather(i as int, rule));
    }
    assert(out@ =~= old(out)@ + (heading("~"@, "Modified"@, diffs@.len(), "node"@) + gather(
        diffs@.len() as int,
        rule,
    )));
}

fn push_parameters_blocks(out: &mut String, d: &NodeDiff)
    ensures
        final(out)@ == old(out)@ + parameters_blocks(d@),
{
    let ghost base = out@;
    let ghost rule = parameters_block_rule(d@);
    proof {
        lemma_flatten_step(0, rule);
        assert(out@ =~= base + gather(0, rule));
    }
    let mut i: usize = 0;
    while i < d.changes.len()
        invariant
            i <= d.changes.len(),
            rule == parameters_block_rule(d@),
            out@ == base + gather(i as int, rule),
        decreases d.changes.len() - i,
    {
        proof {
            lemma_flatten_step(i as nat, rule);
            assert(d@.changes[i as int] == d.changes@[i as int]@);
        }
        let ghost before = out@;
        match &d.changes[i] {
            NodeChange::ParametersChanged(text) => {
                out.append("\n--- ");
                out.append(d.node_name.as_str());
                out.append(" parameters ---\n");
                out.append(text.as_str());
                out.append("\n");
            },
            _ => {},
        }
        assert(out@ =~= before + rule(i as int));
        i += 1;
    }
}

impl WorkflowDiff {
    /// The summary of the comparison, as the lines to show.
    pub fn summary_text(&self) -> (r: String)
        ensures
            r@ == summary_of(*self),
    {
        if self.is_empty() {
            return "No differences found.\n".to_owned();
        }
        let mut out = String::new();
        match &self.name_changed {
            Some((old_name, new_name)) => {
                out.append("  Name: \"");
                out.append(old_name.as_str());
                out.append("\" -> \"");
                out.append(new_name.as_str());
                out.append("\"\n");
            },
            None => {},
        }
        assert(out@ =~= name_line(self.name_changed));
        let ghost after_name = out@;
        match &self.active_changed {
            Some((was, is)) => {
                out.append("  Active: ");
                push_bool(&mut out, *was);
                out.append(" -> ");
                push_bool(&mut out, *is);
                out.append("\n");
            },
            None => {},
        }
        assert(out@ =~= after_name + active_line(self.active_changed));
        push_node_section(&mut out, "+", "Added", &self.nodes_added);
        push_node_section(&mut out, "-", "Removed", &self.nodes_removed);
        push_modified_section(&mut out, &self.nodes_modified);
        push_edge_section(&mut out, "+", "Added", &self.connections_added);
        push_edge_section(&mut out, "-", "Removed", &self.connections_removed);
        assert(out@ =~= summary_of(*self));
        out
    }

    /// The full report of the comparison: the summary and, below it, the
    /// comparison text of every change of parameters.
    pub fn full_text(&self) -> (r: String)
        ensures
            r@ == full_report_of(*self),
    {
        if self.is_empty() {
            return "No differences found.\n".to_owned();
        }
        let mut out = self.summary_text();
        let ghost base = out@;
        let ghost rule = parameters_blocks_rule(self.nodes_modified.deep_view());
        proof {
            lemma_flatten_step(0, rule);
            assert(out@ =~= base + gather(0, rule));
        }
        let mut i: usize = 0;
        while i < self.nodes_modified.len()
            invariant
                i <= self.nodes_modified.len(),
                rule == parameters_blocks_rule(self.nodes_modified.deep_view()),
                out@ == base + gather(i as int, rule),
            decreases self.nodes_modified.len() - i,
        {
            proof {
                lemma_flatten_step(i as nat, rule);
                assert(self.nodes_modified.deep_view()[i as int] == self.nodes_modified@[i as int]@);
            }
            push_parameters_blocks(&mut out, &self.nodes_modified[i]);
            i += 1;
            assert(out@ =~= base + gather(i as int, rule));
        }
        out
    }
}

} // verus!
