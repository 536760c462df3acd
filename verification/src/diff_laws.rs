//! What holds of every comparison of two snapshots.

use crate::diff::{
    edges_only_in, has_ports, is_diff_of, is_last_with_id, last_with_id, lemma_last_with_id,
    missing_from, modified_rule, node_diff_of, nodes_modified, nodes_only_in, only_in_rule,
    same_ports, NodeDiffView, WorkflowDiff,
};
use crate::gather::{gather, lemma_flatten_contains, lemma_flatten_pad, lemma_flatten_step};
use crate::models::connection::ConnectionView;
use crate::models::node::Node;
use crate::models::workflow::{has_id, TypedWorkflow};
use vstd::prelude::*;

verus! {

/// A rule that yields nothing anywhere gathers nothing.
pub proof fn lemma_gather_nothing<A>(n: nat, rule: spec_fn(int) -> Seq<A>)
    requires
        forall|k: int| 0 <= k < n ==> #[trigger] rule(k) == Seq::<A>::empty(),
    ensures
        gather(n as int, rule) == Seq::<A>::empty(),
{
    lemma_flatten_pad(0, n, rule);
    lemma_flatten_step(0, rule);
}

/// A node is the same as itself: nothing is reported of it.
pub proof fn lemma_node_diff_of_same(node: Node)
    ensures
        node_diff_of(node, node) is None,
{
}

/// No connection of a list is missing from that list.
pub proof fn lemma_edges_only_in_self(edges: Seq<ConnectionView>)
    ensures
        edges_only_in(edges, edges) == Seq::<ConnectionView>::empty(),
{
    let found = edges_only_in(edges, edges);
    if found.len() > 0 {
        edges.lemma_filter_pred(missing_from(edges), 0);
        assert(found.contains(found[0]));
        edges.lemma_filter_contains_rev(missing_from(edges), found[0]);
        let k = choose|k: int| 0 <= k < edges.len() && edges[k] == found[0];
        assert(same_ports(edges[k], found[0]));
        assert(has_ports(edges, found[0]));
    }
    assert(found =~= Seq::<ConnectionView>::empty());
}

/// Comparing a workflow with itself reports nothing.
pub proof fn lemma_diff_reflexive(g: TypedWorkflow, d: WorkflowDiff)
    requires
        is_diff_of(d, g, g),
    ensures
        d.no_difference(),
{
    let nodes = g.nodes@;
    assert forall|i: int| 0 <= i < nodes.len() implies #[trigger] only_in_rule(nodes, nodes)(i)
        == Seq::<Node>::empty() by {
        assert(has_id(nodes, nodes[i].id@));
    }
    lemma_gather_nothing(nodes.len(), only_in_rule(nodes, nodes));
    assert forall|i: int| 0 <= i < nodes.len() implies #[trigger] modified_rule(nodes, nodes)(i)
        == Seq::<NodeDiffView>::empty() by {
        if is_last_with_id(nodes, i) {
            lemma_last_with_id(nodes, i);
            lemma_node_diff_of_same(nodes[i]);
        }
    }
    lemma_gather_nothing(nodes.len(), modified_rule(nodes, nodes));
    lemma_edges_only_in_self(crate::models::index_model::index_edges(g.connections@));
    assert(d.nodes_modified.deep_view().len() == d.nodes_modified@.len());
    assert(d.connections_added.deep_view().len() == d.connections_added@.len());
    assert(d.connections_removed.deep_view().len() == d.connections_removed@.len());
}

/// Where a snapshot has an identifier, one of its nodes stands for it.
pub proof fn lemma_last_exists(nodes: Seq<Node>, id: Seq<char>)
    requires
        has_id(nodes, id),
    ensures
        is_last_with_id(nodes, last_with_id(nodes, id)),
        nodes[last_with_id(nodes, id)].id@ == id,
    decreases nodes.len(),
{
    let n = nodes.len() as int;
    let w = choose|i: int| 0 <= i < nodes.len() && (#[trigger] nodes[i]).id@ == id;
    if nodes[n - 1].id@ == id {
        assert(is_last_with_id(nodes, n - 1) && nodes[n - 1].id@ == id);
    } else {
        let front = nodes.drop_last();
        assert(front[w].id@ == id);
        lemma_last_exists(front, id);
        let i = last_with_id(front, id);
        assert forall|j: int| i < j < nodes.len() implies (#[trigger] nodes[j]).id@
            != nodes[i].id@ by {
            if j < n - 1 {
                assert(front[j].id@ != front[i].id@);
            }
        }
        assert(is_last_with_id(nodes, i) && nodes[i].id@ == id);
    }
}

/// The nodes that only one snapshot has are those whose identifier the
/// other snapshot lacks: every such identifier is listed, and no other.
pub proof fn lemma_only_in_ids(these: Seq<Node>, others: Seq<Node>)
    ensures
        forall|k: int|
            0 <= k < nodes_only_in(these, others).len() ==> has_id(
                these,
                (#[trigger] nodes_only_in(these, others)[k]).id@,
            ) && !has_id(others, nodes_only_in(these, others)[k].id@),
        forall|id: Seq<char>|
            has_id(these, id) && !has_id(others, id) ==> #[trigger] has_id(
                nodes_only_in(these, others),
                id,
            ),
{
    let rule = only_in_rule(these, others);
    let found = nodes_only_in(these, others);
    assert forall|k: int| 0 <= k < found.len() implies has_id(these, (#[trigger] found[k]).id@)
        && !has_id(others, found[k].id@) by {
        lemma_flatten_contains(these.len(), rule, found[k]);
        assert(found.contains(found[k]));
        let i = choose|i: int| 0 <= i < these.len() && (#[trigger] rule(i)).contains(found[k]);
        let hit = rule(i);
        let x = choose|x: int| 0 <= x < hit.len() && hit[x] == found[k];
        assert(these[i] == found[k]);
    }
    assert forall|id: Seq<char>| has_id(these, id) && !has_id(others, id) implies #[trigger] has_id(
        found,
        id,
    ) by {
        lemma_last_exists(these, id);
        let i = last_with_id(these, id);
        assert(rule(i) == seq![these[i]]);
        assert(rule(i)[0] == these[i]);
        assert(rule(i).contains(these[i]));
        lemma_flatten_contains(these.len(), rule, these[i]);
        let k = choose|k: int| 0 <= k < found.len() && found[k] == these[i];
        assert(found[k].id@ == id);
    }
}

/// Some report in `reports` is about the node `id`.
pub open spec fn reports_on(reports: Seq<NodeDiffView>, id: Seq<char>) -> bool {
    exists|k: int| 0 <= k < reports.len() && (#[trigger] reports[k]).node_id == id
}

/// The nodes reported as modified are those that both snapshots have and
/// that differ between them.
pub proof fn lemma_modified_ids(old: Seq<Node>, new: Seq<Node>)
    ensures
        forall|k: int|
            0 <= k < nodes_modified(old, new).len() ==> has_id(
                old,
                (#[trigger] nodes_modified(old, new)[k]).node_id,
            ) && has_id(new, nodes_modified(old, new)[k].node_id),
        forall|id: Seq<char>|
            has_id(old, id) && has_id(new, id) ==> (#[trigger] reports_on(
                nodes_modified(old, new),
                id,
            ) <==> node_diff_of(old[last_with_id(old, id)], new[last_with_id(new, id)]) is Some),
{
    let rule = modified_rule(old, new);
    let found = nodes_modified(old, new);
    assert forall|k: int| 0 <= k < found.len() implies has_id(old, (#[trigger] found[k]).node_id)
        && has_id(new, found[k].node_id) by {
        lemma_flatten_contains(old.len(), rule, found[k]);
        assert(found.contains(found[k]));
        let i = choose|i: int| 0 <= i < old.len() && (#[trigger] rule(i)).contains(found[k]);
        let hit = rule(i);
        let x = choose|x: int| 0 <= x < hit.len() && hit[x] == found[k];
        assert(found[k].node_id == old[i].id@);
    }
    assert forall|id: Seq<char>| has_id(old, id) && has_id(new, id) implies (#[trigger] reports_on(
        found,
        id,
    ) <==> node_diff_of(old[last_with_id(old, id)], new[last_with_id(new, id)]) is Some) by {
        lemma_last_exists(old, id);
        let i = last_with_id(old, id);
        let pair = node_diff_of(old[i], new[last_with_id(new, id)]);
        if pair is Some {
            let d = pair->0;
            assert(rule(i) == seq![d]);
            assert(rule(i)[0] == d);
            assert(rule(i).contains(d));
            lemma_flatten_contains(old.len(), rule, d);
            let k = choose|k: int| 0 <= k < found.len() && found[k] == d;
            assert(found[k].node_id == id);
        }
        if reports_on(found, id) {
            let k = choose|k: int| 0 <= k < found.len() && (#[trigger] found[k]).node_id == id;
            lemma_flatten_contains(old.len(), rule, found[k]);
            assert(found.contains(found[k]));
            let i2 = choose|i2: int| 0 <= i2 < old.len() && (#[trigger] rule(i2)).contains(found[k]);
            let hit = rule(i2);
            let x = choose|x: int| 0 <= x < hit.len() && hit[x] == found[k];
            assert(old[i2].id@ == id);
            lemma_last_with_id(old, i2);
            assert(i2 == i);
        }
    }
}

/// How a comparison sorts the identifiers of two snapshots. The added
/// nodes are those only the new snapshot has, the removed ones those only
/// the old snapshot has; the modified ones are in both, so no identifier
/// is listed as modified and as added or removed. Of the identifiers in
/// both, those whose nodes differ are listed as modified, and the others
/// nowhere.
pub proof fn lemma_diff_sorts_ids(old: TypedWorkflow, new: TypedWorkflow, d: WorkflowDiff)
    requires
        is_diff_of(d, old, new),
    ensures
        forall|id: Seq<char>| #[trigger]
            has_id(d.nodes_added@, id) <==> has_id(new.nodes@, id) && !has_id(old.nodes@, id),
        forall|id: Seq<char>| #[trigger]
            has_id(d.nodes_removed@, id) <==> has_id(old.nodes@, id) && !has_id(new.nodes@, id),
        forall|id: Seq<char>| #[trigger]
            reports_on(d.nodes_modified.deep_view(), id) ==> has_id(old.nodes@, id) && has_id(
                new.nodes@,
                id,
            ) && !has_id(d.nodes_added@, id) && !has_id(d.nodes_removed@, id),
        forall|id: Seq<char>|
            has_id(old.nodes@, id) && has_id(new.nodes@, id) ==> (#[trigger] reports_on(
                d.nodes_modified.deep_view(),
                id,
            ) <==> node_diff_of(
                old.nodes@[last_with_id(old.nodes@, id)],
                new.nodes@[last_with_id(new.nodes@, id)],
            ) is Some),
{
    let a = old.nodes@;
    let b = new.nodes@;
    lemma_only_in_ids(b, a);
    lemma_only_in_ids(a, b);
    lemma_modified_ids(a, b);
    assert forall|id: Seq<char>| #[trigger] has_id(d.nodes_added@, id) implies has_id(b, id)
        && !has_id(a, id) by {
        let k = choose|k: int| 0 <= k < d.nodes_added@.len() && (#[trigger] d.nodes_added@[k]).id@
            == id;
        assert(has_id(b, nodes_only_in(b, a)[k].id@));
    }
    assert forall|id: Seq<char>| #[trigger] has_id(d.nodes_removed@, id) implies has_id(a, id)
        && !has_id(b, id) by {
        let k = choose|k: int|
            0 <= k < d.nodes_removed@.len() && (#[trigger] d.nodes_removed@[k]).id@ == id;
        assert(has_id(a, nodes_only_in(a, b)[k].id@));
    }
    assert forall|id: Seq<char>| #[trigger]
        reports_on(d.nodes_modified.deep_view(), id) implies has_id(a, id) && has_id(b, id) by {
        let found = nodes_modified(a, b);
        let k = choose|k: int| 0 <= k < found.len() && (#[trigger] found[k]).node_id == id;
        assert(has_id(a, found[k].node_id));
    }
}

} // verus!
