//! What holds of the connection index as a whole: how the flat list of
//! edges changes when the index is edited.

use crate::gather::{
    lemma_filter_agree, lemma_filter_all, lemma_filter_none, lemma_filter_twice,
    lemma_flatten_agree, lemma_flatten_contains, lemma_flatten_filter, lemma_flatten_insert,
    lemma_flatten_map, lemma_flatten_pad, lemma_flatten_skip, lemma_flatten_step,
};
use crate::models::connection::{ConnectionView, EndpointView};
use crate::models::index_model::{
    edge_of, endpoint_of, has_port, has_source, index_connects, index_disconnected, index_edges,
    index_of, index_rekeyed, index_renamed, index_wf, index_with, index_without_node, keeps,
    lemma_index_edges_step, lemma_index_with_wf, lemma_port_edges_step, lemma_source_at,
    lemma_source_edges_step, lemma_without_source_wf, padded, port_at, port_edges, ports_reach,
    ports_with, renamed, slot_edges, slots_reach, slots_with, source_at, source_edges,
    source_without, without_source, PortView, SourceView,
};
use vstd::prelude::*;

verus! {

/// Inserting an endpoint into the fan-out lists of a port type adds its
/// edge to the edges of that port type, and no other.
pub proof fn lemma_slots_with_edges(
    source: Seq<char>,
    port_type: Seq<char>,
    slots: Seq<Seq<EndpointView>>,
    output: int,
    e: EndpointView,
)
    requires
        0 <= output,
    ensures
        port_edges(
            source,
            PortView { port_type, slots: slots_with(slots, output, e) },
        ).to_multiset() == port_edges(source, PortView { port_type, slots }).to_multiset().insert(
            edge_of(source, port_type, output, e),
        ),
{
    let grown = padded(slots, output);
    let p = PortView { port_type, slots };
    let pg = PortView { port_type, slots: grown };
    let q = PortView { port_type, slots: slots_with(slots, output, e) };
    let f = |k: int| slot_edges(source, p.port_type, k, p.slots[k]);
    let h = |k: int| slot_edges(source, pg.port_type, k, pg.slots[k]);
    let g = |k: int| slot_edges(source, q.port_type, k, q.slots[k]);
    let n = slots.len();
    let extra = (grown.len() - n) as nat;
    assert forall|k: int| 0 <= k < n implies #[trigger] h(k) == f(k) by {
        assert(grown[k] == slots[k]);
    }
    assert forall|k: int| n <= k < n + extra implies #[trigger] h(k) == Seq::<
        ConnectionView,
    >::empty() by {
        assert(grown[k] =~= Seq::<EndpointView>::empty());
        assert(h(k) =~= Seq::<ConnectionView>::empty());
    }
    lemma_flatten_pad(n, extra, h);
    lemma_flatten_agree(n, h, f);
    assert(port_edges(source, pg) == port_edges(source, p));
    let x = edge_of(source, port_type, output, e);
    assert forall|k: int| 0 <= k < grown.len() && k != output implies #[trigger] h(k) == g(k) by {
        assert(q.slots[k] == grown[k]);
    }
    assert(g(output) =~= h(output).push(x));
    vstd::seq_lib::to_multiset_build(h(output), x);
    lemma_flatten_insert(grown.len(), h, g, output, x);
    assert(q.slots.len() == grown.len());
}

/// Inserting an endpoint under a source adds its edge to the edges of that
/// source, and no other.
pub proof fn lemma_ports_with_edges(
    source: Seq<char>,
    ports: Seq<PortView>,
    port_type: Seq<char>,
    output: int,
    e: EndpointView,
)
    requires
        0 <= output,
    ensures
        source_edges(
            SourceView { source, ports: ports_with(ports, port_type, output, e) },
        ).to_multiset() == source_edges(SourceView { source, ports }).to_multiset().insert(
            edge_of(source, port_type, output, e),
        ),
{
    let s = SourceView { source, ports };
    let s2 = SourceView { source, ports: ports_with(ports, port_type, output, e) };
    let f = |j: int| port_edges(s.source, s.ports[j]);
    let g = |j: int| port_edges(s2.source, s2.ports[j]);
    let x = edge_of(source, port_type, output, e);
    let n = ports.len();
    if has_port(ports, port_type) {
        let at = port_at(ports, port_type);
        lemma_slots_with_edges(source, port_type, ports[at].slots, output, e);
        assert(ports[at] == PortView { port_type, slots: ports[at].slots });
        assert forall|j: int| 0 <= j < n && j != at implies #[trigger] f(j) == g(j) by {
            assert(s2.ports[j] == ports[j]);
        }
        lemma_flatten_insert(n, f, g, at, x);
    } else {
        let fresh = PortView { port_type, slots: Seq::<Seq<EndpointView>>::empty() };
        lemma_slots_with_edges(source, port_type, Seq::empty(), output, e);
        lemma_port_edges_step(source, fresh, 0);
        assert(port_edges(source, fresh) == Seq::<ConnectionView>::empty());
        lemma_flatten_step(n, g);
        assert forall|j: int| 0 <= j < n implies #[trigger] f(j) == g(j) by {
            assert(s2.ports[j] == ports[j]);
        }
        lemma_flatten_agree(n, f, g);
        let fa = Seq::new(n, f).flatten();
        vstd::seq_lib::lemma_multiset_commutative(fa, g(n as int));
        assert(fa.to_multiset().add(Seq::<ConnectionView>::empty().to_multiset().insert(x))
            =~= fa.to_multiset().insert(x)) by {
            broadcast use vstd::seq_lib::group_to_multiset_ensures;
        }
    }
}

/// Inserting an edge adds that edge to the edges of the index, and no other.
pub proof fn lemma_index_with_edges(m: Seq<SourceView>, c: ConnectionView)
    ensures
        index_edges(index_with(m, c)).to_multiset() == index_edges(m).to_multiset().insert(c),
{
    let m2 = index_with(m, c);
    let f = |i: int| source_edges(m[i]);
    let g = |i: int| source_edges(m2[i]);
    let out = c.source_output as int;
    let e = endpoint_of(c);
    let n = m.len();
    assert(edge_of(c.source_node, c.source_type, out, e) == c);
    if has_source(m, c.source_node) {
        let at = source_at(m, c.source_node);
        lemma_ports_with_edges(c.source_node, m[at].ports, c.source_type, out, e);
        assert(m[at] == SourceView { source: c.source_node, ports: m[at].ports });
        assert forall|i: int| 0 <= i < n && i != at implies #[trigger] f(i) == g(i) by {
            assert(m2[i] == m[i]);
        }
        lemma_flatten_insert(n, f, g, at, c);
    } else {
        let fresh = SourceView { source: c.source_node, ports: Seq::<PortView>::empty() };
        lemma_ports_with_edges(c.source_node, Seq::empty(), c.source_type, out, e);
        lemma_source_edges_step(fresh, 0);
        assert(source_edges(fresh) == Seq::<ConnectionView>::empty());
        lemma_flatten_step(n, g);
        assert forall|i: int| 0 <= i < n implies #[trigger] f(i) == g(i) by {
            assert(m2[i] == m[i]);
        }
        lemma_flatten_agree(n, f, g);
        let fa = Seq::new(n, f).flatten();
        vstd::seq_lib::lemma_multiset_commutative(fa, g(n as int));
        assert(fa.to_multiset().add(Seq::<ConnectionView>::empty().to_multiset().insert(c))
            =~= fa.to_multiset().insert(c)) by {
            broadcast use vstd::seq_lib::group_to_multiset_ensures;
        }
    }
}

/// An index built from a list of edges is well formed.
pub proof fn lemma_index_of_wf(edges: Seq<ConnectionView>)
    ensures
        index_wf(index_of(edges)),
    decreases edges.len(),
{
    if edges.len() > 0 {
        lemma_index_of_wf(edges.drop_last());
        lemma_index_with_wf(index_of(edges.drop_last()), edges.last());
    }
}

/// Building an index from a list of edges and flattening it again gives
/// the same edges, each as often as it was given.
pub proof fn lemma_build_flatten_roundtrip(edges: Seq<ConnectionView>)
    ensures
        index_edges(index_of(edges)).to_multiset() == edges.to_multiset(),
    decreases edges.len(),
{
    if edges.len() == 0 {
        lemma_index_edges_step(Seq::<SourceView>::empty(), 0);
        assert(edges =~= Seq::<ConnectionView>::empty());
    } else {
        lemma_build_flatten_roundtrip(edges.drop_last());
        lemma_index_with_edges(index_of(edges.drop_last()), edges.last());
        vstd::seq_lib::to_multiset_build(edges.drop_last(), edges.last());
        assert(edges.drop_last().push(edges.last()) =~= edges);
    }
}

/// `(i, j, k, l)` is the place of an endpoint in `m`: entry, port type,
/// output port, position in the fan-out list.
pub open spec fn is_place(m: Seq<SourceView>, i: int, j: int, k: int, l: int) -> bool {
    &&& 0 <= i < m.len()
    &&& 0 <= j < m[i].ports.len()
    &&& 0 <= k < m[i].ports[j].slots.len()
    &&& 0 <= l < m[i].ports[j].slots[k].len()
}

/// The edge that the endpoint at place `(i, j, k, l)` stands for.
pub open spec fn edge_at(m: Seq<SourceView>, i: int, j: int, k: int, l: int) -> ConnectionView {
    edge_of(m[i].source, m[i].ports[j].port_type, k, m[i].ports[j].slots[k][l])
}

/// The flat list holds an edge exactly when an endpoint of the index
/// stands for it.
pub proof fn lemma_index_edges_contains(m: Seq<SourceView>, c: ConnectionView)
    ensures
        index_edges(m).contains(c) <==> exists|i: int, j: int, k: int, l: int|
            is_place(m, i, j, k, l) && #[trigger] edge_at(m, i, j, k, l) == c,
{
    let f = |i: int| source_edges(m[i]);
    lemma_flatten_contains(m.len(), f, c);
    if index_edges(m).contains(c) {
        let i = choose|i: int| 0 <= i < m.len() && (#[trigger] f(i)).contains(c);
        let s = m[i];
        let g = |j: int| port_edges(s.source, s.ports[j]);
        lemma_flatten_contains(s.ports.len(), g, c);
        let j = choose|j: int| 0 <= j < s.ports.len() && (#[trigger] g(j)).contains(c);
        let p = s.ports[j];
        let h = |k: int| slot_edges(s.source, p.port_type, k, p.slots[k]);
        lemma_flatten_contains(p.slots.len(), h, c);
        let k = choose|k: int| 0 <= k < p.slots.len() && (#[trigger] h(k)).contains(c);
        let edges = h(k);
        let l = choose|l: int| 0 <= l < edges.len() && edges[l] == c;
        assert(is_place(m, i, j, k, l) && edge_at(m, i, j, k, l) == c);
    }
    if exists|i: int, j: int, k: int, l: int|
        is_place(m, i, j, k, l) && #[trigger] edge_at(m, i, j, k, l) == c {
        let (i, j, k, l) = choose|i: int, j: int, k: int, l: int|
            is_place(m, i, j, k, l) && #[trigger] edge_at(m, i, j, k, l) == c;
        let s = m[i];
        let g = |j: int| port_edges(s.source, s.ports[j]);
        let p = s.ports[j];
        let h = |k: int| slot_edges(s.source, p.port_type, k, p.slots[k]);
        assert(h(k)[l] == c);
        assert(h(k).contains(c));
        lemma_flatten_contains(p.slots.len(), h, c);
        assert(g(j).contains(c));
        lemma_flatten_contains(s.ports.len(), g, c);
        assert(f(i).contains(c));
    }
}

/// After a node was removed from the index, no edge starts at it and none
/// leads to it.
pub proof fn lemma_removed_node_has_no_edges(m: Seq<SourceView>, name: Seq<char>)
    requires
        index_wf(m),
    ensures
        forall|c: ConnectionView| #[trigger]
            index_edges(index_without_node(m, name)).contains(c) ==> c.source_node != name
                && c.target_node != name,
{
    let rest = without_source(m, name);
    let after = index_without_node(m, name);
    lemma_without_source_wf(m, name);
    assert forall|c: ConnectionView| #[trigger] index_edges(after).contains(c) implies c.source_node
        != name && c.target_node != name by {
        lemma_index_edges_contains(after, c);
        let (i, j, k, l) = choose|i: int, j: int, k: int, l: int|
            is_place(after, i, j, k, l) && #[trigger] edge_at(after, i, j, k, l) == c;
        assert(rest[i].source != name);
        let slot = rest[i].ports[j].slots[k];
        assert(after[i].ports[j].slots[k] == slot.filter(keeps(name)));
        slot.lemma_filter_pred(keeps(name), l);
    }
}

/// The edge `c` with both ends following the rename.
pub open spec fn edge_renamed(
    c: ConnectionView,
    old_name: Seq<char>,
    new_name: Seq<char>,
) -> ConnectionView {
    ConnectionView {
        source_node: renamed(c.source_node, old_name, new_name),
        source_output: c.source_output,
        source_type: c.source_type,
        target_node: renamed(c.target_node, old_name, new_name),
        target_input: c.target_input,
        target_type: c.target_type,
    }
}

/// An endpoint stored under source `from` leads to `to` exactly when the
/// flat list holds an edge from `from` to `to`.
pub proof fn lemma_index_connects(m: Seq<SourceView>, from: Seq<char>, to: Seq<char>)
    ensures
        index_connects(m, from, to) <==> exists|c: ConnectionView| #[trigger]
            index_edges(m).contains(c) && c.source_node == from && c.target_node == to,
{
    if index_connects(m, from, to) {
        let i = choose|i: int|
            0 <= i < m.len() && (#[trigger] m[i]).source == from && ports_reach(m[i].ports, to);
        let ports = m[i].ports;
        let j = choose|j: int| 0 <= j < ports.len() && slots_reach((#[trigger] ports[j]).slots, to);
        let slots = ports[j].slots;
        let (k, l) = choose|k: int, l: int|
            0 <= k < slots.len() && 0 <= l < slots[k].len() && (#[trigger] slots[k][l]).node == to;
        let c = edge_at(m, i, j, k, l);
        assert(is_place(m, i, j, k, l));
        lemma_index_edges_contains(m, c);
        assert(index_edges(m).contains(c) && c.source_node == from && c.target_node == to);
    }
    if exists|c: ConnectionView| #[trigger]
        index_edges(m).contains(c) && c.source_node == from && c.target_node == to {
        let c = choose|c: ConnectionView| #[trigger]
            index_edges(m).contains(c) && c.source_node == from && c.target_node == to;
        lemma_index_edges_contains(m, c);
        let (i, j, k, l) = choose|i: int, j: int, k: int, l: int|
            is_place(m, i, j, k, l) && #[trigger] edge_at(m, i, j, k, l) == c;
        let slots = m[i].ports[j].slots;
        assert(slots[k][l].node == to);
        assert(slots_reach(m[i].ports[j].slots, to));
        assert(ports_reach(m[i].ports, to));
        assert(m[i].source == from);
    }
}

/// After a rename in the index, no edge names the old name, and every edge
/// that named it is there with the new name in its place.
///
/// Two cases are left out. Renaming a node to its own name changes
/// nothing. And where both names have an entry, the entry of the new name
/// gives way to the renamed one, so its connections to the old name are
/// not kept.
pub proof fn lemma_rename_moves_every_edge(
    m: Seq<SourceView>,
    old_name: Seq<char>,
    new_name: Seq<char>,
)
    requires
        index_wf(m),
        old_name != new_name,
        !(has_source(m, old_name) && index_connects(m, new_name, old_name)),
    ensures
        forall|c: ConnectionView| #[trigger]
            index_edges(index_renamed(m, old_name, new_name)).contains(c) ==> c.source_node
                != old_name && c.target_node != old_name,
        forall|c: ConnectionView|
            #[trigger] index_edges(m).contains(c) && (c.source_node == old_name || c.target_node
                == old_name) ==> index_edges(index_renamed(m, old_name, new_name)).contains(
                edge_renamed(c, old_name, new_name),
            ),
{
    let keyed = index_rekeyed(m, old_name, new_name);
    let after = index_renamed(m, old_name, new_name);
    let rest = without_source(m, new_name);
    lemma_without_source_wf(m, new_name);
    assert forall|c: ConnectionView| #[trigger] index_edges(after).contains(c) implies c.source_node
        != old_name && c.target_node != old_name by {
        lemma_index_edges_contains(after, c);
        let (i, j, k, l) = choose|i: int, j: int, k: int, l: int|
            is_place(after, i, j, k, l) && #[trigger] edge_at(after, i, j, k, l) == c;
        if has_source(m, old_name) {
            let at = source_at(rest, old_name);
            if i != at {
                if i < at {
                    assert(rest[i].source != rest[at].source);
                } else {
                    assert(rest[at].source != rest[i].source);
                }
            }
        } else {
            assert(m[i].source != old_name);
        }
    }
    assert forall|c: ConnectionView|
        #[trigger] index_edges(m).contains(c) && (c.source_node == old_name || c.target_node
            == old_name) implies index_edges(after).contains(
        edge_renamed(c, old_name, new_name),
    ) by {
        lemma_index_edges_contains(m, c);
        let (i, j, k, l) = choose|i: int, j: int, k: int, l: int|
            is_place(m, i, j, k, l) && #[trigger] edge_at(m, i, j, k, l) == c;
        let c2 = edge_renamed(c, old_name, new_name);
        if has_source(m, old_name) {
            if m[i].source == new_name {
                lemma_index_connects(m, new_name, old_name);
                assert(false);
            }
            let gone = if has_source(m, new_name) {
                source_at(m, new_name)
            } else {
                m.len() as int
            };
            let i2 = if i < gone { i } else { i - 1 };
            assert(rest[i2] == m[i]);
            let at = source_at(rest, old_name);
            lemma_source_at(rest, i2);
            assert(is_place(after, i2, j, k, l));
            assert(edge_at(after, i2, j, k, l) == c2);
            lemma_index_edges_contains(after, c2);
        } else {
            assert(m[i].source != old_name);
            assert(is_place(after, i, j, k, l));
            assert(edge_at(after, i, j, k, l) == c2);
            lemma_index_edges_contains(after, c2);
        }
    }
}

/// The connections other than those from `from` to `to`.
pub open spec fn avoids(from: Seq<char>, to: Seq<char>) -> spec_fn(ConnectionView) -> bool {
    |c: ConnectionView| !(c.source_node == from && c.target_node == to)
}

/// A fan-out list under `source` after the connections from `from` to `to`
/// were removed.
pub open spec fn slot_disconnected(
    source: Seq<char>,
    slot: Seq<EndpointView>,
    from: Seq<char>,
    to: Seq<char>,
) -> Seq<EndpointView> {
    if source == from {
        slot.filter(keeps(to))
    } else {
        slot
    }
}

proof fn lemma_slot_edges_push(
    source: Seq<char>,
    port_type: Seq<char>,
    output: int,
    slot: Seq<EndpointView>,
    e: EndpointView,
)
    ensures
        slot_edges(source, port_type, output, slot.push(e)) == slot_edges(
            source,
            port_type,
            output,
            slot,
        ).push(edge_of(source, port_type, output, e)),
{
    assert(slot_edges(source, port_type, output, slot.push(e)) =~= slot_edges(
        source,
        port_type,
        output,
        slot,
    ).push(edge_of(source, port_type, output, e)));
}

proof fn lemma_slot_disconnected_edges(
    source: Seq<char>,
    port_type: Seq<char>,
    output: int,
    slot: Seq<EndpointView>,
    from: Seq<char>,
    to: Seq<char>,
)
    ensures
        slot_edges(source, port_type, output, slot_disconnected(source, slot, from, to))
            == slot_edges(source, port_type, output, slot).filter(avoids(from, to)),
    decreases slot.len(),
{
    let edges = slot_edges(source, port_type, output, slot);
    let keep = avoids(from, to);
    if source != from {
        lemma_filter_all(edges, keep);
    } else if slot.len() == 0 {
        slot.lemma_filter_len(keeps(to));
        edges.lemma_filter_len(keep);
        assert(slot.filter(keeps(to)) =~= slot);
        assert(edges.filter(keep) =~= edges);
    } else {
        let front = slot.drop_last();
        let last = slot.last();
        assert(front.push(last) =~= slot);
        lemma_slot_disconnected_edges(source, port_type, output, front, from, to);
        front.lemma_filter_push(last, keeps(to));
        lemma_slot_edges_push(source, port_type, output, front, last);
        let front_edges = slot_edges(source, port_type, output, front);
        front_edges.lemma_filter_push(edge_of(source, port_type, output, last), keep);
        lemma_slot_edges_push(source, port_type, output, front.filter(keeps(to)), last);
    }
}

/// Removing the connections from `from` to `to` takes exactly those out
/// of the flat list and leaves the others as they stand.
pub proof fn lemma_disconnected_edges(m: Seq<SourceView>, from: Seq<char>, to: Seq<char>)
    ensures
        index_edges(index_disconnected(m, from, to)) == index_edges(m).filter(avoids(from, to)),
{
    let after = index_disconnected(m, from, to);
    let keep = avoids(from, to);
    let f = |i: int| source_edges(m[i]);
    let g = |i: int| source_edges(after[i]);
    assert forall|i: int| 0 <= i < m.len() implies #[trigger] g(i) == f(i).filter(keep) by {
        let s = m[i];
        let s2 = after[i];
        let pf = |j: int| port_edges(s.source, s.ports[j]);
        let pg = |j: int| port_edges(s2.source, s2.ports[j]);
        assert forall|j: int| 0 <= j < s.ports.len() implies #[trigger] pg(j) == pf(j).filter(
            keep,
        ) by {
            let p = s.ports[j];
            let q = s2.ports[j];
            let sf = |k: int| slot_edges(s.source, p.port_type, k, p.slots[k]);
            let sg = |k: int| slot_edges(s2.source, q.port_type, k, q.slots[k]);
            assert forall|k: int| 0 <= k < p.slots.len() implies #[trigger] sg(k) == sf(k).filter(
                keep,
            ) by {
                lemma_slot_disconnected_edges(s.source, p.port_type, k, p.slots[k], from, to);
                assert(q.slots[k] == slot_disconnected(s.source, p.slots[k], from, to));
            }
            lemma_flatten_filter(p.slots.len(), sf, sg, keep);
            assert(q.slots.len() == p.slots.len());
        }
        lemma_flatten_filter(s.ports.len(), pf, pg, keep);
        assert(s2.ports.len() == s.ports.len());
    }
    lemma_flatten_filter(m.len(), f, g, keep);
}

/// The connections that neither start at `name` nor lead to it.
pub open spec fn apart_from(name: Seq<char>) -> spec_fn(ConnectionView) -> bool {
    |c: ConnectionView| c.source_node != name && c.target_node != name
}

/// The connections that do not start at `name`.
pub open spec fn not_from(name: Seq<char>) -> spec_fn(ConnectionView) -> bool {
    |c: ConnectionView| c.source_node != name
}

/// The connections that do not lead to `name`.
pub open spec fn not_to(name: Seq<char>) -> spec_fn(ConnectionView) -> bool {
    |c: ConnectionView| c.target_node != name
}

/// Every edge of an entry starts at the source of the entry.
pub proof fn lemma_source_edges_start(s: SourceView, c: ConnectionView)
    requires
        source_edges(s).contains(c),
    ensures
        c.source_node == s.source,
{
    let m = seq![s];
    let f = |i: int| source_edges(m[i]);
    lemma_flatten_step(0, f);
    assert(f(0) == source_edges(s));
    assert(index_edges(m) =~= source_edges(s)) by {
        lemma_index_edges_step(m, 0);
    }
    lemma_index_edges_contains(m, c);
    let (i, j, k, l) = choose|i: int, j: int, k: int, l: int|
        is_place(m, i, j, k, l) && #[trigger] edge_at(m, i, j, k, l) == c;
    assert(i == 0);
}

/// Taking the entry of `name` out of the index takes exactly the
/// connections that start at `name` out of the flat list.
pub proof fn lemma_without_source_edges(m: Seq<SourceView>, name: Seq<char>)
    requires
        index_wf(m),
    ensures
        index_edges(without_source(m, name)) == index_edges(m).filter(not_from(name)),
{
    let keep = not_from(name);
    let rest = without_source(m, name);
    let f = |i: int| source_edges(m[i]);
    if has_source(m, name) {
        let at = source_at(m, name);
        let cut = |i: int| if i == at { Seq::<ConnectionView>::empty() } else { source_edges(m[i]) };
        assert forall|i: int| 0 <= i < m.len() implies #[trigger] cut(i) == f(i).filter(keep) by {
            let edges = source_edges(m[i]);
            if i == at {
                assert forall|x: int| 0 <= x < edges.len() implies !keep(#[trigger] edges[x]) by {
                    assert(edges.contains(edges[x]));
                    lemma_source_edges_start(m[i], edges[x]);
                }
                lemma_filter_none(edges, keep);
            } else {
                if i < at {
                    assert(m[i].source != m[at].source);
                } else {
                    assert(m[at].source != m[i].source);
                }
                assert forall|x: int| 0 <= x < edges.len() implies keep(#[trigger] edges[x]) by {
                    assert(edges.contains(edges[x]));
                    lemma_source_edges_start(m[i], edges[x]);
                }
                lemma_filter_all(edges, keep);
            }
        }
        lemma_flatten_filter(m.len(), f, cut, keep);
        let g = |i: int| source_edges(rest[i]);
        assert forall|k: int| 0 <= k < at implies #[trigger] g(k) == cut(k) by {
            assert(rest[k] == m[k]);
        }
        assert forall|k: int| at <= k < m.len() - 1 implies #[trigger] g(k) == cut(k + 1) by {
            assert(rest[k] == m[k + 1]);
        }
        lemma_flatten_skip(m.len(), cut, g, at);
        assert(rest.len() == m.len() - 1);
    } else {
        let edges = index_edges(m);
        assert forall|x: int| 0 <= x < edges.len() implies keep(#[trigger] edges[x]) by {
            assert(edges.contains(edges[x]));
            lemma_index_edges_contains(m, edges[x]);
            let (i, j, k, l) = choose|i: int, j: int, k: int, l: int|
                is_place(m, i, j, k, l) && #[trigger] edge_at(m, i, j, k, l) == edges[x];
            assert(m[i].source != name);
        }
        lemma_filter_all(edges, keep);
    }
}

/// Taking the endpoints that lead to `name` out of every entry takes
/// exactly the connections that lead to `name` out of the flat list.
pub proof fn lemma_without_target_edges(m: Seq<SourceView>, name: Seq<char>)
    ensures
        index_edges(Seq::new(m.len(), |i: int| source_without(m[i], name))) == index_edges(
            m,
        ).filter(not_to(name)),
{
    let after = Seq::new(m.len(), |i: int| source_without(m[i], name));
    let keep = not_to(name);
    let f = |i: int| source_edges(m[i]);
    let g = |i: int| source_edges(after[i]);
    assert forall|i: int| 0 <= i < m.len() implies #[trigger] g(i) == f(i).filter(keep) by {
        let s = m[i];
        let s2 = after[i];
        let pf = |j: int| port_edges(s.source, s.ports[j]);
        let pg = |j: int| port_edges(s2.source, s2.ports[j]);
        assert forall|j: int| 0 <= j < s.ports.len() implies #[trigger] pg(j) == pf(j).filter(
            keep,
        ) by {
            let p = s.ports[j];
            let q = s2.ports[j];
            let sf = |k: int| slot_edges(s.source, p.port_type, k, p.slots[k]);
            let sg = |k: int| slot_edges(s2.source, q.port_type, k, q.slots[k]);
            assert forall|k: int| 0 <= k < p.slots.len() implies #[trigger] sg(k) == sf(k).filter(
                keep,
            ) by {
                lemma_slot_disconnected_edges(s.source, p.port_type, k, p.slots[k], s.source, name);
                assert(q.slots[k] == slot_disconnected(s.source, p.slots[k], s.source, name));
                let edges = sf(k);
                assert forall|x: int| 0 <= x < edges.len() implies avoids(s.source, name)(
                    #[trigger] edges[x],
                ) == keep(edges[x]) by {}
                lemma_filter_agree(edges, avoids(s.source, name), keep);
            }
            lemma_flatten_filter(p.slots.len(), sf, sg, keep);
            assert(q.slots.len() == p.slots.len());
        }
        lemma_flatten_filter(s.ports.len(), pf, pg, keep);
        assert(s2.ports.len() == s.ports.len());
    }
    lemma_flatten_filter(m.len(), f, g, keep);
}

/// Removing a node from the index takes exactly the connections that
/// start at it or lead to it out of the flat list, and leaves the others
/// as they stand.
pub proof fn lemma_without_node_edges(m: Seq<SourceView>, name: Seq<char>)
    requires
        index_wf(m),
    ensures
        index_edges(index_without_node(m, name)) == index_edges(m).filter(apart_from(name)),
{
    let rest = without_source(m, name);
    lemma_without_source_edges(m, name);
    lemma_without_target_edges(rest, name);
    lemma_filter_twice(index_edges(m), not_from(name), not_to(name), apart_from(name));
}

/// What a rename does to one connection.
pub open spec fn renames(old_name: Seq<char>, new_name: Seq<char>) -> spec_fn(
    ConnectionView,
) -> ConnectionView {
    |c: ConnectionView| edge_renamed(c, old_name, new_name)
}

/// The entries that a rename works on: all of them, but for the entry of
/// the new name where it has to give way to the entry of the old name.
pub open spec fn rename_base(
    m: Seq<SourceView>,
    old_name: Seq<char>,
    new_name: Seq<char>,
) -> Seq<SourceView> {
    if has_source(m, old_name) && old_name != new_name {
        without_source(m, new_name)
    } else {
        m
    }
}

/// A rename changes the flat list connection by connection: each one
/// stays where it is, with the new name wherever it had the old one.
/// Only the connections that started at the new name are gone, where the
/// old name had an entry to take their place.
pub proof fn lemma_renamed_edges(m: Seq<SourceView>, old_name: Seq<char>, new_name: Seq<char>)
    requires
        index_wf(m),
    ensures
        index_edges(index_renamed(m, old_name, new_name)) == index_edges(
            rename_base(m, old_name, new_name),
        ).map_values(renames(old_name, new_name)),
        index_edges(rename_base(m, old_name, new_name)) == if has_source(m, old_name) && old_name
            != new_name {
            index_edges(m).filter(not_from(new_name))
        } else {
            index_edges(m)
        },
{
    let base = rename_base(m, old_name, new_name);
    let keyed = index_rekeyed(m, old_name, new_name);
    let after = index_renamed(m, old_name, new_name);
    let change = renames(old_name, new_name);
    lemma_without_source_wf(m, new_name);
    lemma_without_source_edges(m, new_name);
    assert(after.len() == base.len());
    assert forall|i: int| 0 <= i < base.len() implies (#[trigger] keyed[i]).source == renamed(
        base[i].source,
        old_name,
        new_name,
    ) && keyed[i].ports == base[i].ports by {
        if has_source(m, old_name) && old_name != new_name {
            let at = source_at(base, old_name);
            assert(has_source(base, old_name));
            if i != at {
                if i < at {
                    assert(base[i].source != base[at].source);
                } else {
                    assert(base[at].source != base[i].source);
                }
            }
        } else if !has_source(m, old_name) {
            assert(m[i].source != old_name);
        }
    }
    let f = |i: int| source_edges(base[i]);
    let g = |i: int| source_edges(after[i]);
    assert forall|i: int| 0 <= i < base.len() implies #[trigger] g(i) == f(i).map_values(
        change,
    ) by {
        let s = base[i];
        let s2 = after[i];
        assert(s2.source == keyed[i].source);
        let pf = |j: int| port_edges(s.source, s.ports[j]);
        let pg = |j: int| port_edges(s2.source, s2.ports[j]);
        assert forall|j: int| 0 <= j < s.ports.len() implies #[trigger] pg(j) == pf(j).map_values(
            change,
        ) by {
            let p = s.ports[j];
            let q = s2.ports[j];
            let sf = |k: int| slot_edges(s.source, p.port_type, k, p.slots[k]);
            let sg = |k: int| slot_edges(s2.source, q.port_type, k, q.slots[k]);
            assert forall|k: int| 0 <= k < p.slots.len() implies #[trigger] sg(k) == sf(
                k,
            ).map_values(change) by {
                assert(sg(k) =~= sf(k).map_values(change));
            }
            lemma_flatten_map(p.slots.len(), sf, sg, change);
            assert(q.slots.len() == p.slots.len());
        }
        lemma_flatten_map(s.ports.len(), pf, pg, change);
        assert(s2.ports.len() == s.ports.len());
    }
    lemma_flatten_map(base.len(), f, g, change);
}

} // verus!
