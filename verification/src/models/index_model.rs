//! The model of the connection index: what it holds, which edges it stands
//! for, and what each edit makes of it.

use crate::gather::lemma_flatten_step;
use crate::models::connection::{ConnectionView, EndpointView};
use vstd::prelude::*;

verus! {

/// The fan-out lists of one port type, with texts as sequences of
/// characters.
pub struct PortView {
    pub port_type: Seq<char>,
    pub slots: Seq<Seq<EndpointView>>,
}

/// One entry of the index: a source name with its port types.
pub struct SourceView {
    pub source: Seq<char>,
    pub ports: Seq<PortView>,
}

/// Most fan-out lists one port type can hold: one per `u32` port number.
pub open spec fn max_slots() -> int {
    0x1_0000_0000
}

/// No port type has two entries, and no entry has more fan-out lists
/// than there are port numbers.
pub open spec fn ports_wf(ports: Seq<PortView>) -> bool {
    &&& forall|i: int, j: int|
        0 <= i < j < ports.len() ==> (#[trigger] ports[i]).port_type != (#[trigger] ports[j]).port_type
    &&& forall|i: int| 0 <= i < ports.len() ==> (#[trigger] ports[i]).slots.len() <= max_slots()
}

/// A well-formed index is a mapping: no source name has two entries, no port
/// type has two entries under one source, and every fan-out position is a
/// `u32` port number.
pub open spec fn index_wf(m: Seq<SourceView>) -> bool {
    &&& forall|i: int, j: int|
        0 <= i < j < m.len() ==> (#[trigger] m[i]).source != (#[trigger] m[j]).source
    &&& forall|i: int| 0 <= i < m.len() ==> ports_wf((#[trigger] m[i]).ports)
}

/// The edge that endpoint `e` stands for at output `output` of `source`.
pub open spec fn edge_of(
    source: Seq<char>,
    port_type: Seq<char>,
    output: int,
    e: EndpointView,
) -> ConnectionView {
    ConnectionView {
        source_node: source,
        source_output: output as u32,
        source_type: port_type,
        target_node: e.node,
        target_input: e.index,
        target_type: e.connection_type,
    }
}

/// The endpoint under which edge `c` is stored.
pub open spec fn endpoint_of(c: ConnectionView) -> EndpointView {
    EndpointView { node: c.target_node, connection_type: c.target_type, index: c.target_input }
}

/// The edges of one fan-out list, in its order.
pub open spec fn slot_edges(
    source: Seq<char>,
    port_type: Seq<char>,
    output: int,
    slot: Seq<EndpointView>,
) -> Seq<ConnectionView> {
    Seq::new(slot.len(), |l: int| edge_of(source, port_type, output, slot[l]))
}

/// The edges of the first `n` fan-out lists of `port`.
pub open spec fn port_edges_upto(source: Seq<char>, port: PortView, n: int) -> Seq<ConnectionView> {
    Seq::new(n as nat, |k: int| slot_edges(source, port.port_type, k, port.slots[k])).flatten()
}

/// The edges of one port type, output port by output port.
pub open spec fn port_edges(source: Seq<char>, port: PortView) -> Seq<ConnectionView> {
    port_edges_upto(source, port, port.slots.len() as int)
}

/// The edges of the first `n` port types of `s`.
pub open spec fn source_edges_upto(s: SourceView, n: int) -> Seq<ConnectionView> {
    Seq::new(n as nat, |j: int| port_edges(s.source, s.ports[j])).flatten()
}

/// The edges of one entry, port type by port type.
pub open spec fn source_edges(s: SourceView) -> Seq<ConnectionView> {
    source_edges_upto(s, s.ports.len() as int)
}

/// The edges of the first `n` source entries of `m`.
pub open spec fn index_edges_upto(m: Seq<SourceView>, n: int) -> Seq<ConnectionView> {
    Seq::new(n as nat, |i: int| source_edges(m[i])).flatten()
}

/// Every edge of the index, in its nested order: source entries as they
/// stand, then port types, then output ports, then each fan-out list.
pub open spec fn index_edges(m: Seq<SourceView>) -> Seq<ConnectionView> {
    index_edges_upto(m, m.len() as int)
}

/// One more fan-out list adds its edges at the end.
pub proof fn lemma_port_edges_step(source: Seq<char>, port: PortView, n: int)
    requires
        0 <= n,
    ensures
        port_edges_upto(source, port, 0) == Seq::<ConnectionView>::empty(),
        port_edges_upto(source, port, n + 1) == port_edges_upto(source, port, n) + slot_edges(
            source,
            port.port_type,
            n,
            port.slots[n],
        ),
{
    let f = |k: int| slot_edges(source, port.port_type, k, port.slots[k]);
    lemma_flatten_step(n as nat, f);
}

/// One more port type adds its edges at the end.
pub proof fn lemma_source_edges_step(s: SourceView, n: int)
    requires
        0 <= n,
    ensures
        source_edges_upto(s, 0) == Seq::<ConnectionView>::empty(),
        source_edges_upto(s, n + 1) == source_edges_upto(s, n) + port_edges(s.source, s.ports[n]),
{
    let f = |j: int| port_edges(s.source, s.ports[j]);
    lemma_flatten_step(n as nat, f);
}

/// One more entry adds its edges at the end.
pub proof fn lemma_index_edges_step(m: Seq<SourceView>, n: int)
    requires
        0 <= n,
    ensures
        index_edges_upto(m, 0) == Seq::<ConnectionView>::empty(),
        index_edges_upto(m, n + 1) == index_edges_upto(m, n) + source_edges(m[n]),
{
    let f = |i: int| source_edges(m[i]);
    lemma_flatten_step(n as nat, f);
}

/// The index has an entry for the source `name`.
pub open spec fn has_source(m: Seq<SourceView>, name: Seq<char>) -> bool {
    exists|i: int| 0 <= i < m.len() && (#[trigger] m[i]).source == name
}

/// The position of the entry for the source `name`.
pub open spec fn source_at(m: Seq<SourceView>, name: Seq<char>) -> int {
    choose|i: int| 0 <= i < m.len() && (#[trigger] m[i]).source == name
}

/// The list has an entry for the port type `port_type`.
pub open spec fn has_port(ports: Seq<PortView>, port_type: Seq<char>) -> bool {
    exists|j: int| 0 <= j < ports.len() && (#[trigger] ports[j]).port_type == port_type
}

/// The position of the entry for the port type `port_type`.
pub open spec fn port_at(ports: Seq<PortView>, port_type: Seq<char>) -> int {
    choose|j: int| 0 <= j < ports.len() && (#[trigger] ports[j]).port_type == port_type
}

/// `slots`, grown with empty fan-out lists until position `output` exists.
pub open spec fn padded(slots: Seq<Seq<EndpointView>>, output: int) -> Seq<Seq<EndpointView>> {
    if output < slots.len() {
        slots
    } else {
        slots + Seq::new((output + 1 - slots.len()) as nat, |k: int| Seq::<EndpointView>::empty())
    }
}

/// The fan-out lists with `e` appended to the list of port `output`.
pub open spec fn slots_with(
    slots: Seq<Seq<EndpointView>>,
    output: int,
    e: EndpointView,
) -> Seq<Seq<EndpointView>> {
    let grown = padded(slots, output);
    grown.update(output, grown[output].push(e))
}

/// The port entries with `e` inserted under `port_type`, whose entry is
/// appended where there is none.
pub open spec fn ports_with(
    ports: Seq<PortView>,
    port_type: Seq<char>,
    output: int,
    e: EndpointView,
) -> Seq<PortView> {
    if has_port(ports, port_type) {
        let j = port_at(ports, port_type);
        ports.update(j, PortView { port_type, slots: slots_with(ports[j].slots, output, e) })
    } else {
        ports.push(PortView { port_type, slots: slots_with(Seq::empty(), output, e) })
    }
}

/// The index after one edge was inserted: the source's entry and the port
/// type's entry are found or appended, the fan-out lists are grown until the
/// output port exists, and the endpoint goes to the end of its list.
pub open spec fn index_with(m: Seq<SourceView>, c: ConnectionView) -> Seq<SourceView> {
    if has_source(m, c.source_node) {
        let i = source_at(m, c.source_node);
        m.update(
            i,
            SourceView {
                source: c.source_node,
                ports: ports_with(m[i].ports, c.source_type, c.source_output as int, endpoint_of(c)),
            },
        )
    } else {
        m.push(
            SourceView {
                source: c.source_node,
                ports: ports_with(Seq::empty(), c.source_type, c.source_output as int, endpoint_of(c)),
            },
        )
    }
}

/// The endpoints that do not lead to `target`.
pub open spec fn keeps(target: Seq<char>) -> spec_fn(EndpointView) -> bool {
    |e: EndpointView| e.node != target
}

/// The fan-out lists without the endpoints that lead to `target`.
pub open spec fn slots_without(
    slots: Seq<Seq<EndpointView>>,
    target: Seq<char>,
) -> Seq<Seq<EndpointView>> {
    Seq::new(slots.len(), |k: int| slots[k].filter(keeps(target)))
}

/// The port entries without the endpoints that lead to `target`.
pub open spec fn ports_without(ports: Seq<PortView>, target: Seq<char>) -> Seq<PortView> {
    Seq::new(
        ports.len(),
        |j: int|
            PortView {
                port_type: ports[j].port_type,
                slots: slots_without(ports[j].slots, target),
            },
    )
}

/// The entry `s` with every endpoint that leads to `target` taken out. The
/// fan-out lists stay in place, so the remaining endpoints keep their port
/// numbers.
pub open spec fn source_without(s: SourceView, target: Seq<char>) -> SourceView {
    SourceView { source: s.source, ports: ports_without(s.ports, target) }
}

/// The index without the connections from `from` to `to`.
pub open spec fn index_disconnected(
    m: Seq<SourceView>,
    from: Seq<char>,
    to: Seq<char>,
) -> Seq<SourceView> {
    Seq::new(
        m.len(),
        |i: int|
            if m[i].source == from {
                source_without(m[i], to)
            } else {
                m[i]
            },
    )
}

/// Some endpoint of the fan-out lists leads to `target`.
pub open spec fn slots_reach(slots: Seq<Seq<EndpointView>>, target: Seq<char>) -> bool {
    exists|k: int, l: int|
        0 <= k < slots.len() && 0 <= l < slots[k].len() && (#[trigger] slots[k][l]).node == target
}

/// Some endpoint of the port entries leads to `target`.
pub open spec fn ports_reach(ports: Seq<PortView>, target: Seq<char>) -> bool {
    exists|j: int| 0 <= j < ports.len() && slots_reach((#[trigger] ports[j]).slots, target)
}

/// Some endpoint stored under source `from` leads to `to`.
pub open spec fn index_connects(m: Seq<SourceView>, from: Seq<char>, to: Seq<char>) -> bool {
    exists|i: int|
        0 <= i < m.len() && (#[trigger] m[i]).source == from && ports_reach(m[i].ports, to)
}

/// The index without the entry of source `name`.
pub open spec fn without_source(m: Seq<SourceView>, name: Seq<char>) -> Seq<SourceView> {
    if has_source(m, name) {
        m.remove(source_at(m, name))
    } else {
        m
    }
}

/// The index after node `name` left the graph: its own entry is gone, and so
/// is every endpoint that led to it.
pub open spec fn index_without_node(m: Seq<SourceView>, name: Seq<char>) -> Seq<SourceView> {
    let rest = without_source(m, name);
    Seq::new(rest.len(), |i: int| source_without(rest[i], name))
}

/// The name after a rename: the new name in place of the old one, any
/// other name unchanged.
pub open spec fn renamed(name: Seq<char>, old_name: Seq<char>, new_name: Seq<char>) -> Seq<char> {
    if name == old_name {
        new_name
    } else {
        name
    }
}

/// The endpoint with its target following the rename.
pub open spec fn endpoint_renamed(
    e: EndpointView,
    old_name: Seq<char>,
    new_name: Seq<char>,
) -> EndpointView {
    EndpointView {
        node: renamed(e.node, old_name, new_name),
        connection_type: e.connection_type,
        index: e.index,
    }
}

/// The fan-out lists with every target following the rename.
pub open spec fn slots_retargeted(
    slots: Seq<Seq<EndpointView>>,
    old_name: Seq<char>,
    new_name: Seq<char>,
) -> Seq<Seq<EndpointView>> {
    Seq::new(
        slots.len(),
        |k: int|
            Seq::new(slots[k].len(), |l: int| endpoint_renamed(slots[k][l], old_name, new_name)),
    )
}

/// The port entries with every target following the rename.
pub open spec fn ports_retargeted(
    ports: Seq<PortView>,
    old_name: Seq<char>,
    new_name: Seq<char>,
) -> Seq<PortView> {
    Seq::new(
        ports.len(),
        |j: int|
            PortView {
                port_type: ports[j].port_type,
                slots: slots_retargeted(ports[j].slots, old_name, new_name),
            },
    )
}

/// Every endpoint that led to `old_name` leads to `new_name`.
pub open spec fn index_retargeted(
    m: Seq<SourceView>,
    old_name: Seq<char>,
    new_name: Seq<char>,
) -> Seq<SourceView> {
    Seq::new(
        m.len(),
        |i: int|
            SourceView {
                source: m[i].source,
                ports: ports_retargeted(m[i].ports, old_name, new_name),
            },
    )
}

/// The entry of `old_name`, if there is one, moved to the key `new_name`.
/// An entry that `new_name` had before gives way to it.
pub open spec fn index_rekeyed(
    m: Seq<SourceView>,
    old_name: Seq<char>,
    new_name: Seq<char>,
) -> Seq<SourceView> {
    if !has_source(m, old_name) || old_name == new_name {
        m
    } else {
        let rest = without_source(m, new_name);
        let at = source_at(rest, old_name);
        rest.update(at, SourceView { source: new_name, ports: rest[at].ports })
    }
}

/// The index after node `old_name` took the name `new_name`.
pub open spec fn index_renamed(
    m: Seq<SourceView>,
    old_name: Seq<char>,
    new_name: Seq<char>,
) -> Seq<SourceView> {
    index_retargeted(index_rekeyed(m, old_name, new_name), old_name, new_name)
}

/// The index built by inserting `edges` one by one into an empty one.
pub open spec fn index_of(edges: Seq<ConnectionView>) -> Seq<SourceView>
    decreases edges.len(),
{
    if edges.len() == 0 {
        Seq::empty()
    } else {
        index_with(index_of(edges.drop_last()), edges.last())
    }
}

/// Two entries of a well-formed list with one port type are one entry.
pub proof fn lemma_port_at(ports: Seq<PortView>, j: int)
    requires
        ports_wf(ports),
        0 <= j < ports.len(),
    ensures
        has_port(ports, ports[j].port_type),
        port_at(ports, ports[j].port_type) == j,
{
    let k = port_at(ports, ports[j].port_type);
    if k < j {
        assert(ports[k].port_type != ports[j].port_type);
    } else if j < k {
        assert(ports[j].port_type != ports[k].port_type);
    }
}

/// Two entries of a well-formed index with one source name are one entry.
pub proof fn lemma_source_at(m: Seq<SourceView>, i: int)
    requires
        index_wf(m),
        0 <= i < m.len(),
    ensures
        has_source(m, m[i].source),
        source_at(m, m[i].source) == i,
{
    let k = source_at(m, m[i].source);
    if k < i {
        assert(m[k].source != m[i].source);
    } else if i < k {
        assert(m[i].source != m[k].source);
    }
}

/// Inserting an endpoint keeps a list of port entries well formed.
pub proof fn lemma_ports_with_wf(
    ports: Seq<PortView>,
    port_type: Seq<char>,
    output: int,
    e: EndpointView,
)
    requires
        ports_wf(ports),
        0 <= output < max_slots(),
    ensures
        ports_wf(ports_with(ports, port_type, output, e)),
{
    let after = ports_with(ports, port_type, output, e);
    if has_port(ports, port_type) {
        let j = port_at(ports, port_type);
        assert forall|a: int, b: int| 0 <= a < b < after.len() implies (#[trigger] after[a]).port_type
            != (#[trigger] after[b]).port_type by {
            assert(after[a].port_type == ports[a].port_type);
            assert(after[b].port_type == ports[b].port_type);
        }
        assert forall|a: int| 0 <= a < after.len() implies (#[trigger] after[a]).slots.len()
            <= max_slots() by {
            assert(ports[a].slots.len() <= max_slots());
        }
    } else {
        assert forall|a: int, b: int| 0 <= a < b < after.len() implies (#[trigger] after[a]).port_type
            != (#[trigger] after[b]).port_type by {
            if b < ports.len() {
                assert(ports[a].port_type != ports[b].port_type);
            } else {
                assert(ports[a].port_type != port_type);
            }
        }
        assert forall|a: int| 0 <= a < after.len() implies (#[trigger] after[a]).slots.len()
            <= max_slots() by {
            if a < ports.len() {
                assert(ports[a].slots.len() <= max_slots());
            }
        }
    }
}

/// Inserting an edge keeps an index well formed.
pub proof fn lemma_index_with_wf(m: Seq<SourceView>, c: ConnectionView)
    requires
        index_wf(m),
    ensures
        index_wf(index_with(m, c)),
{
    let after = index_with(m, c);
    let out = c.source_output as int;
    if has_source(m, c.source_node) {
        let i = source_at(m, c.source_node);
        lemma_ports_with_wf(m[i].ports, c.source_type, out, endpoint_of(c));
        assert forall|a: int, b: int| 0 <= a < b < after.len() implies (#[trigger] after[a]).source
            != (#[trigger] after[b]).source by {
            assert(after[a].source == m[a].source);
            assert(after[b].source == m[b].source);
        }
        assert forall|a: int| 0 <= a < after.len() implies ports_wf((#[trigger] after[a]).ports) by {
            assert(ports_wf(m[a].ports));
        }
    } else {
        lemma_ports_with_wf(Seq::empty(), c.source_type, out, endpoint_of(c));
        assert forall|a: int, b: int| 0 <= a < b < after.len() implies (#[trigger] after[a]).source
            != (#[trigger] after[b]).source by {
            if b < m.len() {
                assert(m[a].source != m[b].source);
            } else {
                assert(m[a].source != c.source_node);
            }
        }
        assert forall|a: int| 0 <= a < after.len() implies ports_wf((#[trigger] after[a]).ports) by {
            if a < m.len() {
                assert(ports_wf(m[a].ports));
            }
        }
    }
}

/// Taking endpoints out keeps a list of port entries well formed.
pub proof fn lemma_ports_without_wf(ports: Seq<PortView>, target: Seq<char>)
    requires
        ports_wf(ports),
    ensures
        ports_wf(ports_without(ports, target)),
{
    let after = ports_without(ports, target);
    assert forall|a: int, b: int| 0 <= a < b < after.len() implies (#[trigger] after[a]).port_type
        != (#[trigger] after[b]).port_type by {
        assert(ports[a].port_type != ports[b].port_type);
    }
    assert forall|a: int| 0 <= a < after.len() implies (#[trigger] after[a]).slots.len()
        <= max_slots() by {
        assert(ports[a].slots.len() <= max_slots());
    }
}

/// Disconnecting two nodes keeps an index well formed.
pub proof fn lemma_index_disconnected_wf(m: Seq<SourceView>, from: Seq<char>, to: Seq<char>)
    requires
        index_wf(m),
    ensures
        index_wf(index_disconnected(m, from, to)),
{
    let after = index_disconnected(m, from, to);
    assert forall|a: int, b: int| 0 <= a < b < after.len() implies (#[trigger] after[a]).source
        != (#[trigger] after[b]).source by {
        assert(m[a].source != m[b].source);
    }
    assert forall|a: int| 0 <= a < after.len() implies ports_wf((#[trigger] after[a]).ports) by {
        assert(ports_wf(m[a].ports));
        lemma_ports_without_wf(m[a].ports, to);
    }
}

/// Taking one entry out keeps an index well formed, and leaves no entry
/// under that name.
pub proof fn lemma_without_source_wf(m: Seq<SourceView>, name: Seq<char>)
    requires
        index_wf(m),
    ensures
        index_wf(without_source(m, name)),
        !has_source(without_source(m, name), name),
        forall|other: Seq<char>|
            other != name ==> (has_source(without_source(m, name), other) <==> has_source(m, other)),
{
    let rest = without_source(m, name);
    if has_source(m, name) {
        let at = source_at(m, name);
        assert forall|a: int| 0 <= a < rest.len() implies (#[trigger] rest[a]) == m[if a < at {
            a
        } else {
            a + 1
        }] by {}
        assert forall|a: int, b: int| 0 <= a < b < rest.len() implies (#[trigger] rest[a]).source
            != (#[trigger] rest[b]).source by {
            let a2 = if a < at { a } else { a + 1 };
            let b2 = if b < at { b } else { b + 1 };
            assert(m[a2].source != m[b2].source);
        }
        assert forall|a: int| 0 <= a < rest.len() implies ports_wf((#[trigger] rest[a]).ports) by {
            let a2 = if a < at { a } else { a + 1 };
            assert(ports_wf(m[a2].ports));
        }
        if has_source(rest, name) {
            let a = source_at(rest, name);
            let a2 = if a < at { a } else { a + 1 };
            if a2 < at {
                assert(m[a2].source != m[at].source);
            } else {
                assert(m[at].source != m[a2].source);
            }
        }
        assert forall|other: Seq<char>| other != name implies (has_source(rest, other)
            <==> has_source(m, other)) by {
            if has_source(rest, other) {
                let a = source_at(rest, other);
                let a2 = if a < at { a } else { a + 1 };
                assert(m[a2].source == other);
            }
            if has_source(m, other) {
                let b = source_at(m, other);
                let b2 = if b < at { b } else { b - 1 };
                assert(rest[b2].source == other);
            }
        }
    }
}

/// Removing a node's connections keeps an index well formed.
pub proof fn lemma_index_without_node_wf(m: Seq<SourceView>, name: Seq<char>)
    requires
        index_wf(m),
    ensures
        index_wf(index_without_node(m, name)),
{
    lemma_without_source_wf(m, name);
    let rest = without_source(m, name);
    let after = index_without_node(m, name);
    assert forall|a: int, b: int| 0 <= a < b < after.len() implies (#[trigger] after[a]).source
        != (#[trigger] after[b]).source by {
        assert(rest[a].source != rest[b].source);
    }
    assert forall|a: int| 0 <= a < after.len() implies ports_wf((#[trigger] after[a]).ports) by {
        assert(ports_wf(rest[a].ports));
        lemma_ports_without_wf(rest[a].ports, name);
    }
}

/// Renaming a node keeps an index well formed.
pub proof fn lemma_index_renamed_wf(m: Seq<SourceView>, old_name: Seq<char>, new_name: Seq<char>)
    requires
        index_wf(m),
    ensures
        index_wf(index_rekeyed(m, old_name, new_name)),
        index_wf(index_renamed(m, old_name, new_name)),
{
    let keyed = index_rekeyed(m, old_name, new_name);
    if has_source(m, old_name) && old_name != new_name {
        lemma_without_source_wf(m, new_name);
        let rest = without_source(m, new_name);
        let at = source_at(rest, old_name);
        assert(has_source(rest, old_name));
        assert forall|a: int, b: int| 0 <= a < b < keyed.len() implies (#[trigger] keyed[a]).source
            != (#[trigger] keyed[b]).source by {
            assert(rest[a].source != rest[b].source);
            if a == at {
                assert(rest[b].source != new_name);
            }
            if b == at {
                assert(rest[a].source != new_name);
            }
        }
        assert forall|a: int| 0 <= a < keyed.len() implies ports_wf((#[trigger] keyed[a]).ports) by {
            assert(ports_wf(rest[a].ports));
        }
    }
    let after = index_renamed(m, old_name, new_name);
    assert forall|a: int, b: int| 0 <= a < b < after.len() implies (#[trigger] after[a]).source
        != (#[trigger] after[b]).source by {
        assert(keyed[a].source != keyed[b].source);
    }
    assert forall|a: int| 0 <= a < after.len() implies ports_wf((#[trigger] after[a]).ports) by {
        let ports = keyed[a].ports;
        let ports2 = after[a].ports;
        assert(ports_wf(ports));
        assert forall|x: int, y: int| 0 <= x < y < ports2.len() implies (#[trigger] ports2[x]).port_type
            != (#[trigger] ports2[y]).port_type by {
            assert(ports[x].port_type != ports[y].port_type);
        }
        assert forall|x: int| 0 <= x < ports2.len() implies (#[trigger] ports2[x]).slots.len()
            <= max_slots() by {
            assert(ports[x].slots.len() <= max_slots());
        }
    }
}

} // verus!
