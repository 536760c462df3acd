//! The connection index: edges nested by source node name, then by port
//! type, then by output port number.

use crate::models::connection::{Connection, ConnectionEndpoint, EndpointView};
use crate::models::index_laws::{
    apart_from, avoids, lemma_disconnected_edges, lemma_renamed_edges, lemma_without_node_edges,
    not_from, renames,
};
use crate::models::index_model::{
    endpoint_renamed, has_port, has_source, index_connects, index_disconnected, index_edges,
    index_edges_upto, index_rekeyed, index_renamed, index_retargeted, index_wf, index_with,
    index_without_node, keeps, lemma_index_disconnected_wf, lemma_index_edges_step,
    lemma_index_renamed_wf, lemma_index_with_wf, lemma_index_without_node_wf, lemma_port_at,
    lemma_port_edges_step, lemma_source_at, lemma_source_edges_step, lemma_without_source_wf,
    max_slots, padded, port_edges, port_edges_upto, ports_reach, ports_retargeted, ports_wf,
    ports_with, ports_without, slot_edges, slots_reach, slots_retargeted, slots_with, slots_without,
    source_edges, source_edges_upto, without_source, PortView, SourceView,
};
use vstd::prelude::*;
use vstd::string::*;

verus! {

/// The fan-out lists of one port type of one source node; the position of a
/// list is the output port number.
#[derive(Debug)]
pub struct PortOutputs {
    pub port_type: String,
    pub slots: Vec<Vec<ConnectionEndpoint>>,
}

impl DeepView for PortOutputs {
    type V = PortView;

    open spec fn deep_view(&self) -> PortView {
        PortView { port_type: self.port_type@, slots: self.slots.deep_view() }
    }
}

impl View for PortOutputs {
    type V = PortView;

    open spec fn view(&self) -> PortView {
        self.deep_view()
    }
}

/// Everything that leaves one source node, by port type.
#[derive(Debug)]
pub struct SourceOutputs {
    pub source: String,
    pub ports: Vec<PortOutputs>,
}

impl DeepView for SourceOutputs {
    type V = SourceView;

    open spec fn deep_view(&self) -> SourceView {
        SourceView { source: self.source@, ports: self.ports.deep_view() }
    }
}

impl View for SourceOutputs {
    type V = SourceView;

    open spec fn view(&self) -> SourceView {
        self.deep_view()
    }
}

/// Appends `e` to the fan-out list of port `output`, growing the lists first
/// where that port does not exist yet.
fn slots_add(slots: &mut Vec<Vec<ConnectionEndpoint>>, output: u32, e: ConnectionEndpoint)
    requires
        old(slots).len() <= max_slots(),
    ensures
        final(slots).deep_view() == slots_with(old(slots).deep_view(), output as int, e@),
        final(slots).len() <= max_slots(),
{
    let at: usize = output as usize;
    let ghost before = slots.deep_view();
    while slots.len() <= at
        invariant
            at == output,
            before == old(slots).deep_view(),
            before.len() <= slots.len(),
            slots.len() <= max_slots(),
            slots.len() <= at + 1 || slots.len() == before.len(),
            slots.deep_view() == before + Seq::new(
                (slots.len() - before.len()) as nat,
                |k: int| Seq::<EndpointView>::empty(),
            ),
        decreases at + 1 - slots.len(),
    {
        let ghost prev = slots.deep_view();
        slots.push(Vec::new());
        proof {
            let empty_slot = Seq::<EndpointView>::empty();
            assert(slots@.last().deep_view() =~= empty_slot);
            assert(slots.deep_view() =~= prev.push(empty_slot));
            assert(slots.deep_view() =~= before + Seq::new(
                (slots.len() - before.len()) as nat,
                |k: int| Seq::<EndpointView>::empty(),
            ));
        }
    }
    let ghost grown = slots.deep_view();
    assert(grown =~= padded(before, at as int));
    let ghost target = slots@[at as int].deep_view();
    slots[at].push(e);
    proof {
        assert(slots@[at as int].deep_view() =~= target.push(e@));
        assert(slots.deep_view() =~= grown.update(at as int, target.push(e@)));
    }
}

fn find_port(ports: &Vec<PortOutputs>, port_type: &String) -> (r: Option<usize>)
    ensures
        match r {
            Some(j) => j < ports.len() && ports.deep_view()[j as int].port_type == port_type@,
            None => !has_port(ports.deep_view(), port_type@),
        },
{
    let mut j: usize = 0;
    while j < ports.len()
        invariant
            j <= ports.len(),
            forall|k: int| 0 <= k < j ==> (#[trigger] ports.deep_view()[k]).port_type != port_type@,
        decreases ports.len() - j,
    {
        if ports[j].port_type == *port_type {
            return Some(j);
        }
        j += 1;
    }
    None
}

/// Inserts endpoint `e` at output `output` of port type `port_type`.
fn ports_add(ports: &mut Vec<PortOutputs>, port_type: &String, output: u32, e: ConnectionEndpoint)
    requires
        ports_wf(old(ports).deep_view()),
    ensures
        final(ports).deep_view() == ports_with(
            old(ports).deep_view(),
            port_type@,
            output as int,
            e@,
        ),
{
    let ghost before = ports.deep_view();
    match find_port(ports, port_type) {
        Some(j) => {
            proof {
                lemma_port_at(before, j as int);
            }
            slots_add(&mut ports[j].slots, output, e);
            assert(ports.deep_view() =~= before.update(
                j as int,
                PortView {
                    port_type: port_type@,
                    slots: slots_with(before[j as int].slots, output as int, e@),
                },
            ));
        },
        None => {
            let mut slots: Vec<Vec<ConnectionEndpoint>> = Vec::new();
            assert(slots.deep_view() =~= Seq::<Seq<EndpointView>>::empty());
            slots_add(&mut slots, output, e);
            ports.push(PortOutputs { port_type: port_type.clone(), slots });
            assert(ports.deep_view() =~= before.push(
                PortView {
                    port_type: port_type@,
                    slots: slots_with(Seq::empty(), output as int, e@),
                },
            ));
        },
    }
}

fn slot_flat(
    source: &String,
    port_type: &String,
    output: u32,
    slot: &Vec<ConnectionEndpoint>,
    out: &mut Vec<Connection>,
)
    ensures
        final(out).deep_view() == old(out).deep_view() + slot_edges(
            source@,
            port_type@,
            output as int,
            slot.deep_view(),
        ),
{
    let ghost before = out.deep_view();
    let ghost all = slot_edges(source@, port_type@, output as int, slot.deep_view());
    let mut l: usize = 0;
    while l < slot.len()
        invariant
            l <= slot.len(),
            all == slot_edges(source@, port_type@, output as int, slot.deep_view()),
            out.deep_view() == before + all.subrange(0, l as int),
        decreases slot.len() - l,
    {
        let ghost prev = out.deep_view();
        let target = &slot[l];
        out.push(
            Connection {
                source_node: source.clone(),
                source_output: output,
                source_type: port_type.clone(),
                target_node: target.node.clone(),
                target_input: target.index,
                target_type: target.connection_type.clone(),
            },
        );
        l += 1;
        proof {
            assert(out.deep_view() =~= prev.push(all[l - 1]));
            assert(out.deep_view() =~= before + all.subrange(0, l as int));
        }
    }
    assert(all.subrange(0, l as int) =~= all);
}

fn port_flat(source: &String, port: &PortOutputs, out: &mut Vec<Connection>)
    requires
        port.slots.len() <= max_slots(),
    ensures
        final(out).deep_view() == old(out).deep_view() + port_edges(source@, port@),
{
    let ghost before = out.deep_view();
    proof {
        lemma_port_edges_step(source@, port@, 0);
        assert(out.deep_view() =~= before + port_edges_upto(source@, port@, 0));
    }
    let mut k: usize = 0;
    while k < port.slots.len()
        invariant
            k <= port.slots.len(),
            port.slots.len() <= max_slots(),
            out.deep_view() == before + port_edges_upto(source@, port@, k as int),
        decreases port.slots.len() - k,
    {
        proof {
            lemma_port_edges_step(source@, port@, k as int);
        }
        slot_flat(source, &port.port_type, k as u32, &port.slots[k], out);
        k += 1;
        assert(out.deep_view() =~= before + port_edges_upto(source@, port@, k as int));
    }
}

fn source_flat(s: &SourceOutputs, out: &mut Vec<Connection>)
    requires
        ports_wf(s@.ports),
    ensures
        final(out).deep_view() == old(out).deep_view() + source_edges(s@),
{
    let ghost before = out.deep_view();
    proof {
        lemma_source_edges_step(s@, 0);
        assert(out.deep_view() =~= before + source_edges_upto(s@, 0));
    }
    let mut j: usize = 0;
    while j < s.ports.len()
        invariant
            j <= s.ports.len(),
            ports_wf(s@.ports),
            out.deep_view() == before + source_edges_upto(s@, j as int),
        decreases s.ports.len() - j,
    {
        proof {
            lemma_source_edges_step(s@, j as int);
            assert(s@.ports[j as int].slots.len() <= max_slots());
        }
        port_flat(&s.source, &s.ports[j], out);
        j += 1;
        assert(out.deep_view() =~= before + source_edges_upto(s@, j as int));
    }
}

/// Takes the endpoints that lead to `target` out of one fan-out list.
fn slot_remove(slot: &mut Vec<ConnectionEndpoint>, target: &String) -> (removed: bool)
    ensures
        final(slot).deep_view() == old(slot).deep_view().filter(keeps(target@)),
        removed == exists|l: int|
            0 <= l < old(slot).len() && (#[trigger] old(slot).deep_view()[l]).node == target@,
{
    let ghost before = slot.deep_view();
    let mut kept: Vec<ConnectionEndpoint> = Vec::new();
    let mut removed = false;
    let mut l: usize = 0;
    proof {
        before.subrange(0, 0).lemma_filter_len(keeps(target@));
        assert(kept.deep_view() =~= before.subrange(0, 0).filter(keeps(target@)));
    }
    while l < slot.len()
        invariant
            l <= slot.len(),
            slot.deep_view() == before,
            kept.deep_view() == before.subrange(0, l as int).filter(keeps(target@)),
            removed == exists|x: int| 0 <= x < l && (#[trigger] before[x]).node == target@,
        decreases slot.len() - l,
    {
        let ghost prev = kept.deep_view();
        assert(before[l as int] == slot@[l as int].deep_view());
        if slot[l].node == *target {
            removed = true;
        } else {
            kept.push(slot[l].clone());
            assert(kept.deep_view() =~= prev.push(before[l as int]));
        }
        proof {
            before.subrange(0, l as int).lemma_filter_push(before[l as int], keeps(target@));
            assert(before.subrange(0, l + 1) =~= before.subrange(0, l as int).push(before[l as int]));
        }
        l += 1;
    }
    assert(before.subrange(0, l as int) =~= before);
    *slot = kept;
    removed
}

fn slots_remove(slots: &mut Vec<Vec<ConnectionEndpoint>>, target: &String) -> (removed: bool)
    ensures
        final(slots).deep_view() == slots_without(old(slots).deep_view(), target@),
        removed == slots_reach(old(slots).deep_view(), target@),
{
    let ghost before = slots.deep_view();
    let mut removed = false;
    let mut k: usize = 0;
    while k < slots.len()
        invariant
            k <= slots.len(),
            slots.len() == before.len(),
            forall|x: int| 0 <= x < k ==> (#[trigger] slots.deep_view()[x]) == before[x].filter(keeps(target@)),
            forall|x: int| k <= x < before.len() ==> (#[trigger] slots.deep_view()[x]) == before[x],
            removed == exists|x: int, l: int|
                0 <= x < k && 0 <= l < before[x].len() && (#[trigger] before[x][l]).node == target@,
        decreases slots.len() - k,
    {
        let ghost prev = slots.deep_view();
        let hit = slot_remove(&mut slots[k], target);
        proof {
            assert(prev[k as int] == before[k as int]);
            assert forall|x: int| 0 <= x < k + 1 implies (#[trigger] slots.deep_view()[x])
                == before[x].filter(keeps(target@)) by {
                if x < k {
                    assert(slots.deep_view()[x] == prev[x]);
                }
            }
            assert forall|x: int| k + 1 <= x < before.len() implies (#[trigger] slots.deep_view()[x])
                == before[x] by {
                assert(slots.deep_view()[x] == prev[x]);
            }
        }
        removed = removed || hit;
        k += 1;
    }
    assert(slots.deep_view() =~= slots_without(before, target@));
    removed
}

fn ports_remove(ports: &mut Vec<PortOutputs>, target: &String) -> (removed: bool)
    ensures
        final(ports).deep_view() == ports_without(old(ports).deep_view(), target@),
        removed == ports_reach(old(ports).deep_view(), target@),
{
    let ghost before = ports.deep_view();
    let mut removed = false;
    let mut j: usize = 0;
    while j < ports.len()
        invariant
            j <= ports.len(),
            ports.len() == before.len(),
            forall|x: int| 0 <= x < j ==> (#[trigger] ports.deep_view()[x]) == (PortView {
                port_type: before[x].port_type,
                slots: slots_without(before[x].slots, target@),
            }),
            forall|x: int| j <= x < before.len() ==> (#[trigger] ports.deep_view()[x]) == before[x],
            removed == exists|x: int| 0 <= x < j && slots_reach((#[trigger] before[x]).slots, target@),
        decreases ports.len() - j,
    {
        let ghost prev = ports.deep_view();
        let hit = slots_remove(&mut ports[j].slots, target);
        proof {
            assert(prev[j as int] == before[j as int]);
            assert forall|x: int| 0 <= x < j + 1 implies (#[trigger] ports.deep_view()[x]) == (PortView {
                port_type: before[x].port_type,
                slots: slots_without(before[x].slots, target@),
            }) by {
                if x < j {
                    assert(ports.deep_view()[x] == prev[x]);
                }
            }
            assert forall|x: int| j + 1 <= x < before.len() implies (#[trigger] ports.deep_view()[x])
                == before[x] by {
                assert(ports.deep_view()[x] == prev[x]);
            }
        }
        removed = removed || hit;
        j += 1;
    }
    assert(ports.deep_view() =~= ports_without(before, target@));
    removed
}

fn slot_retarget(slot: &mut Vec<ConnectionEndpoint>, old_name: &String, new_name: &String)
    ensures
        final(slot).deep_view() == Seq::new(
            old(slot).deep_view().len(),
            |l: int| endpoint_renamed(old(slot).deep_view()[l], old_name@, new_name@),
        ),
{
    let ghost before = slot.deep_view();
    let mut l: usize = 0;
    while l < slot.len()
        invariant
            l <= slot.len(),
            slot.len() == before.len(),
            forall|x: int| 0 <= x < l ==> (#[trigger] slot.deep_view()[x]) == endpoint_renamed(
                before[x],
                old_name@,
                new_name@,
            ),
            forall|x: int| l <= x < before.len() ==> (#[trigger] slot.deep_view()[x]) == before[x],
        decreases slot.len() - l,
    {
        let ghost prev = slot.deep_view();
        assert(prev[l as int] == before[l as int]);
        if slot[l].node == *old_name {
            slot[l].node = new_name.clone();
        }
        proof {
            assert forall|x: int| 0 <= x < l + 1 implies (#[trigger] slot.deep_view()[x])
                == endpoint_renamed(before[x], old_name@, new_name@) by {
                if x < l {
                    assert(slot.deep_view()[x] == prev[x]);
                }
            }
            assert forall|x: int| l + 1 <= x < before.len() implies (#[trigger] slot.deep_view()[x])
                == before[x] by {
                assert(slot.deep_view()[x] == prev[x]);
            }
        }
        l += 1;
    }
    assert(slot.deep_view() =~= Seq::new(
        before.len(),
        |l: int| endpoint_renamed(before[l], old_name@, new_name@),
    ));
}

fn slots_retarget(slots: &mut Vec<Vec<ConnectionEndpoint>>, old_name: &String, new_name: &String)
    ensures
        final(slots).deep_view() == slots_retargeted(old(slots).deep_view(), old_name@, new_name@),
{
    let ghost before = slots.deep_view();
    let ghost goal = slots_retargeted(before, old_name@, new_name@);
    let mut k: usize = 0;
    while k < slots.len()
        invariant
            k <= slots.len(),
            slots.len() == before.len(),
            goal == slots_retargeted(before, old_name@, new_name@),
            forall|x: int| 0 <= x < k ==> (#[trigger] slots.deep_view()[x]) == goal[x],
            forall|x: int| k <= x < before.len() ==> (#[trigger] slots.deep_view()[x]) == before[x],
        decreases slots.len() - k,
    {
        let ghost prev = slots.deep_view();
        assert(prev[k as int] == before[k as int]);
        slot_retarget(&mut slots[k], old_name, new_name);
        proof {
            assert forall|x: int| 0 <= x < k + 1 implies (#[trigger] slots.deep_view()[x]) == goal[x] by {
                if x < k {
                    assert(slots.deep_view()[x] == prev[x]);
                }
            }
            assert forall|x: int| k + 1 <= x < before.len() implies (#[trigger] slots.deep_view()[x])
                == before[x] by {
                assert(slots.deep_view()[x] == prev[x]);
            }
        }
        k += 1;
    }
    assert(slots.deep_view() =~= goal);
}

fn ports_retarget(ports: &mut Vec<PortOutputs>, old_name: &String, new_name: &String)
    ensures
        final(ports).deep_view() == ports_retargeted(old(ports).deep_view(), old_name@, new_name@),
{
    let ghost before = ports.deep_view();
    let ghost goal = ports_retargeted(before, old_name@, new_name@);
    let mut j: usize = 0;
    while j < ports.len()
        invariant
            j <= ports.len(),
            ports.len() == before.len(),
            goal == ports_retargeted(before, old_name@, new_name@),
            forall|x: int| 0 <= x < j ==> (#[trigger] ports.deep_view()[x]) == goal[x],
            forall|x: int| j <= x < before.len() ==> (#[trigger] ports.deep_view()[x]) == before[x],
        decreases ports.len() - j,
    {
        let ghost prev = ports.deep_view();
        assert(prev[j as int] == before[j as int]);
        slots_retarget(&mut ports[j].slots, old_name, new_name);
        proof {
            assert forall|x: int| 0 <= x < j + 1 implies (#[trigger] ports.deep_view()[x]) == goal[x] by {
                if x < j {
                    assert(ports.deep_view()[x] == prev[x]);
                }
            }
            assert forall|x: int| j + 1 <= x < before.len() implies (#[trigger] ports.deep_view()[x])
                == before[x] by {
                assert(ports.deep_view()[x] == prev[x]);
            }
        }
        j += 1;
    }
    assert(ports.deep_view() =~= goal);
}

/// The nested, name-keyed index of all connections of a workflow.
#[derive(Debug)]
pub struct ConnectionsMap {
    sources: Vec<SourceOutputs>,
}

impl DeepView for ConnectionsMap {
    type V = Seq<SourceView>;

    closed spec fn deep_view(&self) -> Seq<SourceView> {
        self.sources.deep_view()
    }
}

impl View for ConnectionsMap {
    type V = Seq<SourceView>;

    open spec fn view(&self) -> Seq<SourceView> {
        self.deep_view()
    }
}

impl ConnectionsMap {
    #[verifier::type_invariant]
    spec fn inv(&self) -> bool {
        index_wf(self.sources.deep_view())
    }

    /// The index without entries.
    pub fn new() -> (r: Self)
        ensures
            r@ == Seq::<SourceView>::empty(),
    {
        let r = ConnectionsMap { sources: Vec::new() };
        assert(r.sources.deep_view() =~= Seq::<SourceView>::empty());
        r
    }

    /// The entries of the index, in order.
    pub fn sources(&self) -> (r: &Vec<SourceOutputs>)
        ensures
            r.deep_view() == self@,
            index_wf(self@),
    {
        proof {
            use_type_invariant(self);
        }
        &self.sources
    }

    /// The index with the given entries, where they make a well-formed
    /// one: no source name twice, no port type twice under one source, no
    /// more fan-out lists than there are port numbers.
    pub fn from_sources(sources: Vec<SourceOutputs>) -> (r: Option<Self>)
        ensures
            match r {
                Some(map) => map@ == sources.deep_view() && index_wf(map@),
                None => !index_wf(sources.deep_view()),
            },
    {
        if sources_wf(&sources) {
            Some(ConnectionsMap { sources })
        } else {
            None
        }
    }

    /// Moves the entries out, leaving the index empty.
    fn take_sources(&mut self) -> (sources: Vec<SourceOutputs>)
        ensures
            sources.deep_view() == old(self)@,
            index_wf(old(self)@),
            final(self)@ == Seq::<SourceView>::empty(),
    {
        proof {
            use_type_invariant(&*self);
        }
        let mut taken = ConnectionsMap::new();
        core::mem::swap(self, &mut taken);
        let ConnectionsMap { sources } = taken;
        sources
    }

    /// Every edge of the index as a flat list, in nested order.
    pub fn edges(&self) -> (r: Vec<Connection>)
        ensures
            r.deep_view() == index_edges(self@),
            index_wf(self@),
    {
        proof {
            use_type_invariant(self);
        }
        let mut out: Vec<Connection> = Vec::new();
        proof {
            lemma_index_edges_step(self@, 0);
            assert(out.deep_view() =~= index_edges_upto(self@, 0));
        }
        let mut i: usize = 0;
        while i < self.sources.len()
            invariant
                i <= self.sources.len(),
                index_wf(self@),
                out.deep_view() == index_edges_upto(self@, i as int),
            decreases self.sources.len() - i,
        {
            proof {
                lemma_index_edges_step(self@, i as int);
                assert(ports_wf(self@[i as int].ports));
            }
            source_flat(&self.sources[i], &mut out);
            i += 1;
            assert(out.deep_view() =~= index_edges_upto(self@, i as int));
        }
        out
    }

    /// Removes every connection from `from` to `to`, and says whether there
    /// was one. Fan-out lists that become empty stay in place.
    pub fn disconnect(&mut self, from: &str, to: &str) -> (removed: bool)
        ensures
            final(self)@ == index_disconnected(old(self)@, from@, to@),
            removed == index_connects(old(self)@, from@, to@),
            index_edges(final(self)@) == index_edges(old(self)@).filter(avoids(from@, to@)),
    {
        let ghost before = self@;
        let mut sources = self.take_sources();
        proof {
            lemma_index_disconnected_wf(before, from@, to@);
            lemma_disconnected_edges(before, from@, to@);
        }
        let from_name = from.to_owned();
        let to_name = to.to_owned();
        let mut removed = false;
        let mut i: usize = 0;
        while i < sources.len()
            invariant
                i <= sources.len(),
                sources.len() == before.len(),
                from_name@ == from@,
                to_name@ == to@,
                forall|x: int| 0 <= x < i ==> (#[trigger] sources.deep_view()[x]) == index_disconnected(
                    before,
                    from@,
                    to@,
                )[x],
                forall|x: int| i <= x < before.len() ==> (#[trigger] sources.deep_view()[x]) == before[x],
                removed == exists|x: int|
                    0 <= x < i && (#[trigger] before[x]).source == from@ && ports_reach(
                        before[x].ports,
                        to@,
                    ),
            decreases sources.len() - i,
        {
            let ghost prev = sources.deep_view();
            assert(prev[i as int] == before[i as int]);
            if sources[i].source == from_name {
                let hit = ports_remove(&mut sources[i].ports, &to_name);
                removed = removed || hit;
            }
            proof {
                assert forall|x: int| 0 <= x < i + 1 implies (#[trigger] sources.deep_view()[x])
                    == index_disconnected(before, from@, to@)[x] by {
                    if x < i {
                        assert(sources.deep_view()[x] == prev[x]);
                    }
                }
                assert forall|x: int| i + 1 <= x < before.len() implies (#[trigger] sources.deep_view()[x])
                    == before[x] by {
                    assert(sources.deep_view()[x] == prev[x]);
                }
            }
            i += 1;
        }
        assert(sources.deep_view() =~= index_disconnected(before, from@, to@));
        *self = ConnectionsMap { sources };
        removed
    }

    /// Removes what node `name` took part in: its own entry, and every
    /// endpoint that leads to it.
    pub fn remove_node(&mut self, name: &str)
        ensures
            final(self)@ == index_without_node(old(self)@, name@),
            index_edges(final(self)@) == index_edges(old(self)@).filter(apart_from(name@)),
            index_wf(old(self)@),
    {
        let ghost before = self@;
        let mut sources = self.take_sources();
        proof {
            lemma_index_without_node_wf(before, name@);
            lemma_without_node_edges(before, name@);
        }
        let key = name.to_owned();
        match find_source(&sources, &key) {
            Some(i) => {
                proof {
                    lemma_source_at(before, i as int);
                }
                let gone = sources.remove(i);
                assert(sources.deep_view() =~= without_source(before, name@));
            },
            None => {},
        }
        let ghost rest = sources.deep_view();
        let ghost goal = index_without_node(before, name@);
        let mut i: usize = 0;
        while i < sources.len()
            invariant
                i <= sources.len(),
                sources.len() == rest.len(),
                key@ == name@,
                rest == without_source(before, name@),
                goal == index_without_node(before, name@),
                forall|x: int| 0 <= x < i ==> (#[trigger] sources.deep_view()[x]) == goal[x],
                forall|x: int| i <= x < rest.len() ==> (#[trigger] sources.deep_view()[x]) == rest[x],
            decreases sources.len() - i,
        {
            let ghost prev = sources.deep_view();
            assert(prev[i as int] == rest[i as int]);
            ports_remove(&mut sources[i].ports, &key);
            proof {
                assert forall|x: int| 0 <= x < i + 1 implies (#[trigger] sources.deep_view()[x])
                    == goal[x] by {
                    if x < i {
                        assert(sources.deep_view()[x] == prev[x]);
                    }
                }
                assert forall|x: int| i + 1 <= x < rest.len() implies (#[trigger] sources.deep_view()[x])
                    == rest[x] by {
                    assert(sources.deep_view()[x] == prev[x]);
                }
            }
            i += 1;
        }
        assert(sources.deep_view() =~= goal);
        *self = ConnectionsMap { sources };
    }

    /// Follows a node from the name `old_name` to the name `new_name`: its
    /// entry moves to the new key, and every endpoint that led to the old
    /// name leads to the new one.
    pub fn rename_node(&mut self, old_name: &str, new_name: &str)
        ensures
            final(self)@ == index_renamed(old(self)@, old_name@, new_name@),
            index_edges(final(self)@) == (if has_source(old(self)@, old_name@) && old_name@
                != new_name@ {
                index_edges(old(self)@).filter(not_from(new_name@))
            } else {
                index_edges(old(self)@)
            }).map_values(renames(old_name@, new_name@)),
    {
        let ghost before = self@;
        let mut sources = self.take_sources();
        proof {
            lemma_index_renamed_wf(before, old_name@, new_name@);
            lemma_renamed_edges(before, old_name@, new_name@);
        }
        let old_key = old_name.to_owned();
        let new_key = new_name.to_owned();
        if old_key != new_key {
            if find_source(&sources, &old_key).is_some() {
                proof {
                    lemma_without_source_wf(before, new_name@);
                }
                match find_source(&sources, &new_key) {
                    Some(b) => {
                        proof {
                            lemma_source_at(before, b as int);
                        }
                        let gone = sources.remove(b);
                        assert(sources.deep_view() =~= without_source(before, new_name@));
                    },
                    None => {},
                }
                let ghost rest = sources.deep_view();
                match find_source(&sources, &old_key) {
                    Some(a) => {
                        proof {
                            lemma_source_at(rest, a as int);
                        }
                        sources[a].source = new_key.clone();
                        assert(sources.deep_view() =~= index_rekeyed(before, old_name@, new_name@));
                    },
                    None => {
                        proof {
                            assert(has_source(rest, old_name@));
                        }
                    },
                }
            }
        }
        let ghost keyed = sources.deep_view();
        let ghost goal = index_renamed(before, old_name@, new_name@);
        assert(keyed == index_rekeyed(before, old_name@, new_name@));
        let mut i: usize = 0;
        while i < sources.len()
            invariant
                i <= sources.len(),
                sources.len() == keyed.len(),
                old_key@ == old_name@,
                new_key@ == new_name@,
                goal == index_retargeted(keyed, old_name@, new_name@),
                forall|x: int| 0 <= x < i ==> (#[trigger] sources.deep_view()[x]) == goal[x],
                forall|x: int| i <= x < keyed.len() ==> (#[trigger] sources.deep_view()[x]) == keyed[x],
            decreases sources.len() - i,
        {
            let ghost prev = sources.deep_view();
            assert(prev[i as int] == keyed[i as int]);
            ports_retarget(&mut sources[i].ports, &old_key, &new_key);
            proof {
                assert forall|x: int| 0 <= x < i + 1 implies (#[trigger] sources.deep_view()[x])
                    == goal[x] by {
                    if x < i {
                        assert(sources.deep_view()[x] == prev[x]);
                    }
                }
                assert forall|x: int| i + 1 <= x < keyed.len() implies (#[trigger] sources.deep_view()[x])
                    == keyed[x] by {
                    assert(sources.deep_view()[x] == prev[x]);
                }
            }
            i += 1;
        }
        assert(sources.deep_view() =~= goal);
        *self = ConnectionsMap { sources };
    }

    /// Inserts one edge; see [`index_with`].
    pub fn insert_edge(&mut self, conn: &Connection)
        ensures
            final(self)@ == index_with(old(self)@, conn@),
            index_wf(old(self)@),
            index_wf(final(self)@),
    {
        let ghost before = self@;
        let mut sources = self.take_sources();
        proof {
            lemma_index_with_wf(before, conn@);
        }
        let e = ConnectionEndpoint {
            node: conn.target_node.clone(),
            connection_type: conn.target_type.clone(),
            index: conn.target_input,
        };
        match find_source(&sources, &conn.source_node) {
            Some(i) => {
                proof {
                    lemma_source_at(before, i as int);
                }
                ports_add(&mut sources[i].ports, &conn.source_type, conn.source_output, e);
                assert(sources.deep_view() =~= index_with(before, conn@));
            },
            None => {
                let mut ports: Vec<PortOutputs> = Vec::new();
                assert(ports.deep_view() =~= Seq::<PortView>::empty());
                ports_add(&mut ports, &conn.source_type, conn.source_output, e);
                sources.push(SourceOutputs { source: conn.source_node.clone(), ports });
                assert(sources.deep_view() =~= index_with(before, conn@));
            },
        }
        *self = ConnectionsMap { sources };
    }
}

fn clone_slot(slot: &Vec<ConnectionEndpoint>) -> (r: Vec<ConnectionEndpoint>)
    ensures
        r.deep_view() == slot.deep_view(),
{
    let mut out: Vec<ConnectionEndpoint> = Vec::new();
    let mut l: usize = 0;
    while l < slot.len()
        invariant
            l <= slot.len(),
            out.deep_view() == slot.deep_view().subrange(0, l as int),
        decreases slot.len() - l,
    {
        let ghost prev = out.deep_view();
        out.push(slot[l].clone());
        assert(out.deep_view() =~= prev.push(slot.deep_view()[l as int]));
        l += 1;
        assert(out.deep_view() =~= slot.deep_view().subrange(0, l as int));
    }
    assert(slot.deep_view().subrange(0, l as int) =~= slot.deep_view());
    out
}

fn clone_slots(slots: &Vec<Vec<ConnectionEndpoint>>) -> (r: Vec<Vec<ConnectionEndpoint>>)
    ensures
        r.deep_view() == slots.deep_view(),
{
    let mut out: Vec<Vec<ConnectionEndpoint>> = Vec::new();
    let mut k: usize = 0;
    while k < slots.len()
        invariant
            k <= slots.len(),
            out.deep_view() == slots.deep_view().subrange(0, k as int),
        decreases slots.len() - k,
    {
        let ghost prev = out.deep_view();
        out.push(clone_slot(&slots[k]));
        assert(out.deep_view() =~= prev.push(slots.deep_view()[k as int]));
        k += 1;
        assert(out.deep_view() =~= slots.deep_view().subrange(0, k as int));
    }
    assert(slots.deep_view().subrange(0, k as int) =~= slots.deep_view());
    out
}

impl Clone for PortOutputs {
    fn clone(&self) -> (r: Self)
        ensures
            r@ == self@,
    {
        PortOutputs { port_type: self.port_type.clone(), slots: clone_slots(&self.slots) }
    }
}

fn clone_ports(ports: &Vec<PortOutputs>) -> (r: Vec<PortOutputs>)
    ensures
        r.deep_view() == ports.deep_view(),
{
    let mut out: Vec<PortOutputs> = Vec::new();
    let mut j: usize = 0;
    while j < ports.len()
        invariant
            j <= ports.len(),
            out.deep_view() == ports.deep_view().subrange(0, j as int),
        decreases ports.len() - j,
    {
        let ghost prev = out.deep_view();
        out.push(ports[j].clone());
        assert(out.deep_view() =~= prev.push(ports.deep_view()[j as int]));
        j += 1;
        assert(out.deep_view() =~= ports.deep_view().subrange(0, j as int));
    }
    assert(ports.deep_view().subrange(0, j as int) =~= ports.deep_view());
    out
}

impl Clone for SourceOutputs {
    fn clone(&self) -> (r: Self)
        ensures
            r@ == self@,
    {
        SourceOutputs { source: self.source.clone(), ports: clone_ports(&self.ports) }
    }
}

impl Clone for ConnectionsMap {
    fn clone(&self) -> (r: Self)
        ensures
            r@ == self@,
    {
        proof {
            use_type_invariant(self);
        }
        let mut out: Vec<SourceOutputs> = Vec::new();
        let mut i: usize = 0;
        while i < self.sources.len()
            invariant
                i <= self.sources.len(),
                out.deep_view() == self.sources.deep_view().subrange(0, i as int),
            decreases self.sources.len() - i,
        {
            let ghost prev = out.deep_view();
            out.push(self.sources[i].clone());
            assert(out.deep_view() =~= prev.push(self.sources.deep_view()[i as int]));
            i += 1;
            assert(out.deep_view() =~= self.sources.deep_view().subrange(0, i as int));
        }
        assert(self.sources.deep_view().subrange(0, i as int) =~= self.sources.deep_view());
        ConnectionsMap { sources: out }
    }
}

fn ports_ok(ports: &Vec<PortOutputs>) -> (r: bool)
    ensures
        r == ports_wf(ports.deep_view()),
{
    let mut j: usize = 0;
    while j < ports.len()
        invariant
            j <= ports.len(),
            forall|a: int, b: int|
                0 <= a < b < j ==> (#[trigger] ports.deep_view()[a]).port_type != (
                #[trigger] ports.deep_view()[b]).port_type,
            forall|a: int| 0 <= a < j ==> (#[trigger] ports.deep_view()[a]).slots.len() <= max_slots(),
        decreases ports.len() - j,
    {
        if ports[j].slots.len() as u64 > 0x1_0000_0000u64 {
            assert(ports.deep_view()[j as int].slots.len() > max_slots());
            return false;
        }
        let mut a: usize = 0;
        while a < j
            invariant
                a <= j < ports.len(),
                forall|x: int|
                    0 <= x < a ==> (#[trigger] ports.deep_view()[x]).port_type
                        != ports.deep_view()[j as int].port_type,
            decreases j - a,
        {
            if ports[a].port_type == ports[j].port_type {
                assert(ports.deep_view()[a as int].port_type == ports.deep_view()[j as int].port_type);
                return false;
            }
            a += 1;
        }
        j += 1;
    }
    true
}

fn sources_wf(sources: &Vec<SourceOutputs>) -> (r: bool)
    ensures
        r == index_wf(sources.deep_view()),
{
    let mut i: usize = 0;
    while i < sources.len()
        invariant
            i <= sources.len(),
            forall|a: int, b: int|
                0 <= a < b < i ==> (#[trigger] sources.deep_view()[a]).source != (
                #[trigger] sources.deep_view()[b]).source,
            forall|a: int| 0 <= a < i ==> ports_wf((#[trigger] sources.deep_view()[a]).ports),
        decreases sources.len() - i,
    {
        if !ports_ok(&sources[i].ports) {
            assert(!ports_wf(sources.deep_view()[i as int].ports));
            return false;
        }
        let mut a: usize = 0;
        while a < i
            invariant
                a <= i < sources.len(),
                forall|x: int|
                    0 <= x < a ==> (#[trigger] sources.deep_view()[x]).source
                        != sources.deep_view()[i as int].source,
            decreases i - a,
        {
            if sources[a].source == sources[i].source {
                assert(sources.deep_view()[a as int].source == sources.deep_view()[i as int].source);
                return false;
            }
            a += 1;
        }
        i += 1;
    }
    true
}

fn find_source(sources: &Vec<SourceOutputs>, name: &String) -> (r: Option<usize>)
    ensures
        match r {
            Some(i) => i < sources.len() && sources.deep_view()[i as int].source == name@,
            None => !has_source(sources.deep_view(), name@),
        },
{
    let mut i: usize = 0;
    while i < sources.len()
        invariant
            i <= sources.len(),
            forall|k: int| 0 <= k < i ==> (#[trigger] sources.deep_view()[k]).source != name@,
        decreases sources.len() - i,
    {
        if sources[i].source == *name {
            return Some(i);
        }
        i += 1;
    }
    None
}

} // verus!
