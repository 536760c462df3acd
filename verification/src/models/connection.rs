//! Connections between nodes in flat form: one record per edge, both ends
//! named by node name.

use crate::models::common::{can_truncate, truncate, truncated};
use crate::models::index_laws::avoids;
use crate::models::index_model::{
    index_connects, index_disconnected, index_edges, index_of, index_wf, index_with, keeps,
};
use crate::text::{decimal, push_decimal};
use vstd::prelude::*;
use vstd::string::*;

pub use crate::models::index::{ConnectionsMap, PortOutputs, SourceOutputs};

verus! {

/// The target end of a connection.
#[derive(Debug)]
pub struct ConnectionEndpoint {
    pub node: String,
    pub connection_type: String,
    pub index: u32,
}

/// A [`ConnectionEndpoint`] with its texts as sequences of characters.
pub struct EndpointView {
    pub node: Seq<char>,
    pub connection_type: Seq<char>,
    pub index: u32,
}

impl DeepView for ConnectionEndpoint {
    type V = EndpointView;

    open spec fn deep_view(&self) -> EndpointView {
        EndpointView {
            node: self.node@,
            connection_type: self.connection_type@,
            index: self.index,
        }
    }
}

impl View for ConnectionEndpoint {
    type V = EndpointView;

    open spec fn view(&self) -> EndpointView {
        self.deep_view()
    }
}

impl Clone for ConnectionEndpoint {
    fn clone(&self) -> (r: Self)
        ensures
            r == *self,
    {
        ConnectionEndpoint {
            node: self.node.clone(),
            connection_type: self.connection_type.clone(),
            index: self.index,
        }
    }
}

/// One edge of the graph. Both ends name their node by display name.
#[derive(Debug)]
pub struct Connection {
    pub source_node: String,
    pub source_output: u32,
    pub source_type: String,
    pub target_node: String,
    pub target_input: u32,
    pub target_type: String,
}

/// A [`Connection`] with its texts as sequences of characters.
pub struct ConnectionView {
    pub source_node: Seq<char>,
    pub source_output: u32,
    pub source_type: Seq<char>,
    pub target_node: Seq<char>,
    pub target_input: u32,
    pub target_type: Seq<char>,
}

impl DeepView for Connection {
    type V = ConnectionView;

    open spec fn deep_view(&self) -> ConnectionView {
        ConnectionView {
            source_node: self.source_node@,
            source_output: self.source_output,
            source_type: self.source_type@,
            target_node: self.target_node@,
            target_input: self.target_input,
            target_type: self.target_type@,
        }
    }
}

impl View for Connection {
    type V = ConnectionView;

    open spec fn view(&self) -> ConnectionView {
        self.deep_view()
    }
}

impl Clone for Connection {
    fn clone(&self) -> (r: Self)
        ensures
            r == *self,
    {
        Connection {
            source_node: self.source_node.clone(),
            source_output: self.source_output,
            source_type: self.source_type.clone(),
            target_node: self.target_node.clone(),
            target_input: self.target_input,
            target_type: self.target_type.clone(),
        }
    }
}

impl Connection {
    /// A connection between the first ports of two nodes, of type `main`
    /// at both ends.
    pub fn new(source_node: String, target_node: String) -> (r: Self)
        ensures
            r@ == (ConnectionView {
                source_node: source_node@,
                source_output: 0,
                source_type: "main"@,
                target_node: target_node@,
                target_input: 0,
                target_type: "main"@,
            }),
    {
        Self {
            source_node,
            source_output: 0,
            source_type: "main".to_owned(),
            target_node,
            target_input: 0,
            target_type: "main".to_owned(),
        }
    }

    /// A connection with every part given.
    pub fn new_full(
        source_node: String,
        source_output: u32,
        source_type: String,
        target_node: String,
        target_input: u32,
        target_type: String,
    ) -> (r: Self)
        ensures
            r@ == (ConnectionView {
                source_node: source_node@,
                source_output,
                source_type: source_type@,
                target_node: target_node@,
                target_input,
                target_type: target_type@,
            }),
    {
        Self { source_node, source_output, source_type, target_node, target_input, target_type }
    }

    /// The flat list of the edges of an index: one per stored endpoint, in
    /// the nested order of the index, with the position of each fan-out
    /// list as the output port.
    pub fn from_connections_map(map: &ConnectionsMap) -> (r: Vec<Self>)
        ensures
            r.deep_view() == index_edges(map@),
    {
        map.edges()
    }

    /// The index that holds the given edges, inserted in the order given.
    /// Flattened again it gives the same edges, each as often as given.
    pub fn to_connections_map(connections: &[Self]) -> (r: ConnectionsMap)
        ensures
            r@ == index_of(connections.deep_view()),
            index_wf(r@),
            index_edges(r@).to_multiset() == connections.deep_view().to_multiset(),
    {
        let mut map = ConnectionsMap::new();
        let ghost all = connections.deep_view();
        let mut n: usize = 0;
        while n < connections.len()
            invariant
                n <= connections.len(),
                all == connections.deep_view(),
                map@ == index_of(all.subrange(0, n as int)),
            decreases connections.len() - n,
        {
            proof {
                assert(all.subrange(0, n + 1).drop_last() =~= all.subrange(0, n as int));
                assert(all.subrange(0, n + 1).last() == connections@[n as int]@);
            }
            map.insert_edge(&connections[n]);
            n += 1;
        }
        assert(all.subrange(0, n as int) =~= all);
        proof {
            crate::models::index_laws::lemma_index_of_wf(all);
            crate::models::index_laws::lemma_build_flatten_roundtrip(all);
        }
        map
    }

    /// Inserts one edge into an index. The flat list gains that edge and
    /// keeps every other.
    pub fn add_to_map(map: &mut ConnectionsMap, conn: &Connection)
        ensures
            final(map)@ == index_with(old(map)@, conn@),
            index_edges(final(map)@).to_multiset() == index_edges(old(map)@).to_multiset().insert(
                conn@,
            ),
    {
        proof {
            crate::models::index_laws::lemma_index_with_edges(map@, conn@);
        }
        map.insert_edge(conn);
    }

    /// Removes the connections from `from_node` to `to_node` from an index,
    /// and says whether there was one. The fan-out lists stay in place, and
    /// the flat list keeps every other connection where it stands.
    pub fn remove_from_map(map: &mut ConnectionsMap, from_node: &str, to_node: &str) -> (removed:
        bool)
        ensures
            final(map)@ == index_disconnected(old(map)@, from_node@, to_node@),
            removed == index_connects(old(map)@, from_node@, to_node@),
            index_edges(final(map)@) == index_edges(old(map)@).filter(avoids(from_node@, to_node@)),
    {
        map.disconnect(from_node, to_node)
    }
}

/// Widest node name shown in a table of connections, in bytes.
pub const CONNECTION_NAME_WIDTH: usize = 25;

/// A port for display: its type, and its number in square brackets.
pub open spec fn port_text(port_type: Seq<char>, number: u32) -> Seq<char> {
    port_type + "["@ + decimal(number as nat) + "]"@
}

fn port_label(port_type: &str, number: u32) -> (r: String)
    ensures
        r@ == port_text(port_type@, number),
{
    let mut text = port_type.to_owned();
    text.append("[");
    push_decimal(&mut text, number as u64);
    text.append("]");
    assert(text@ =~= port_text(port_type@, number));
    text
}

impl Connection {
    /// The column headers of a table of connections.
    pub fn headers() -> (r: Vec<&'static str>)
        ensures
            r@.len() == 4,
            r@[0]@ == "FROM NODE"@,
            r@[1]@ == "OUTPUT"@,
            r@[2]@ == "TO NODE"@,
            r@[3]@ == "INPUT"@,
    {
        let mut h: Vec<&'static str> = Vec::new();
        h.push("FROM NODE");
        h.push("OUTPUT");
        h.push("TO NODE");
        h.push("INPUT");
        h
    }

    /// Whether [`Connection::row`] can shorten what it has to shorten.
    pub open spec fn can_show(&self) -> bool {
        &&& can_truncate(self.source_node@, CONNECTION_NAME_WIDTH as int)
        &&& can_truncate(self.target_node@, CONNECTION_NAME_WIDTH as int)
    }

    /// The row of this connection, column by column.
    pub fn row(&self) -> (r: Vec<String>)
        requires
            self.can_show(),
        ensures
            r.deep_view() == seq![
                truncated(self.source_node@, CONNECTION_NAME_WIDTH as int),
                port_text(self.source_type@, self.source_output),
                truncated(self.target_node@, CONNECTION_NAME_WIDTH as int),
                port_text(self.target_type@, self.target_input),
            ],
    {
        let mut row: Vec<String> = Vec::new();
        row.push(truncate(self.source_node.as_str(), CONNECTION_NAME_WIDTH));
        row.push(port_label(self.source_type.as_str(), self.source_output));
        row.push(truncate(self.target_node.as_str(), CONNECTION_NAME_WIDTH));
        row.push(port_label(self.target_type.as_str(), self.target_input));
        assert(row.deep_view() =~= seq![
            truncated(self.source_node@, CONNECTION_NAME_WIDTH as int),
            port_text(self.source_type@, self.source_output),
            truncated(self.target_node@, CONNECTION_NAME_WIDTH as int),
            port_text(self.target_type@, self.target_input),
        ]);
        row
    }
}

} // verus!
