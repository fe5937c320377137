//! Typed identifiers for the participants of the protocol.
//!
//! A `NodeId` names a gossip participant, a `ClientId` an external harness
//! client, and a `Store` one of the two well-known key-value service peers.
//! `PeerId` is the tagged union of the three: the only identifier that may
//! stand in an envelope's source or destination field. A `MessageId` is a
//! per-node unique 64-bit value used both as a correlation id and as an
//! opaque gossip payload value.

use vstd::prelude::*;

verus! {

/// Identifier of a node: an opaque 64-bit integer, wire form `n<uint>`.
#[derive(Debug, Clone, Copy, Default, Eq, Hash, PartialEq, PartialOrd, Ord, Structural)]
pub struct NodeId(pub u64);

impl NodeId {
    pub fn new(num: u64) -> (r: NodeId)
        ensures
            r.0 == num,
    {
        NodeId(num)
    }

    pub fn value(self) -> (r: u64)
        ensures
            r == self.0,
    {
        self.0
    }
}

/// Identifier of an external test-harness client, wire form `c<uint>`.
/// A client is never a participant in gossip.
#[derive(Debug, Clone, Copy, Eq, Hash, PartialEq, Structural)]
pub struct ClientId(pub u64);

impl ClientId {
    pub fn new(num: u64) -> (r: ClientId)
        ensures
            r.0 == num,
    {
        ClientId(num)
    }

    pub fn value(self) -> (r: u64)
        ensures
            r == self.0,
    {
        self.0
    }
}

/// The closed set of well-known external store peers, addressed like a
/// node but never part of the gossip topology.
#[derive(Debug, Clone, Copy, Eq, PartialEq, Structural)]
pub enum Store {
    /// The sequentially consistent key-value service, wire form `seq-kv`.
    SeqKv,
    /// The linearizable key-value service, wire form `lin-kv`.
    LinKv,
}

/// Error returned when a string names no known store peer.
#[derive(Debug, Clone, Copy, Eq, PartialEq, Structural)]
pub struct ParseStoreError;

/// Any participant an envelope can come from or go to.
#[derive(Debug, Clone, Copy, Eq, PartialEq, Structural)]
pub enum PeerId {
    Node(NodeId),
    Client(ClientId),
    Store(Store),
}

impl PeerId {
    pub fn of_node(node_id: NodeId) -> (r: PeerId)
        ensures
            r == PeerId::Node(node_id),
    {
        PeerId::Node(node_id)
    }

    pub fn of_store(store: Store) -> (r: PeerId)
        ensures
            r == PeerId::Store(store),
    {
        PeerId::Store(store)
    }
}

impl From<NodeId> for u64 {
    fn from(node_id: NodeId) -> (r: u64) {
        node_id.0
    }
}

impl vstd::std_specs::convert::FromSpecImpl<NodeId> for u64 {
    open spec fn obeys_from_spec() -> bool {
        true
    }

    open spec fn from_spec(node_id: NodeId) -> u64 {
        node_id.0
    }
}

impl From<u64> for NodeId {
    fn from(num: u64) -> (r: NodeId) {
        NodeId(num)
    }
}

impl vstd::std_specs::convert::FromSpecImpl<u64> for NodeId {
    open spec fn obeys_from_spec() -> bool {
        true
    }

    open spec fn from_spec(num: u64) -> NodeId {
        NodeId(num)
    }
}

impl From<NodeId> for PeerId {
    fn from(node_id: NodeId) -> (r: PeerId) {
        PeerId::Node(node_id)
    }
}

impl vstd::std_specs::convert::FromSpecImpl<NodeId> for PeerId {
    open spec fn obeys_from_spec() -> bool {
        true
    }

    open spec fn from_spec(node_id: NodeId) -> PeerId {
        PeerId::Node(node_id)
    }
}

impl From<Store> for PeerId {
    fn from(value: Store) -> (r: PeerId) {
        PeerId::Store(value)
    }
}

impl vstd::std_specs::convert::FromSpecImpl<Store> for PeerId {
    open spec fn obeys_from_spec() -> bool {
        true
    }

    open spec fn from_spec(value: Store) -> PeerId {
        PeerId::Store(value)
    }
}

/// A 64-bit value unique within the node process that generated it: the
/// generating node's numeric id in the high 32 bits, a per-node counter in
/// the low 32 bits.
#[derive(Debug, Clone, Copy, Default, Eq, Hash, PartialEq, PartialOrd, Ord, Structural)]
pub struct MessageId(pub u64);

impl MessageId {
    pub fn new(num: u64) -> (r: MessageId)
        ensures
            r.0 == num,
    {
        MessageId(num)
    }

    pub fn value(self) -> (r: u64)
        ensures
            r == self.0,
    {
        self.0
    }
}

} // verus!
