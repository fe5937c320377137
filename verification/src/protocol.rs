//! The envelope schema: what one transmitted line means.
//!
//! A `Message` is one envelope: source, destination, and a `Body`. The
//! body's `msg_id`, when present, marks the body as expecting a reply;
//! `in_reply_to`, when present, marks the body as itself a reply and
//! echoes the `msg_id` of the message being answered. `Payload` is the
//! closed union of request and response kinds; `ErrorCode` the closed set
//! of protocol error codes with their fixed numeric values.

use vstd::prelude::*;

use crate::ids::{MessageId, NodeId, PeerId};

verus! {

/// One transmitted envelope. Immutable once constructed: handlers build
/// new envelopes, they never rewrite one that was queued for send.
#[derive(Debug)]
pub struct Message {
    pub src: PeerId,
    pub dest: PeerId,
    pub body: Body,
}

/// The body of an envelope: correlation fields and the payload.
#[derive(Debug)]
pub struct Body {
    pub msg_id: Option<MessageId>,
    pub in_reply_to: Option<MessageId>,
    pub value: Payload,
}

/// The closed set of payload kinds. `Broadcast::message` reuses
/// `MessageId` purely as an opaque 64-bit gossip value; it is unrelated to
/// request/reply correlation.
#[derive(Debug)]
pub enum Payload {
    Echo { echo: String },
    EchoOk { echo: String },
    Init { node_id: NodeId, node_ids: Vec<NodeId> },
    InitOk {},
    Broadcast { message: MessageId },
    BroadcastOk {},
    Read {},
    ReadOk { messages: Vec<MessageId> },
    Generate {},
    GenerateOk { id: MessageId },
    Topology { topology: Vec<(NodeId, Vec<NodeId>)> },
    TopologyOk {},
    Error { code: ErrorCode, text: String },
}

/// The closed set of protocol error codes.
#[derive(Debug, Clone, Copy, Eq, PartialEq, Structural)]
pub enum ErrorCode {
    Timeout,
    NodeNotFound,
    NotSupported,
    TemporarilyUnavailable,
    MalformedRequest,
    Crash,
    Abort,
    KeyDoesNotExist,
    KeyAlreadyExists,
    PreconditionFailed,
    TransactionConflict,
}

pub open spec fn error_code_value(c: ErrorCode) -> u64 {
    match c {
        ErrorCode::Timeout => 0,
        ErrorCode::NodeNotFound => 1,
        ErrorCode::NotSupported => 10,
        ErrorCode::TemporarilyUnavailable => 11,
        ErrorCode::MalformedRequest => 12,
        ErrorCode::Crash => 13,
        ErrorCode::Abort => 14,
        ErrorCode::KeyDoesNotExist => 20,
        ErrorCode::KeyAlreadyExists => 21,
        ErrorCode::PreconditionFailed => 22,
        ErrorCode::TransactionConflict => 30,
    }
}

impl ErrorCode {
    /// The fixed numeric code of this error kind on the wire.
    pub fn code(&self) -> (r: u64)
        ensures
            r == error_code_value(*self),
    {
        match self {
            ErrorCode::Timeout => 0,
            ErrorCode::NodeNotFound => 1,
            ErrorCode::NotSupported => 10,
            ErrorCode::TemporarilyUnavailable => 11,
            ErrorCode::MalformedRequest => 12,
            ErrorCode::Crash => 13,
            ErrorCode::Abort => 14,
            ErrorCode::KeyDoesNotExist => 20,
            ErrorCode::KeyAlreadyExists => 21,
            ErrorCode::PreconditionFailed => 22,
            ErrorCode::TransactionConflict => 30,
        }
    }

    /// The error kind a numeric wire code names, if any.
    pub fn from_code(code: u64) -> (r: Option<ErrorCode>)
        ensures
            r matches Some(c) ==> error_code_value(c) == code,
            r is None ==> forall|c: ErrorCode| error_code_value(c) != code,
    {
        match code {
            0 => Some(ErrorCode::Timeout),
            1 => Some(ErrorCode::NodeNotFound),
            10 => Some(ErrorCode::NotSupported),
            11 => Some(ErrorCode::TemporarilyUnavailable),
            12 => Some(ErrorCode::MalformedRequest),
            13 => Some(ErrorCode::Crash),
            14 => Some(ErrorCode::Abort),
            20 => Some(ErrorCode::KeyDoesNotExist),
            21 => Some(ErrorCode::KeyAlreadyExists),
            22 => Some(ErrorCode::PreconditionFailed),
            30 => Some(ErrorCode::TransactionConflict),
            _ => None,
        }
    }
}

/// View of a topology listing with the neighbor vectors abstracted to
/// sequences.
pub open spec fn topo_view(t: Seq<(NodeId, Vec<NodeId>)>) -> Seq<(NodeId, Seq<NodeId>)> {
    t.map_values(|e: (NodeId, Vec<NodeId>)| (e.0, e.1@))
}

/// Payload equality up to the abstract contents of strings and vectors:
/// same kind, and field views equal.
pub open spec fn payload_eqv(a: Payload, b: Payload) -> bool {
    match (a, b) {
        (Payload::Echo { echo: x }, Payload::Echo { echo: y }) => x@ == y@,
        (Payload::EchoOk { echo: x }, Payload::EchoOk { echo: y }) => x@ == y@,
        (
            Payload::Init { node_id: nx, node_ids: vx },
            Payload::Init { node_id: ny, node_ids: vy },
        ) => nx == ny && vx@ == vy@,
        (Payload::InitOk {}, Payload::InitOk {}) => true,
        (Payload::Broadcast { message: x }, Payload::Broadcast { message: y }) => x == y,
        (Payload::BroadcastOk {}, Payload::BroadcastOk {}) => true,
        (Payload::Read {}, Payload::Read {}) => true,
        (Payload::ReadOk { messages: x }, Payload::ReadOk { messages: y }) => x@ == y@,
        (Payload::Generate {}, Payload::Generate {}) => true,
        (Payload::GenerateOk { id: x }, Payload::GenerateOk { id: y }) => x == y,
        (Payload::Topology { topology: x }, Payload::Topology { topology: y }) => topo_view(x@)
            == topo_view(y@),
        (Payload::TopologyOk {}, Payload::TopologyOk {}) => true,
        (
            Payload::Error { code: cx, text: tx },
            Payload::Error { code: cy, text: ty },
        ) => cx == cy && tx@ == ty@,
        _ => false,
    }
}

/// Copies a vector of plain values, element for element.
pub fn copy_vec<T: Copy>(v: &Vec<T>) -> (r: Vec<T>)
    ensures
        r@ == v@,
{
    let mut out: Vec<T> = Vec::new();
    let mut i: usize = 0;
    while i < v.len()
        invariant
            i <= v@.len(),
            out@ == v@.take(i as int),
        decreases v@.len() - i,
    {
        out.push(v[i]);
        i = i + 1;
        proof {
            assert(out@ =~= v@.take(i as int));
        }
    }
    proof {
        assert(v@.take(v@.len() as int) =~= v@);
    }
    out
}

/// Copies a topology listing, entry for entry.
pub fn copy_topology(t: &Vec<(NodeId, Vec<NodeId>)>) -> (r: Vec<(NodeId, Vec<NodeId>)>)
    ensures
        topo_view(r@) == topo_view(t@),
{
    let mut out: Vec<(NodeId, Vec<NodeId>)> = Vec::new();
    let mut i: usize = 0;
    while i < t.len()
        invariant
            i <= t@.len(),
            out@.len() == i,
            forall|k: int|
                0 <= k < i ==> (#[trigger] out@[k]).0 == t@[k].0 && out@[k].1@ == t@[k].1@,
        decreases t@.len() - i,
    {
        let entry = &t[i];
        let key = entry.0;
        let inner = copy_vec(&entry.1);
        let ghost innerv = inner@;
        out.push((key, inner));
        i = i + 1;
        proof {
            assert(out@[i - 1].0 == key);
            assert(out@[i - 1].1@ == innerv);
        }
    }
    proof {
        assert forall|k: int| 0 <= k < t@.len() implies topo_view(out@)[k] == topo_view(t@)[k] by {
            assert(topo_view(out@)[k] == (out@[k].0, out@[k].1@));
            assert(topo_view(t@)[k] == (t@[k].0, t@[k].1@));
        }
        assert(topo_view(out@) =~= topo_view(t@));
    }
    out
}

/// Copies a payload, field for field: the copy is `payload_eqv` to the
/// original.
pub fn clone_payload(p: &Payload) -> (r: Payload)
    ensures
        payload_eqv(r, *p),
{
    match p {
        Payload::Echo { echo } => Payload::Echo { echo: echo.clone() },
        Payload::EchoOk { echo } => Payload::EchoOk { echo: echo.clone() },
        Payload::Init { node_id, node_ids } => Payload::Init {
            node_id: *node_id,
            node_ids: copy_vec(node_ids),
        },
        Payload::InitOk {  } => Payload::InitOk {  },
        Payload::Broadcast { message } => Payload::Broadcast { message: *message },
        Payload::BroadcastOk {  } => Payload::BroadcastOk {  },
        Payload::Read {  } => Payload::Read {  },
        Payload::ReadOk { messages } => Payload::ReadOk { messages: copy_vec(messages) },
        Payload::Generate {  } => Payload::Generate {  },
        Payload::GenerateOk { id } => Payload::GenerateOk { id: *id },
        Payload::Topology { topology } => Payload::Topology { topology: copy_topology(topology) },
        Payload::TopologyOk {  } => Payload::TopologyOk {  },
        Payload::Error { code, text } => Payload::Error { code: *code, text: text.clone() },
    }
}

/// Envelope equality up to `payload_eqv` of the payloads.
pub open spec fn message_eqv(a: Message, b: Message) -> bool {
    a.src == b.src && a.dest == b.dest && a.body.msg_id == b.body.msg_id && a.body.in_reply_to
        == b.body.in_reply_to && payload_eqv(a.body.value, b.body.value)
}

} // verus!
