//! One participant ("node") in a message-passing distributed test harness.
//!
//! The node exchanges envelopes with a coordinating harness and with peer
//! nodes, and solves three cooperative tasks: echo, unique id generation,
//! and deduplicated gossip broadcast over a dynamic neighbor topology.
//! This crate holds the verified core: the identifier model and its wire
//! forms, the envelope schema, the per-node id generator, the dispatcher,
//! the broadcast engine, and the retry/backoff bookkeeping of the RPC
//! engine. The surrounding process (line framing, JSON encoding, the async
//! runtime) drives these functions from outside.

pub mod ids;
pub mod node;
pub mod protocol;
pub mod rpc;
pub mod wire;
