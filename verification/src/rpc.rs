//! Bookkeeping of one reliable acknowledged send.
//!
//! The engine sends a request to a peer and the calling task waits until
//! a semantically successful reply arrives, retrying with exponential
//! backoff and a fresh correlation id on each attempt. The waiting,
//! timing and re-sending live in the surrounding process; this module
//! holds the verified per-attempt transitions: starting a call registers
//! a fresh waiting slot before the envelope exists to be emitted, and a
//! retry abandons the stale slot, doubles the timeout and mints a new
//! correlation id, so that a late reply to the old id is answered by the
//! dispatcher as an unmatched reply.

use vstd::prelude::*;

use crate::ids::{MessageId, NodeId, PeerId};
use crate::node::{packed_id, Node, ID_HALF_LIMIT};
use crate::protocol::{clone_payload, payload_eqv, Body, Message, Payload};

verus! {

/// Timeout of the first attempt of a reliable send, in time units.
pub const INITIAL_TIMEOUT: u64 = 16;

/// Timeout of attempt `k` of a reliable send: the initial timeout,
/// doubled after every failed attempt.
pub open spec fn backoff_timeout(k: nat) -> nat
    decreases k,
{
    if k == 0 {
        16
    } else {
        2 * backoff_timeout((k - 1) as nat)
    }
}

/// Time spent waiting on the failed attempts before attempt `k` starts.
pub open spec fn backoff_total_wait(k: nat) -> nat
    decreases k,
{
    if k == 0 {
        0
    } else {
        backoff_total_wait((k - 1) as nat) + backoff_timeout((k - 1) as nat)
    }
}

/// A peer that drops the first two attempts and acknowledges the third
/// is reached on the attempt with two retries behind it, by which time
/// the sender has waited exactly 16 + 32 time units on the dropped
/// attempts.
pub proof fn lemma_third_attempt_wait()
    ensures
        backoff_timeout(0) == 16,
        backoff_timeout(1) == 32,
        backoff_timeout(2) == 64,
        backoff_total_wait(2) == 48,
{
    assert(backoff_timeout(1) == 2 * backoff_timeout(0));
    assert(backoff_timeout(2) == 2 * backoff_timeout(1));
    assert(backoff_total_wait(1) == backoff_total_wait(0) + backoff_timeout(0));
    assert(backoff_total_wait(2) == backoff_total_wait(1) + backoff_timeout(1));
}

/// One in-flight reliable send: its destination, the payload re-sent on
/// every attempt, the current attempt's correlation id and timeout, and
/// how many attempts have failed so far.
pub struct Rpc {
    pub dest: NodeId,
    pub payload: Payload,
    pub msg_id: MessageId,
    pub timeout: u64,
    pub attempts: u64,
}

/// A correct attempt envelope for a reliable send: from `me` to `dest`,
/// carrying the attempt's correlation id and no `in_reply_to`, with a
/// payload equivalent to `p`.
pub open spec fn request_envelope_ok(
    me: NodeId,
    dest: NodeId,
    mid: MessageId,
    p: Payload,
    env: Message,
) -> bool {
    &&& env.src == PeerId::Node(me)
    &&& env.dest == PeerId::Node(dest)
    &&& env.body.msg_id == Some(mid)
    &&& env.body.in_reply_to is None
    &&& payload_eqv(env.body.value, p)
}

/// Whether a reply payload acknowledges a broadcast: the success
/// predicate the gossip fan-out hands to the reliable send.
pub fn payload_is_broadcast_ok(p: &Payload) -> (r: bool)
    ensures
        r == (p matches Payload::BroadcastOk {  }),
{
    match p {
        Payload::BroadcastOk {  } => true,
        _ => false,
    }
}

impl Node {
    /// Starts a reliable send to `dest`: mints a fresh correlation id,
    /// installs the waiting slot (before the envelope can be emitted, so
    /// a race-fast reply cannot be missed), and returns the call's
    /// bookkeeping with the first attempt's envelope, at the initial
    /// timeout.
    pub fn rpc_start(&mut self, dest: NodeId, payload: Payload) -> (r: (Rpc, Message))
        requires
            old(self).wf(),
            old(self).counter < ID_HALF_LIMIT,
        ensures
            final(self).wf(),
            final(self).id == old(self).id,
            final(self).counter == old(self).counter + 1,
            final(self).seen == old(self).seen,
            final(self).topology == old(self).topology,
            final(self).waiting_set() == old(self).waiting_set().insert(r.0.msg_id),
            !old(self).waiting_set().contains(r.0.msg_id),
            r.0.msg_id.0 == packed_id(old(self).id.0, old(self).counter),
            r.0.dest == dest,
            payload_eqv(r.0.payload, payload),
            r.0.timeout == backoff_timeout(0),
            r.0.attempts == 0,
            request_envelope_ok(old(self).id, dest, r.0.msg_id, payload, r.1),
    {
        let msg_id = self.generate_id();
        self.push_waiting(msg_id);
        let attempt_value = clone_payload(&payload);
        let env = Message {
            src: PeerId::Node(self.id),
            dest: PeerId::Node(dest),
            body: Body { msg_id: Some(msg_id), in_reply_to: None, value: attempt_value },
        };
        let rpc = Rpc { dest, payload, msg_id, timeout: INITIAL_TIMEOUT, attempts: 0 };
        (rpc, env)
    }

    /// Gives up on the current attempt of `rpc` after a timeout or a
    /// failed reply: abandons the stale waiting slot, doubles the
    /// timeout, and re-registers under a fresh correlation id, handing
    /// back the next attempt's envelope. A late reply to the abandoned id
    /// is from then on an unmatched reply to the dispatcher.
    pub fn rpc_retry(&mut self, rpc: &mut Rpc) -> (env: Message)
        requires
            old(self).wf(),
            old(self).counter < ID_HALF_LIMIT,
            old(rpc).timeout <= u64::MAX / 2,
            old(rpc).attempts < u64::MAX,
        ensures
            final(self).wf(),
            final(self).id == old(self).id,
            final(self).counter == old(self).counter + 1,
            final(self).seen == old(self).seen,
            final(self).topology == old(self).topology,
            final(self).waiting_set() == old(self).waiting_set().remove(old(rpc).msg_id).insert(
                final(rpc).msg_id,
            ),
            final(rpc).msg_id.0 == packed_id(old(self).id.0, old(self).counter),
            final(rpc).msg_id != old(rpc).msg_id ==> !old(self).waiting_set().remove(
                old(rpc).msg_id,
            ).contains(final(rpc).msg_id),
            final(rpc).dest == old(rpc).dest,
            final(rpc).payload == old(rpc).payload,
            final(rpc).timeout == 2 * old(rpc).timeout,
            final(rpc).attempts == old(rpc).attempts + 1,
            old(rpc).timeout == backoff_timeout(old(rpc).attempts as nat) ==> final(rpc).timeout
                == backoff_timeout(final(rpc).attempts as nat),
            request_envelope_ok(old(self).id, old(rpc).dest, final(rpc).msg_id, old(rpc).payload, env),
    {
        let _found = self.remove_waiting(rpc.msg_id);
        let msg_id = self.generate_id();
        self.push_waiting(msg_id);
        rpc.msg_id = msg_id;
        rpc.timeout = rpc.timeout * 2;
        rpc.attempts = rpc.attempts + 1;
        let attempt_value = clone_payload(&rpc.payload);
        Message {
            src: PeerId::Node(self.id),
            dest: PeerId::Node(rpc.dest),
            body: Body { msg_id: Some(msg_id), in_reply_to: None, value: attempt_value },
        }
    }
}

} // verus!
