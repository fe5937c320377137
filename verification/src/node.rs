//! The node engine: id generation, dispatching, and the gossip state.
//!
//! A `Node` holds the state the protocol handlers read and write: the
//! node's own id, the id-generation counter, the set of gossip values seen
//! so far, the neighbor topology, and the table of correlation ids with a
//! caller waiting for a reply. Every inbound envelope goes through
//! [`Node::handle_message`], whose outcome tells the surrounding process
//! what to emit; the process owns the queues, the clock and the tasks, and
//! performs the outcome.

use vstd::prelude::*;

use crate::ids::{MessageId, NodeId, PeerId};
use crate::protocol::{copy_topology, payload_eqv, topo_view, Body, ErrorCode, Message, Payload};

verus! {

/// One more than the largest numeric id or counter value that packs into
/// one half of a `MessageId`.
pub const ID_HALF_LIMIT: u64 = 0x1_0000_0000;

/// The 64-bit value of a generated id: the node's numeric id in the high
/// 32 bits, the per-node counter in the low 32 bits.
pub open spec fn packed_id(node: u64, counter: u64) -> int {
    node * 0x1_0000_0000 + counter
}

/// First neighbor listing for `k` in a topology, or empty when none is
/// listed.
pub open spec fn topo_lookup(t: Seq<(NodeId, Seq<NodeId>)>, k: NodeId) -> Seq<NodeId>
    decreases t.len(),
{
    if t.len() == 0 {
        Seq::empty()
    } else if t[0].0 == k {
        t[0].1
    } else {
        topo_lookup(t.drop_first(), k)
    }
}

pub struct Node {
    /// This node's own identifier, fixed at initialization.
    pub id: NodeId,
    /// Counts the ids generated so far by this node.
    pub counter: u64,
    /// Every gossip value seen so far, in first-seen order; grows
    /// monotonically, never shrinks.
    pub seen: Vec<MessageId>,
    /// The neighbor listing per node, replaced wholesale on each
    /// `Topology` message, never merged.
    pub topology: Vec<(NodeId, Vec<NodeId>)>,
    /// Correlation ids of outbound requests whose caller still waits for
    /// a reply.
    pub waiting: Vec<MessageId>,
}

impl Node {
    pub open spec fn seen_set(self) -> Set<MessageId> {
        self.seen@.to_set()
    }

    pub open spec fn waiting_set(self) -> Set<MessageId> {
        self.waiting@.to_set()
    }

    pub open spec fn topo(self) -> Seq<(NodeId, Seq<NodeId>)> {
        topo_view(self.topology@)
    }

    /// This node's own neighbor set under the current topology.
    pub open spec fn neighbors(self) -> Seq<NodeId> {
        topo_lookup(self.topo(), self.id)
    }

    /// Every id this node has ever generated is below this bound, and
    /// every id it will generate is at or above it.
    pub open spec fn next_id(self) -> int {
        packed_id(self.id.0, self.counter)
    }

    /// Well-formedness: id and counter fit their 32-bit halves, the seen
    /// and waiting listings hold no duplicates, and every waiting
    /// correlation id was generated earlier by this node.
    pub open spec fn wf(self) -> bool {
        &&& self.id.0 < ID_HALF_LIMIT
        &&& self.counter <= ID_HALF_LIMIT
        &&& self.seen@.no_duplicates()
        &&& self.waiting@.no_duplicates()
        &&& forall|m: MessageId| #[trigger] self.waiting@.contains(m) ==> m.0 < self.next_id()
    }

    /// A fresh node: counter at zero, nothing seen, no topology, nobody
    /// waiting.
    pub fn new(id: NodeId) -> (r: Node)
        requires
            id.0 < ID_HALF_LIMIT,
        ensures
            r.wf(),
            r.id == id,
            r.counter == 0,
            r.seen@ == Seq::<MessageId>::empty(),
            r.topology@ == Seq::<(NodeId, Vec<NodeId>)>::empty(),
            r.waiting@ == Seq::<MessageId>::empty(),
    {
        Node {
            id,
            counter: 0,
            seen: Vec::new(),
            topology: Vec::new(),
            waiting: Vec::new(),
        }
    }

    /// Reads and increments the per-node counter and packs it with the
    /// node id. Each call returns a value distinct from, and greater
    /// than, every earlier return on this node instance.
    pub fn generate_id(&mut self) -> (r: MessageId)
        requires
            old(self).wf(),
            old(self).counter < ID_HALF_LIMIT,
        ensures
            final(self).wf(),
            final(self).id == old(self).id,
            final(self).counter == old(self).counter + 1,
            final(self).seen == old(self).seen,
            final(self).topology == old(self).topology,
            final(self).waiting == old(self).waiting,
            r.0 == packed_id(old(self).id.0, old(self).counter),
            old(self).next_id() <= r.0 < final(self).next_id(),
    {
        let counter = self.counter;
        self.counter = counter + 1;
        proof {
            assert(self.id.0 * 0x1_0000_0000 + counter <= (0x1_0000_0000 - 1) * 0x1_0000_0000
                + counter);
        }
        let id: u64 = self.id.0 * 0x1_0000_0000 + counter;
        MessageId::new(id)
    }
}

proof fn lemma_to_set_push<A>(s: Seq<A>, v: A)
    ensures
        s.push(v).to_set() == s.to_set().insert(v),
{
    assert forall|x: A| s.push(v).to_set().contains(x) implies s.to_set().insert(v).contains(
        x,
    ) by {
        let i = choose|i: int| 0 <= i < s.push(v).len() && s.push(v)[i] == x;
        if i < s.len() {
            assert(s[i] == x);
        }
    }
    assert forall|x: A| s.to_set().insert(v).contains(x) implies s.push(v).to_set().contains(
        x,
    ) by {
        if x == v {
            assert(s.push(v)[s.len() as int] == x);
        } else {
            let i = choose|i: int| 0 <= i < s.len() && s[i] == x;
            assert(s.push(v)[i] == x);
        }
    }
    assert(s.push(v).to_set() =~= s.to_set().insert(v));
}

proof fn lemma_to_set_remove<A>(s: Seq<A>, i: int)
    requires
        0 <= i < s.len(),
        s.no_duplicates(),
    ensures
        s.remove(i).to_set() == s.to_set().remove(s[i]),
        s.remove(i).no_duplicates(),
{
    let v = s[i];
    let r = s.remove(i);
    assert(forall|k: int| 0 <= k < i ==> r[k] == s[k]);
    assert(forall|k: int| i <= k < r.len() ==> r[k] == s[k + 1]);
    assert forall|x: A| r.to_set().contains(x) implies s.to_set().remove(v).contains(x) by {
        let k = choose|k: int| 0 <= k < r.len() && r[k] == x;
        if k < i {
            assert(s[k] == x);
            assert(x != v);
        } else {
            assert(s[k + 1] == x);
            assert(x != v);
        }
    }
    assert forall|x: A| s.to_set().remove(v).contains(x) implies r.to_set().contains(x) by {
        let k = choose|k: int| 0 <= k < s.len() && s[k] == x;
        if k < i {
            assert(r[k] == x);
        } else {
            assert(k != i);
            assert(r[k - 1] == x);
        }
    }
    assert(r.to_set() =~= s.to_set().remove(v));
}

impl Node {
    /// Whether this node has already seen the gossip value `v`.
    pub fn has_seen(&self, v: MessageId) -> (r: bool)
        ensures
            r == self.seen_set().contains(v),
    {
        let mut i: usize = 0;
        while i < self.seen.len()
            invariant
                i <= self.seen@.len(),
                forall|k: int| 0 <= k < i ==> self.seen@[k] != v,
            decreases self.seen@.len() - i,
        {
            if self.seen[i].value() == v.value() {
                assert(self.seen@.contains(v));
                return true;
            }
            i = i + 1;
        }
        assert(!self.seen@.contains(v));
        false
    }

    /// Removes `id` from the waiting table if some caller waits on it,
    /// and reports whether one did.
    pub(crate) fn remove_waiting(&mut self, id: MessageId) -> (found: bool)
        requires
            old(self).wf(),
        ensures
            final(self).wf(),
            found == old(self).waiting_set().contains(id),
            final(self).waiting_set() == old(self).waiting_set().remove(id),
            !found ==> final(self).waiting == old(self).waiting,
            final(self).id == old(self).id,
            final(self).counter == old(self).counter,
            final(self).seen == old(self).seen,
            final(self).topology == old(self).topology,
    {
        let mut i: usize = 0;
        while i < self.waiting.len()
            invariant
                *self == *old(self),
                old(self).wf(),
                i <= self.waiting@.len(),
                forall|k: int| 0 <= k < i ==> self.waiting@[k] != id,
            decreases self.waiting@.len() - i,
        {
            if self.waiting[i].value() == id.value() {
                assert(self.waiting@.contains(id));
                proof {
                    lemma_to_set_remove(self.waiting@, i as int);
                }
                self.waiting.remove(i);
                proof {
                    assert forall|m: MessageId| #[trigger] self.waiting@.contains(m) implies m.0
                        < self.next_id() by {
                        assert(old(self).waiting@.to_set().remove(id).contains(m));
                        assert(old(self).waiting@.contains(m));
                    }
                }
                return true;
            }
            i = i + 1;
        }
        assert(!self.waiting@.contains(id));
        proof {
            assert(self.waiting_set() =~= self.waiting_set().remove(id));
        }
        false
    }

    /// Registers a fresh correlation id in the waiting table; the id must
    /// be one this node just generated, so it cannot collide with any
    /// waiting one.
    pub(crate) fn push_waiting(&mut self, id: MessageId)
        requires
            old(self).wf(),
            id.0 < old(self).next_id(),
            forall|m: MessageId| #[trigger] old(self).waiting@.contains(m) ==> m.0 < id.0,
        ensures
            final(self).wf(),
            final(self).id == old(self).id,
            final(self).counter == old(self).counter,
            final(self).seen == old(self).seen,
            final(self).topology == old(self).topology,
            final(self).waiting@ == old(self).waiting@.push(id),
            final(self).waiting_set() == old(self).waiting_set().insert(id),
            !old(self).waiting_set().contains(id),
    {
        proof {
            lemma_to_set_push(self.waiting@, id);
            assert(!self.waiting@.contains(id));
            let s = self.waiting@;
            assert forall|i: int, j: int|
                0 <= i < s.push(id).len() && 0 <= j < s.push(id).len() && i != j implies s.push(
                id,
            )[i] != s.push(id)[j] by {
                if i < s.len() && j < s.len() {
                } else if i == s.len() {
                    assert(s.push(id)[j] == s[j]);
                    assert(s.contains(s[j]));
                } else if j == s.len() {
                    assert(s.push(id)[i] == s[i]);
                    assert(s.contains(s[i]));
                }
            }
        }
        self.waiting.push(id);
        proof {
            assert forall|m: MessageId| #[trigger] self.waiting@.contains(m) implies m.0
                < self.next_id() by {
                if m != id {
                    assert(old(self).waiting_set().insert(id).contains(m));
                    assert(old(self).waiting@.contains(m));
                }
            }
        }
    }

    /// A snapshot of every gossip value seen so far, in first-seen order.
    pub fn seen_snapshot(&self) -> (r: Vec<MessageId>)
        ensures
            r@ == self.seen@,
    {
        let mut out: Vec<MessageId> = Vec::new();
        let mut i: usize = 0;
        while i < self.seen.len()
            invariant
                i <= self.seen@.len(),
                out@ == self.seen@.take(i as int),
            decreases self.seen@.len() - i,
        {
            out.push(self.seen[i]);
            i = i + 1;
            proof {
                assert(out@ =~= self.seen@.take(i as int));
            }
        }
        proof {
            assert(self.seen@.take(self.seen@.len() as int) =~= self.seen@);
        }
        out
    }

    /// This node's current neighbor listing, copied out of the topology.
    pub fn neighbors_snapshot(&self) -> (r: Vec<NodeId>)
        ensures
            r@ == self.neighbors(),
    {
        let ghost t = self.topo();
        proof {
            assert(t.skip(0) =~= t);
        }
        let mut i: usize = 0;
        while i < self.topology.len()
            invariant
                i <= self.topology@.len(),
                t == self.topo(),
                topo_lookup(t, self.id) == topo_lookup(t.skip(i as int), self.id),
                forall|k: int| 0 <= k < i ==> t[k].0 != self.id,
            decreases self.topology@.len() - i,
        {
            let entry = &self.topology[i];
            assert(t[i as int] == (entry.0, entry.1@));
            if entry.0.value() == self.id.value() {
                assert(t.skip(i as int)[0] == t[i as int]);
                assert(topo_lookup(t.skip(i as int), self.id) == entry.1@);
                let mut out: Vec<NodeId> = Vec::new();
                let mut j: usize = 0;
                while j < entry.1.len()
                    invariant
                        j <= entry.1@.len(),
                        out@ == entry.1@.take(j as int),
                    decreases entry.1@.len() - j,
                {
                    out.push(entry.1[j]);
                    j = j + 1;
                    proof {
                        assert(out@ =~= entry.1@.take(j as int));
                    }
                }
                proof {
                    assert(entry.1@.take(entry.1@.len() as int) =~= entry.1@);
                }
                return out;
            }
            proof {
                assert(t.skip(i as int).drop_first() =~= t.skip(i + 1));
                assert(t.skip(i as int)[0] == t[i as int]);
            }
            i = i + 1;
        }
        proof {
            assert(t.skip(self.topology@.len() as int) =~= Seq::<(NodeId, Seq<NodeId>)>::empty());
        }
        Vec::new()
    }
}

/// `t` with every occurrence of `s` left out, order otherwise kept.
pub open spec fn exclude(t: Seq<NodeId>, s: NodeId) -> Seq<NodeId>
    decreases t.len(),
{
    if t.len() == 0 {
        Seq::empty()
    } else if t.last() == s {
        exclude(t.drop_last(), s)
    } else {
        exclude(t.drop_last(), s).push(t.last())
    }
}

/// Membership in an exclusion: exactly the members of `t` other than `s`.
pub proof fn lemma_exclude_membership(t: Seq<NodeId>, s: NodeId)
    ensures
        forall|x: NodeId| #![trigger exclude(t, s).contains(x)]
            exclude(t, s).contains(x) <==> t.contains(x) && x != s,
    decreases t.len(),
{
    if t.len() > 0 {
        lemma_exclude_membership(t.drop_last(), s);
        assert forall|x: NodeId| t.contains(x) && x != s implies exclude(t, s).contains(x) by {
            let i = choose|i: int| 0 <= i < t.len() && t[i] == x;
            if i < t.len() - 1 {
                assert(t.drop_last()[i] == x);
                assert(t.drop_last().contains(x));
                assert(exclude(t.drop_last(), s).contains(x));
                if t.last() != s {
                    let j = choose|j: int|
                        0 <= j < exclude(t.drop_last(), s).len() && exclude(t.drop_last(), s)[j]
                            == x;
                    assert(exclude(t, s)[j] == x);
                }
            } else {
                assert(t.last() == x);
                assert(exclude(t, s).last() == x);
            }
        }
        assert forall|x: NodeId| exclude(t, s).contains(x) implies t.contains(x) && x != s by {
            let e = exclude(t, s);
            let i = choose|i: int| 0 <= i < e.len() && e[i] == x;
            if t.last() == s {
                assert(exclude(t.drop_last(), s).contains(x));
                assert(t.drop_last().contains(x));
                let j = choose|j: int| 0 <= j < t.len() - 1 && t.drop_last()[j] == x;
                assert(t[j] == x);
            } else {
                if i < e.len() - 1 {
                    assert(exclude(t.drop_last(), s)[i] == x);
                    assert(exclude(t.drop_last(), s).contains(x));
                    assert(t.drop_last().contains(x));
                    let j = choose|j: int| 0 <= j < t.len() - 1 && t.drop_last()[j] == x;
                    assert(t[j] == x);
                } else {
                    assert(x == t.last());
                    assert(t[t.len() - 1] == x);
                }
            }
        }
    }
}

/// The neighbors one broadcast handling pass sends the value on to: empty
/// when the value was already seen; otherwise all neighbors, less the
/// sender when the sender is itself a node.
pub open spec fn fanout_spec(
    neighbors: Seq<NodeId>,
    sender: PeerId,
    seen: Set<MessageId>,
    v: MessageId,
) -> Seq<NodeId> {
    if seen.contains(v) {
        Seq::empty()
    } else {
        match sender {
            PeerId::Node(s) => exclude(neighbors, s),
            _ => neighbors,
        }
    }
}

impl Node {
    /// Deduplicating broadcast step: records the value and names the
    /// neighbors to flood it to. A value seen before changes nothing and
    /// floods to nobody, which is what bounds the flood on a cyclic
    /// neighbor graph.
    pub fn on_broadcast(&mut self, sender: PeerId, value: MessageId) -> (fanout: Vec<NodeId>)
        requires
            old(self).wf(),
        ensures
            final(self).wf(),
            final(self).id == old(self).id,
            final(self).counter == old(self).counter,
            final(self).topology == old(self).topology,
            final(self).waiting == old(self).waiting,
            final(self).seen_set() == old(self).seen_set().insert(value),
            old(self).seen_set().contains(value) ==> final(self).seen == old(self).seen,
            !old(self).seen_set().contains(value) ==> final(self).seen@ == old(
                self,
            ).seen@.push(value),
            fanout@ == fanout_spec(old(self).neighbors(), sender, old(self).seen_set(), value),
    {
        if self.has_seen(value) {
            proof {
                assert(self.seen_set().insert(value) =~= self.seen_set());
            }
            return Vec::new();
        }
        proof {
            lemma_to_set_push(self.seen@, value);
            assert(!self.seen@.contains(value));
        }
        self.seen.push(value);
        proof {
            let s = old(self).seen@;
            assert forall|i: int, j: int|
                0 <= i < self.seen@.len() && 0 <= j < self.seen@.len() && i != j implies self.seen@[i]
                != self.seen@[j] by {
                if i < s.len() && j < s.len() {
                } else if i == s.len() {
                    assert(self.seen@[j] == s[j]);
                    assert(!s.contains(value));
                } else if j == s.len() {
                    assert(self.seen@[i] == s[i]);
                    assert(!s.contains(value));
                }
            }
        }
        let neigh = self.neighbors_snapshot();
        match sender {
            PeerId::Node(s) => {
                let mut out: Vec<NodeId> = Vec::new();
                let mut j: usize = 0;
                proof {
                    assert(neigh@.take(0) =~= Seq::<NodeId>::empty());
                }
                while j < neigh.len()
                    invariant
                        j <= neigh@.len(),
                        out@ == exclude(neigh@.take(j as int), s),
                    decreases neigh@.len() - j,
                {
                    let n = neigh[j];
                    proof {
                        assert(neigh@.take(j + 1).drop_last() =~= neigh@.take(j as int));
                        assert(neigh@.take(j + 1).last() == neigh@[j as int]);
                    }
                    if n.value() != s.value() {
                        out.push(n);
                    }
                    j = j + 1;
                }
                proof {
                    assert(neigh@.take(neigh@.len() as int) =~= neigh@);
                }
                out
            },
            _ => neigh,
        }
    }
}

/// Broadcast idempotence: handling the same value a second time leaves
/// the seen set as it was and fans out to nobody.
pub proof fn lemma_broadcast_idempotent(
    neighbors: Seq<NodeId>,
    sender: PeerId,
    seen: Set<MessageId>,
    v: MessageId,
)
    ensures
        seen.insert(v).insert(v) == seen.insert(v),
        fanout_spec(neighbors, sender, seen.insert(v), v) == Seq::<NodeId>::empty(),
{
    assert(seen.insert(v).insert(v) =~= seen.insert(v));
}

/// One-hop loop suppression: a broadcast that arrived from a node is
/// never sent back to that node, and goes to every other neighbor.
pub proof fn lemma_loop_suppression(
    neighbors: Seq<NodeId>,
    s: NodeId,
    seen: Set<MessageId>,
    v: MessageId,
)
    ensures
        !fanout_spec(neighbors, PeerId::Node(s), seen, v).contains(s),
        !seen.contains(v) ==> forall|x: NodeId|
            fanout_spec(neighbors, PeerId::Node(s), seen, v).contains(x) <==> neighbors.contains(x)
                && x != s,
{
    if seen.contains(v) {
        assert(!Seq::<NodeId>::empty().contains(s));
    } else {
        lemma_exclude_membership(neighbors, s);
        assert(exclude(neighbors, s).contains(s) <==> neighbors.contains(s) && s != s);
    }
}

/// A client-originated broadcast of a fresh value fans out to the full
/// neighbor set, with no exclusion.
pub proof fn lemma_client_fanout_full(
    neighbors: Seq<NodeId>,
    c: crate::ids::ClientId,
    seen: Set<MessageId>,
    v: MessageId,
)
    requires
        !seen.contains(v),
    ensures
        fanout_spec(neighbors, PeerId::Client(c), seen, v) == neighbors,
{
}

/// A correct reply to `req`: addressed back to its source, no `msg_id` of
/// its own, `in_reply_to` echoing the request's `msg_id`, and carrying a
/// payload equivalent to `p`. A request without a `msg_id` expects, and
/// gets, no reply.
pub open spec fn replies_with(me: NodeId, req: Message, r: Option<Message>, p: Payload) -> bool {
    match req.body.msg_id {
        Some(mid) => {
            &&& r matches Some(rep)
            &&& rep.src == PeerId::Node(me)
            &&& rep.dest == req.src
            &&& rep.body.msg_id is None
            &&& rep.body.in_reply_to == Some(mid)
            &&& payload_eqv(rep.body.value, p)
        },
        None => r is None,
    }
}

/// As `replies_with`, for an `Error` payload with the given code and
/// text.
pub open spec fn replies_error(
    me: NodeId,
    req: Message,
    r: Option<Message>,
    code: ErrorCode,
    text: Seq<char>,
) -> bool {
    match req.body.msg_id {
        Some(mid) => {
            &&& r matches Some(rep)
            &&& rep.src == PeerId::Node(me)
            &&& rep.dest == req.src
            &&& rep.body.msg_id is None
            &&& rep.body.in_reply_to == Some(mid)
            &&& rep.body.value matches Payload::Error { code: c, text: t }
            &&& c == code
            &&& t@ == text
        },
        None => r is None,
    }
}

proof fn lemma_payload_eqv_refl(p: Payload)
    ensures
        payload_eqv(p, p),
{
}

impl Node {
    /// Builds the reply to `req` carrying `value`, or nothing when `req`
    /// carried no `msg_id` and so expects no reply.
    pub fn reply(&self, req: &Message, value: Payload) -> (r: Option<Message>)
        ensures
            replies_with(self.id, *req, r, value),
    {
        proof {
            lemma_payload_eqv_refl(value);
        }
        match req.body.msg_id {
            Some(mid) => Some(
                Message {
                    src: PeerId::Node(self.id),
                    dest: req.src,
                    body: Body { msg_id: None, in_reply_to: Some(mid), value },
                },
            ),
            None => None,
        }
    }

    /// Builds a fire-and-forget envelope to a peer node: no correlation
    /// fields, so no reply is expected.
    pub fn broadcast(&self, dest: NodeId, value: Payload) -> (r: Message)
        ensures
            r.src == PeerId::Node(self.id),
            r.dest == PeerId::Node(dest),
            r.body.msg_id is None,
            r.body.in_reply_to is None,
            r.body.value == value,
    {
        Message {
            src: PeerId::Node(self.id),
            dest: PeerId::Node(dest),
            body: Body { msg_id: None, in_reply_to: None, value },
        }
    }
}

/// What one dispatched envelope asks the surrounding process to do.
#[derive(Debug)]
pub enum Outcome {
    /// The envelope was not addressed to this node: discard it; another
    /// node should answer it.
    Ignored,
    /// The envelope answers the outstanding request `waiter`: hand the
    /// envelope to that waiting caller, and to no one else.
    Deliver { waiter: MessageId },
    /// A request was handled locally: emit the reply, if one is owed.
    Replied { reply: Option<Message> },
    /// A broadcast was handled: emit the reply first, then flood `value`
    /// to each node in `fanout` with a reliable acknowledged send.
    Broadcasted { reply: Option<Message>, value: MessageId, fanout: Vec<NodeId> },
}

/// Full account of one dispatcher pass: how the node state may change and
/// which outcome is handed back, for every shape of inbound envelope.
pub open spec fn dispatch_ok(pre: Node, msg: Message, post: Node, out: Outcome) -> bool {
    if msg.dest != PeerId::Node(pre.id) {
        &&& post == pre
        &&& out is Ignored
    } else if msg.body.in_reply_to is Some {
        let irt = msg.body.in_reply_to->Some_0;
        if pre.waiting_set().contains(irt) {
            &&& out matches Outcome::Deliver { waiter } && waiter == irt
            &&& post.id == pre.id
            &&& post.counter == pre.counter
            &&& post.seen == pre.seen
            &&& post.topology == pre.topology
            &&& post.waiting_set() == pre.waiting_set().remove(irt)
        } else {
            &&& post == pre
            &&& out matches Outcome::Replied { reply } && replies_error(
                pre.id,
                msg,
                reply,
                ErrorCode::PreconditionFailed,
                "Got a reply to a message that was not sent"@,
            )
        }
    } else {
        match msg.body.value {
            Payload::Echo { echo } => {
                &&& post == pre
                &&& out matches Outcome::Replied { reply } && replies_with(
                    pre.id,
                    msg,
                    reply,
                    Payload::EchoOk { echo },
                )
            },
            Payload::Generate {  } => {
                &&& post.id == pre.id
                &&& post.counter == pre.counter + 1
                &&& post.seen == pre.seen
                &&& post.topology == pre.topology
                &&& post.waiting == pre.waiting
                &&& out matches Outcome::Replied { reply } && replies_with(
                    pre.id,
                    msg,
                    reply,
                    Payload::GenerateOk { id: MessageId(packed_id(pre.id.0, pre.counter) as u64) },
                )
            },
            Payload::Broadcast { message } => {
                &&& post.id == pre.id
                &&& post.counter == pre.counter
                &&& post.topology == pre.topology
                &&& post.waiting == pre.waiting
                &&& post.seen_set() == pre.seen_set().insert(message)
                &&& out matches Outcome::Broadcasted { reply, value, fanout } && value == message
                    && replies_with(pre.id, msg, reply, Payload::BroadcastOk {  }) && fanout@
                    == fanout_spec(pre.neighbors(), msg.src, pre.seen_set(), message)
            },
            Payload::Read {  } => {
                &&& post == pre
                &&& out matches Outcome::Replied { reply } && replies_with(
                    pre.id,
                    msg,
                    reply,
                    Payload::ReadOk { messages: pre.seen },
                )
            },
            Payload::Topology { topology } => {
                &&& post.id == pre.id
                &&& post.counter == pre.counter
                &&& post.seen == pre.seen
                &&& post.waiting == pre.waiting
                &&& topo_view(post.topology@) == topo_view(topology@)
                &&& out matches Outcome::Replied { reply } && replies_with(
                    pre.id,
                    msg,
                    reply,
                    Payload::TopologyOk {  },
                )
            },
            _ => {
                &&& post == pre
                &&& out matches Outcome::Replied { reply } && replies_error(
                    pre.id,
                    msg,
                    reply,
                    ErrorCode::NotSupported,
                    "Not supported"@,
                )
            },
        }
    }
}

impl Node {
    /// The single entry point for every inbound envelope: discards what
    /// is not addressed here, routes a reply to the caller waiting on its
    /// correlation id (answering an unmatched reply with an error), and
    /// routes a fresh request to its handler, with the explicit
    /// not-supported fallback for request kinds this node does not serve.
    pub fn handle_message(&mut self, msg: &Message) -> (out: Outcome)
        requires
            old(self).wf(),
            old(self).counter < ID_HALF_LIMIT,
        ensures
            final(self).wf(),
            dispatch_ok(*old(self), *msg, *final(self), out),
    {
        if !(msg.dest == PeerId::Node(self.id)) {
            return Outcome::Ignored;
        }
        match msg.body.in_reply_to {
            Some(irt) => {
                if self.remove_waiting(irt) {
                    Outcome::Deliver { waiter: irt }
                } else {
                    Outcome::Replied {
                        reply: self.reply(
                            msg,
                            Payload::Error {
                                code: ErrorCode::PreconditionFailed,
                                text: "Got a reply to a message that was not sent".to_owned(),
                            },
                        ),
                    }
                }
            },
            None => match &msg.body.value {
                Payload::Echo { echo } => Outcome::Replied {
                    reply: self.reply(msg, Payload::EchoOk { echo: echo.clone() }),
                },
                Payload::Generate {  } => {
                    let id = self.generate_id();
                    Outcome::Replied { reply: self.reply(msg, Payload::GenerateOk { id }) }
                },
                Payload::Broadcast { message } => {
                    let value = *message;
                    let fanout = self.on_broadcast(msg.src, value);
                    let reply = self.reply(msg, Payload::BroadcastOk {  });
                    Outcome::Broadcasted { reply, value, fanout }
                },
                Payload::Read {  } => {
                    let messages = self.seen_snapshot();
                    Outcome::Replied { reply: self.reply(msg, Payload::ReadOk { messages }) }
                },
                Payload::Topology { topology } => {
                    let t = copy_topology(topology);
                    self.topology = t;
                    Outcome::Replied { reply: self.reply(msg, Payload::TopologyOk {  }) }
                },
                _ => Outcome::Replied {
                    reply: self.reply(
                        msg,
                        Payload::Error {
                            code: ErrorCode::NotSupported,
                            text: "Not supported".to_owned(),
                        },
                    ),
                },
            },
        }
    }
}

/// Handles the startup message: the first inbound message must carry
/// `Init`, and is answered with `InitOk` directly to its sender while the
/// process takes on the given node id. Any other payload leaves the
/// process in its wait-for-init state, as does a node id too large to
/// pack into the high half of a generated id.
pub fn on_init(msg: &Message) -> (r: Option<(Node, Message)>)
    ensures
        match msg.body.value {
            Payload::Init { node_id, node_ids } => {
                if node_id.0 < ID_HALF_LIMIT {
                    r matches Some(p) && p.0.wf() && p.0.id == node_id && p.0.counter == 0
                        && p.0.seen@.len() == 0 && p.0.topology@.len() == 0 && p.0.waiting@.len()
                        == 0 && p.1.src == PeerId::Node(node_id) && p.1.dest == msg.src
                        && p.1.body.msg_id is None && p.1.body.in_reply_to == msg.body.msg_id
                        && p.1.body.value matches Payload::InitOk {  }
                } else {
                    r is None
                }
            },
            _ => r is None,
        },
{
    match &msg.body.value {
        Payload::Init { node_id, node_ids: _ } => {
            let nid = *node_id;
            if nid.value() < ID_HALF_LIMIT {
                let node = Node::new(nid);
                let rep = Message {
                    src: PeerId::Node(nid),
                    dest: msg.src,
                    body: Body {
                        msg_id: None,
                        in_reply_to: msg.body.msg_id,
                        value: Payload::InitOk {  },
                    },
                };
                Some((node, rep))
            } else {
                None
            }
        },
        _ => None,
    }
}

/// The gossip-seen set grows monotonically: no dispatcher pass, whatever
/// the envelope, ever removes a value from it.
pub proof fn lemma_seen_monotone(pre: Node, msg: Message, post: Node, out: Outcome)
    requires
        dispatch_ok(pre, msg, post, out),
    ensures
        forall|v: MessageId| pre.seen_set().contains(v) ==> #[trigger] post.seen_set().contains(v),
{
}

/// Ids generated by one node are strictly increasing in the order of
/// generation, hence all distinct: a later counter value packs to a
/// strictly larger id.
pub proof fn lemma_generated_ids_strictly_increasing(node: u64, c1: u64, c2: u64)
    requires
        node < ID_HALF_LIMIT,
        c1 < c2,
    ensures
        packed_id(node, c1) < packed_id(node, c2),
        packed_id(node, c1) != packed_id(node, c2),
{
}

/// Two nodes with distinct numeric ids can never generate the same id:
/// the high 32 bits of their ids never collide while counters stay within
/// 32 bits.
pub proof fn lemma_distinct_nodes_never_collide(n1: u64, c1: u64, n2: u64, c2: u64)
    requires
        n1 < ID_HALF_LIMIT,
        n2 < ID_HALF_LIMIT,
        c1 < ID_HALF_LIMIT,
        c2 < ID_HALF_LIMIT,
        n1 != n2,
    ensures
        packed_id(n1, c1) / 0x1_0000_0000 != packed_id(n2, c2) / 0x1_0000_0000,
        packed_id(n1, c1) != packed_id(n2, c2),
{
    vstd::arithmetic::div_mod::lemma_fundamental_div_mod_converse(
        packed_id(n1, c1),
        0x1_0000_0000,
        n1 as int,
        c1 as int,
    );
    vstd::arithmetic::div_mod::lemma_fundamental_div_mod_converse(
        packed_id(n2, c2),
        0x1_0000_0000,
        n2 as int,
        c2 as int,
    );
}

} // verus!
