use maelstrom_node::ids::{MessageId, NodeId, PeerId};
use maelstrom_node::node::{Node, Outcome};
use maelstrom_node::protocol::{Body, Message, Payload};
use maelstrom_node::rpc::payload_is_broadcast_ok;

fn ack_of(attempt: &Message) -> Message {
    Message {
        src: attempt.dest,
        dest: attempt.src,
        body: Body {
            msg_id: None,
            in_reply_to: attempt.body.msg_id,
            value: Payload::BroadcastOk {},
        },
    }
}

/// A peer that drops the first two attempts and acknowledges the third:
/// the send succeeds on the third attempt, after 16 + 32 time units spent
/// waiting on the dropped ones, and each retry runs under a fresh
/// correlation id whose late replies would be unmatched.
#[test]
fn send_succeeds_on_third_attempt_after_exponential_backoff() {
    let mut node = Node::new(NodeId::new(1));
    let payload = Payload::Broadcast {
        message: MessageId::new(42),
    };
    let (mut rpc, first) = node.rpc_start(NodeId::new(2), payload);
    assert_eq!(first.dest, PeerId::Node(NodeId::new(2)));
    assert_eq!(first.body.msg_id, Some(rpc.msg_id));
    assert_eq!(rpc.timeout, 16);

    // Attempt one: dropped; its timeout elapses.
    let mut waited = rpc.timeout;
    let first_id = rpc.msg_id;
    let second = node.rpc_retry(&mut rpc);
    assert_eq!(rpc.timeout, 32);
    assert_ne!(rpc.msg_id, first_id);
    assert_eq!(second.body.msg_id, Some(rpc.msg_id));

    // Attempt two: dropped as well.
    waited += rpc.timeout;
    let second_id = rpc.msg_id;
    let third = node.rpc_retry(&mut rpc);
    assert_eq!(rpc.timeout, 64);
    assert_ne!(rpc.msg_id, second_id);

    // The elapsed wait before the successful attempt is exactly 16 + 32.
    assert_eq!(waited, 48);
    assert_eq!(rpc.attempts, 2);

    // Attempt three: the peer acknowledges; the dispatcher resolves the
    // one waiting slot and the success predicate accepts the payload.
    let ack = ack_of(&third);
    match node.handle_message(&ack) {
        Outcome::Deliver { waiter } => assert_eq!(waiter, rpc.msg_id),
        other => panic!("expected the ack to reach the waiter, got {:?}", other),
    }
    assert!(payload_is_broadcast_ok(&ack.body.value));

    // A late reply to an abandoned attempt is now unmatched.
    let late = Message {
        src: PeerId::Node(NodeId::new(2)),
        dest: PeerId::Node(NodeId::new(1)),
        body: Body {
            msg_id: Some(MessageId::new(900)),
            in_reply_to: Some(first_id),
            value: Payload::BroadcastOk {},
        },
    };
    match node.handle_message(&late) {
        Outcome::Replied { reply: Some(rep) } => {
            assert!(matches!(rep.body.value, Payload::Error { .. }));
        }
        other => panic!("expected an unmatched-reply error, got {:?}", other),
    }
}

#[test]
fn a_failed_reply_is_not_success() {
    assert!(!payload_is_broadcast_ok(&Payload::Error {
        code: maelstrom_node::protocol::ErrorCode::Timeout,
        text: "slow".to_string(),
    }));
    assert!(!payload_is_broadcast_ok(&Payload::ReadOk { messages: vec![] }));
    assert!(payload_is_broadcast_ok(&Payload::BroadcastOk {}));
}

#[test]
fn concurrent_sends_use_distinct_slots() {
    let mut node = Node::new(NodeId::new(1));
    let (rpc_a, env_a) = node.rpc_start(
        NodeId::new(2),
        Payload::Broadcast {
            message: MessageId::new(1),
        },
    );
    let (rpc_b, env_b) = node.rpc_start(
        NodeId::new(3),
        Payload::Broadcast {
            message: MessageId::new(2),
        },
    );
    assert_ne!(rpc_a.msg_id, rpc_b.msg_id);

    // Resolving one slot leaves the other waiting.
    let ack_b = ack_of(&env_b);
    match node.handle_message(&ack_b) {
        Outcome::Deliver { waiter } => assert_eq!(waiter, rpc_b.msg_id),
        other => panic!("expected delivery to the second caller, got {:?}", other),
    }
    let ack_a = ack_of(&env_a);
    match node.handle_message(&ack_a) {
        Outcome::Deliver { waiter } => assert_eq!(waiter, rpc_a.msg_id),
        other => panic!("expected delivery to the first caller, got {:?}", other),
    }
}
