use std::collections::VecDeque;

use maelstrom_node::ids::{ClientId, MessageId, NodeId, PeerId};
use maelstrom_node::node::{Node, Outcome};
use maelstrom_node::protocol::{Body, Message, Payload};

fn topology_payload() -> Payload {
    let all = [1u64, 2, 3];
    Payload::Topology {
        topology: all
            .iter()
            .map(|k| {
                (
                    NodeId::new(*k),
                    all.iter()
                        .filter(|v| **v != *k)
                        .map(|v| NodeId::new(*v))
                        .collect(),
                )
            })
            .collect(),
    }
}

fn node_index(nodes: &[Node], id: NodeId) -> usize {
    nodes.iter().position(|n| n.id == id).expect("known node")
}

/// Three fully connected nodes; the topology goes to all three, then a
/// client broadcasts the value 42 to the first. Every envelope of the
/// resulting flood is delivered (in order, one queue, no losses); at the
/// end every node's read set holds 42 exactly once, and no node has sent
/// more than one broadcast of the value per neighbor.
#[test]
fn three_node_flood_converges_without_echoes() {
    let mut nodes = vec![
        Node::new(NodeId::new(1)),
        Node::new(NodeId::new(2)),
        Node::new(NodeId::new(3)),
    ];

    // Install the full topology on all three nodes.
    for own in [1u64, 2, 3] {
        let msg = Message {
            src: PeerId::Client(ClientId::new(9)),
            dest: PeerId::Node(NodeId::new(own)),
            body: Body {
                msg_id: Some(MessageId::new(own)),
                in_reply_to: None,
                value: topology_payload(),
            },
        };
        let idx = node_index(&nodes, NodeId::new(own));
        match nodes[idx].handle_message(&msg) {
            Outcome::Replied { reply: Some(rep) } => {
                assert!(matches!(rep.body.value, Payload::TopologyOk {}))
            }
            other => panic!("expected TopologyOk, got {:?}", other),
        }
    }

    // The client broadcasts 42 to the first node; the flood then runs to
    // quiescence over a single delivery queue.
    let mut queue: VecDeque<Message> = VecDeque::new();
    queue.push_back(Message {
        src: PeerId::Client(ClientId::new(9)),
        dest: PeerId::Node(NodeId::new(1)),
        body: Body {
            msg_id: Some(MessageId::new(100)),
            in_reply_to: None,
            value: Payload::Broadcast {
                message: MessageId::new(42),
            },
        },
    });

    // sends[i][j]: broadcasts of 42 the node at index i addressed to node j+1.
    let mut sends = [[0usize; 3]; 3];
    let mut steps = 0usize;
    while let Some(msg) = queue.pop_front() {
        steps += 1;
        assert!(steps < 100, "the flood must terminate");
        let dest = match msg.dest {
            PeerId::Node(n) => n,
            other => panic!("only nodes receive envelopes here, got {:?}", other),
        };
        let idx = node_index(&nodes, dest);
        match nodes[idx].handle_message(&msg) {
            Outcome::Ignored => panic!("every envelope here is addressed correctly"),
            Outcome::Deliver { .. } => {
                // An acknowledged fan-out send completed; nothing to emit.
            }
            Outcome::Replied { .. } => {
                // Replies to the client or acknowledgements need no routing
                // in this harness.
            }
            Outcome::Broadcasted { reply, value, fanout } => {
                assert!(reply.is_some());
                assert_eq!(value, MessageId::new(42));
                for neighbor in fanout {
                    sends[idx][(neighbor.value() - 1) as usize] += 1;
                    let (rpc, env) = nodes[idx].rpc_start(
                        neighbor,
                        Payload::Broadcast { message: value },
                    );
                    // The harness delivers reliably: one attempt is enough.
                    queue.push_back(env);
                    queue.push_back(Message {
                        src: PeerId::Node(neighbor),
                        dest: PeerId::Node(dest),
                        body: Body {
                            msg_id: None,
                            in_reply_to: Some(rpc.msg_id),
                            value: Payload::BroadcastOk {},
                        },
                    });
                }
            }
        }
    }

    // Every node has seen 42 exactly once.
    for node in &nodes {
        let values: Vec<u64> = node.seen.iter().map(|m| m.value()).collect();
        assert_eq!(values, vec![42]);
    }

    // No node sent more than one broadcast of the value to any neighbor,
    // and nobody sent the value back to the node it came from.
    for (i, row) in sends.iter().enumerate() {
        for (j, count) in row.iter().enumerate() {
            assert!(*count <= 1, "node {} sent {} copies to node {}", i + 1, count, j + 1);
            assert!(i != j || *count == 0);
        }
    }
    // The first node fanned out to both neighbors.
    assert_eq!(sends[0], [0, 1, 1]);
    // Nobody echoed the value back to the first node.
    assert_eq!(sends[1][0], 0);
    assert_eq!(sends[2][0], 0);
}
