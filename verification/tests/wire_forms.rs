use maelstrom_node::ids::{ClientId, NodeId, PeerId, Store};
use maelstrom_node::wire::{
    client_wire, node_wire, parse_dec_u64, parse_peer_id, parse_store, peer_wire, store_wire,
};

#[test]
fn node_id_prints_with_prefix() {
    assert_eq!(node_wire(NodeId::new(0)), b"n0".to_vec());
    assert_eq!(node_wire(NodeId::new(7)), b"n7".to_vec());
    assert_eq!(node_wire(NodeId::new(12345)), b"n12345".to_vec());
    assert_eq!(
        node_wire(NodeId::new(u64::MAX)),
        b"n18446744073709551615".to_vec()
    );
}

#[test]
fn client_id_prints_with_prefix() {
    assert_eq!(client_wire(ClientId::new(0)), b"c0".to_vec());
    assert_eq!(client_wire(ClientId::new(901)), b"c901".to_vec());
}

#[test]
fn store_names_print_exactly() {
    assert_eq!(store_wire(Store::SeqKv), b"seq-kv".to_vec());
    assert_eq!(store_wire(Store::LinKv), b"lin-kv".to_vec());
}

#[test]
fn every_peer_form_round_trips() {
    let peers = [
        PeerId::Node(NodeId::new(0)),
        PeerId::Node(NodeId::new(42)),
        PeerId::Node(NodeId::new(u64::MAX)),
        PeerId::Client(ClientId::new(1)),
        PeerId::Client(ClientId::new(987654321)),
        PeerId::Store(Store::SeqKv),
        PeerId::Store(Store::LinKv),
    ];
    for p in peers {
        let text = peer_wire(p);
        assert_eq!(parse_peer_id(&text), Ok(p));
    }
}

#[test]
fn parse_accepts_leading_zeros() {
    assert_eq!(
        parse_peer_id(b"n007"),
        Ok(PeerId::Node(NodeId::new(7)))
    );
    assert_eq!(
        parse_peer_id(b"c000"),
        Ok(PeerId::Client(ClientId::new(0)))
    );
}

#[test]
fn parse_rejects_ill_formed_ids() {
    assert!(parse_peer_id(b"").is_err());
    assert!(parse_peer_id(b"n").is_err());
    assert!(parse_peer_id(b"c").is_err());
    assert!(parse_peer_id(b"n12x").is_err());
    assert!(parse_peer_id(b"x12").is_err());
    assert!(parse_peer_id(b"seq-kv2").is_err());
    assert!(parse_peer_id(b"lin-k").is_err());
    // One digit past the largest u64.
    assert!(parse_peer_id(b"n18446744073709551616").is_err());
}

#[test]
fn parse_store_names() {
    assert_eq!(parse_store(b"seq-kv"), Ok(Store::SeqKv));
    assert_eq!(parse_store(b"lin-kv"), Ok(Store::LinKv));
    assert!(parse_store(b"seq-kV").is_err());
    assert!(parse_store(b"").is_err());
}

#[test]
fn store_parses_from_str() {
    assert_eq!("seq-kv".parse::<Store>(), Ok(Store::SeqKv));
    assert_eq!("lin-kv".parse::<Store>(), Ok(Store::LinKv));
    assert!("seq-kv ".parse::<Store>().is_err());
}

#[test]
fn conversions_between_id_types() {
    assert_eq!(NodeId::from(5), NodeId::new(5));
    assert_eq!(u64::from(NodeId::new(5)), 5);
    assert_eq!(PeerId::from(NodeId::new(5)), PeerId::Node(NodeId::new(5)));
    assert_eq!(PeerId::from(Store::LinKv), PeerId::Store(Store::LinKv));
}

#[test]
fn decimal_parse_bounds() {
    assert_eq!(parse_dec_u64(b"0", 0), Some(0));
    assert_eq!(parse_dec_u64(b"18446744073709551615", 0), Some(u64::MAX));
    assert_eq!(parse_dec_u64(b"18446744073709551616", 0), None);
    assert_eq!(parse_dec_u64(b"", 0), None);
    assert_eq!(parse_dec_u64(b"1 2", 0), None);
    assert_eq!(parse_dec_u64(b"n42", 1), Some(42));
}
