use saf_relay::broadcast_strategy::{BroadcastClosestRequest, BroadcastStrategy};

fn public_key() -> Vec<u8> {
    vec![0u8; 32]
}

fn node_id() -> Vec<u8> {
    vec![0u8; 13]
}

#[test]
fn is_direct() {
    assert!(BroadcastStrategy::DirectPublicKey(public_key()).is_direct());
    assert!(BroadcastStrategy::DirectNodeId(node_id()).is_direct());
    assert_eq!(BroadcastStrategy::Neighbours(Default::default()).is_direct(), false);
    assert_eq!(BroadcastStrategy::Flood.is_direct(), false);
    assert_eq!(
        BroadcastStrategy::Closest(Box::new(BroadcastClosestRequest {
            node_id: node_id(),
            n: 0,
            excluded_peers: Default::default()
        }))
        .is_direct(),
        false
    );
    assert_eq!(BroadcastStrategy::Random(0).is_direct(), false);
}

#[test]
fn direct_public_key() {
    assert!(BroadcastStrategy::DirectPublicKey(public_key())
        .direct_public_key()
        .is_some());
    assert!(BroadcastStrategy::DirectNodeId(node_id())
        .direct_public_key()
        .is_none());
    assert!(BroadcastStrategy::Neighbours(Default::default())
        .direct_public_key()
        .is_none());
    assert!(BroadcastStrategy::Flood.direct_public_key().is_none());
    assert!(BroadcastStrategy::Closest(Box::new(BroadcastClosestRequest {
        node_id: node_id(),
        n: 0,
        excluded_peers: Default::default()
    }))
    .direct_public_key()
    .is_none(),);
    assert!(BroadcastStrategy::Random(0).direct_public_key().is_none(), "false");
}

#[test]
fn direct_node_id() {
    assert!(BroadcastStrategy::DirectPublicKey(public_key())
        .direct_node_id()
        .is_none());
    assert!(BroadcastStrategy::DirectNodeId(node_id())
        .direct_node_id()
        .is_some());
    assert!(BroadcastStrategy::Neighbours(Default::default())
        .direct_node_id()
        .is_none());
    assert!(BroadcastStrategy::Flood.direct_node_id().is_none());
    assert!(BroadcastStrategy::Closest(Box::new(BroadcastClosestRequest {
        node_id: node_id(),
        n: 0,
        excluded_peers: Default::default()
    }))
    .direct_node_id()
    .is_none(),);
    assert!(BroadcastStrategy::Random(0).direct_node_id().is_none(), "false");
}

#[test]
fn take_direct_public_key() {
    assert_eq!(
        BroadcastStrategy::DirectPublicKey(vec![9u8; 32]).take_direct_public_key(),
        Some(vec![9u8; 32])
    );
    assert_eq!(BroadcastStrategy::Flood.take_direct_public_key(), None);
}
