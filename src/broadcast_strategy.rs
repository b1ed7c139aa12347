//! How an outbound message chooses the peers it goes to.
use vstd::prelude::*;

verus! {

/// A request to send to the `n` peers closest to `node_id`, leaving out the
/// peers with the given public keys.
#[derive(Debug)]
pub struct BroadcastClosestRequest {
    pub n: usize,
    pub node_id: Vec<u8>,
    pub excluded_peers: Vec<Vec<u8>>,
}

/// The peers an outbound message goes to.
#[derive(Debug)]
pub enum BroadcastStrategy {
    /// The peer with the given node id.
    DirectNodeId(Vec<u8>),
    /// The peer with the given public key.
    DirectPublicKey(Vec<u8>),
    /// Every known communication node.
    Flood,
    /// A random set of this many communication nodes.
    Random(usize),
    /// The nearest communication nodes, as the request says.
    Closest(Box<BroadcastClosestRequest>),
    /// This node's configured neighbours, leaving out the given public keys.
    Neighbours(Vec<Vec<u8>>),
}

impl BroadcastStrategy {
    /// Whether the message goes to one peer named outright.
    pub fn is_direct(&self) -> (r: bool)
        ensures
            r == (self is DirectNodeId || self is DirectPublicKey),
    {
        match self {
            BroadcastStrategy::DirectNodeId(_) | BroadcastStrategy::DirectPublicKey(_) => true,
            _ => false,
        }
    }

    /// The node id of a direct-by-node-id strategy.
    pub fn direct_node_id(&self) -> (r: Option<&Vec<u8>>)
        ensures
            match self {
                BroadcastStrategy::DirectNodeId(id) => r == Some(id),
                _ => r is None,
            },
    {
        match self {
            BroadcastStrategy::DirectNodeId(node_id) => Some(node_id),
            _ => None,
        }
    }

    /// The public key of a direct-by-public-key strategy.
    pub fn direct_public_key(&self) -> (r: Option<&Vec<u8>>)
        ensures
            match self {
                BroadcastStrategy::DirectPublicKey(pk) => r == Some(pk),
                _ => r is None,
            },
    {
        match self {
            BroadcastStrategy::DirectPublicKey(pk) => Some(pk),
            _ => None,
        }
    }

    /// Takes the public key out of a direct-by-public-key strategy.
    pub fn take_direct_public_key(self) -> (r: Option<Vec<u8>>)
        ensures
            match self {
                BroadcastStrategy::DirectPublicKey(pk) => r == Some(pk),
                _ => r is None,
            },
    {
        match self {
            BroadcastStrategy::DirectPublicKey(pk) => Some(pk),
            _ => None,
        }
    }
}

} // verus!
