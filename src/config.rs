//! Settings of the store-and-forward subsystem.
use vstd::prelude::*;

verus! {

/// Settings of the overlay that store-and-forward reads.
#[derive(Debug, Clone, Copy, PartialEq, Eq, Structural)]
pub struct DhtConfig {
    /// Breadth of a node's own neighbourhood.
    pub num_neighbouring_nodes: usize,
    /// Breadth of the region whose members may ask this node for stored
    /// messages.
    pub saf_num_closest_nodes: usize,
    /// Most messages handed out for one request.
    pub saf_max_returned_messages: usize,
    /// Most messages the store holds.
    pub saf_msg_cache_storage_capacity: usize,
    /// Seconds a stored message stays live.
    pub saf_msg_storage_ttl: u64,
    /// Most fingerprints the duplicate history holds.
    pub msg_hash_cache_capacity: usize,
}

pub const DEFAULT_NUM_NEIGHBOURING_NODES: usize = 8;

pub const DEFAULT_SAF_NUM_CLOSEST_NODES: usize = 8;

pub const DEFAULT_SAF_MAX_RETURNED_MESSAGES: usize = 50;

pub const DEFAULT_SAF_STORAGE_CAPACITY: usize = 10000;

/// Six hours.
pub const DEFAULT_SAF_STORAGE_TTL: u64 = 21600;

pub const DEFAULT_MSG_HASH_CACHE_CAPACITY: usize = 10000;

impl Default for DhtConfig {
    fn default() -> (r: Self)
        ensures
            r.num_neighbouring_nodes == DEFAULT_NUM_NEIGHBOURING_NODES,
            r.saf_num_closest_nodes == DEFAULT_SAF_NUM_CLOSEST_NODES,
            r.saf_max_returned_messages == DEFAULT_SAF_MAX_RETURNED_MESSAGES,
            r.saf_msg_cache_storage_capacity == DEFAULT_SAF_STORAGE_CAPACITY,
            r.saf_msg_storage_ttl == DEFAULT_SAF_STORAGE_TTL,
            r.msg_hash_cache_capacity == DEFAULT_MSG_HASH_CACHE_CAPACITY,
    {
        DhtConfig {
            num_neighbouring_nodes: DEFAULT_NUM_NEIGHBOURING_NODES,
            saf_num_closest_nodes: DEFAULT_SAF_NUM_CLOSEST_NODES,
            saf_max_returned_messages: DEFAULT_SAF_MAX_RETURNED_MESSAGES,
            saf_msg_cache_storage_capacity: DEFAULT_SAF_STORAGE_CAPACITY,
            saf_msg_storage_ttl: DEFAULT_SAF_STORAGE_TTL,
            msg_hash_cache_capacity: DEFAULT_MSG_HASH_CACHE_CAPACITY,
        }
    }
}

} // verus!
