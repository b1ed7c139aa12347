//! Store-and-forward relay for a peer-to-peer overlay: a bounded, expiring
//! message store, duplicate suppression, and the request and response
//! handling that lets an offline node recover messages addressed to it.
pub mod base_node;
pub mod broadcast_strategy;
pub mod conduit;
pub mod config;
pub mod crypt;
pub mod dedup;
pub mod envelope;
pub mod identity;
pub mod inbound;
pub mod keyvalue_store;
pub mod liveness;
pub mod peers;
pub mod request;
pub mod response;
pub mod seed_words;
pub mod store;
pub mod task;
