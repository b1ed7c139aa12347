//! The store-and-forward subsystem as one object: the node's identity, its
//! peer directory, the message store and the duplicate history, with the
//! decision taken for each inbound overlay message.
use vstd::prelude::*;
use crate::config::DhtConfig;
use crate::dedup::DedupCache;
use crate::envelope::{message_views, DestinationView, DhtMessageType, Peer, PeerView, StoredMessage};
use crate::identity::{IdentityView, NodeIdentity};
use crate::peers::{in_region, PeerDirectory};
use crate::request::{
    handle_stored_messages_request, selected, OutboundResponse, StoredMessagesRequest,
    StoredMessagesResponse,
};
use crate::response::{
    batch_outcomes, batch_seen, handle_stored_messages, outcome_views, route_message, spec_route,
    Outcome, Route,
};
use crate::store::{entry_views, expiry, inserted, live_entries, EntryView, MessageStore};

verus! {

/// What an overlay message carries once its envelope is decoded.
#[derive(Debug)]
pub enum DhtPayload {
    Request(StoredMessagesRequest),
    StoredMessages(StoredMessagesResponse),
    Other(Vec<u8>),
}

/// An overlay message as it reaches the subsystem.
#[derive(Debug)]
pub struct DhtInboundMessage {
    pub message_type: DhtMessageType,
    pub decryption_failed: bool,
    pub source_peer: Peer,
    pub payload: DhtPayload,
}

/// What the caller is to do with an inbound message.
#[derive(Debug)]
pub enum TaskAction {
    /// Nothing: the message is dropped.
    Discard,
    /// Send this reply.
    Send(OutboundResponse),
    /// Hand the successes among these outcomes to the next pipeline stage.
    Forward(Vec<Outcome>),
    /// Not a store-and-forward message: hand it to the next stage as it is.
    PassOn(DhtInboundMessage),
    /// The payload does not match the message type.
    InvalidEnvelopeBody,
}

pub struct MessageHandlerTask {
    config: DhtConfig,
    node_identity: NodeIdentity,
    peer_manager: PeerDirectory,
    store: MessageStore,
    dedup: DedupCache,
}

impl MessageHandlerTask {
    pub closed spec fn spec_config(&self) -> DhtConfig {
        self.config
    }

    pub closed spec fn spec_identity(&self) -> IdentityView {
        self.node_identity@
    }

    pub closed spec fn spec_peers(&self) -> Seq<PeerView> {
        self.peer_manager.spec_peers()
    }

    pub closed spec fn spec_store(&self) -> Seq<EntryView> {
        self.store.spec_entries()
    }

    pub closed spec fn spec_seen(&self) -> Seq<Seq<u8>> {
        self.dedup.spec_seen()
    }

    pub closed spec fn wf(&self) -> bool {
        &&& self.node_identity.wf()
        &&& self.peer_manager.wf()
        &&& self.store.wf()
        &&& self.dedup.wf()
        &&& self.store.spec_capacity() == self.config.saf_msg_cache_storage_capacity
        &&& self.dedup.spec_capacity() == self.config.msg_hash_cache_capacity
    }

    /// The subsystem of a node, empty store and history, sized by `config`.
    pub fn new(config: DhtConfig, node_identity: NodeIdentity, peer_manager: PeerDirectory) -> (r: Self)
        requires
            node_identity.wf(),
            peer_manager.wf(),
        ensures
            r.wf(),
            r.spec_config() == config,
            r.spec_identity() == node_identity@,
            r.spec_peers() == peer_manager.spec_peers(),
            r.spec_store() == Seq::<EntryView>::empty(),
            r.spec_seen() == Seq::<Seq<u8>>::empty(),
    {
        MessageHandlerTask {
            store: MessageStore::new(config.saf_msg_cache_storage_capacity),
            dedup: DedupCache::new(config.msg_hash_cache_capacity),
            config,
            node_identity,
            peer_manager,
        }
    }

    /// Keeps a message that could not be delivered live, for the configured
    /// time to live from `now`.
    pub fn store_message(&mut self, key: Vec<u8>, message: StoredMessage, now: u64)
        requires
            old(self).wf(),
        ensures
            final(self).wf(),
            final(self).spec_store() == inserted(
                old(self).spec_store(),
                old(self).spec_config().saf_msg_cache_storage_capacity as nat,
                EntryView {
                    key: key@,
                    message: message@,
                    expires_at: expiry(now, old(self).spec_config().saf_msg_storage_ttl),
                },
            ),
            final(self).spec_seen() == old(self).spec_seen(),
            final(self).spec_peers() == old(self).spec_peers(),
            final(self).spec_config() == old(self).spec_config(),
            final(self).spec_identity() == old(self).spec_identity(),
    {
        self.store.insert(key, message, self.config.saf_msg_storage_ttl, now);
    }

    /// Decides what to do with an inbound overlay message at `now`: drop an
    /// overlay message that failed to decrypt; answer a request for stored
    /// messages from a peer in this node's region; process a reply carrying
    /// stored messages; pass anything else on.
    pub fn run(&mut self, message: DhtInboundMessage, now: u64) -> (r: TaskAction)
        requires
            old(self).wf(),
        ensures
            final(self).wf(),
            final(self).spec_store() == old(self).spec_store(),
            final(self).spec_peers() == old(self).spec_peers(),
            final(self).spec_config() == old(self).spec_config(),
            final(self).spec_identity() == old(self).spec_identity(),
            match spec_route(message.message_type, message.decryption_failed) {
                Route::Discard => r is Discard && final(self).spec_seen() == old(self).spec_seen(),
                Route::PassOn => r == TaskAction::PassOn(message) && final(self).spec_seen() == old(
                    self,
                ).spec_seen(),
                Route::HandleRequest => match message.payload {
                    DhtPayload::Request(req) => {
                        &&& final(self).spec_seen() == old(self).spec_seen()
                        &&& if in_region(
                            old(self).spec_peers(),
                            message.source_peer.node_id@,
                            old(self).spec_identity().node_id,
                            old(self).spec_config().saf_num_closest_nodes as nat,
                        ) {
                            &&& r is Send
                            &&& r->Send_0.broadcast_strategy is DirectPublicKey
                            &&& r->Send_0.broadcast_strategy->DirectPublicKey_0@
                                == message.source_peer.public_key@
                            &&& r->Send_0.destination@ == DestinationView::Unknown
                            &&& r->Send_0.encrypt_for_destination
                            &&& r->Send_0.message_type == DhtMessageType::SafStoredMessages
                            &&& message_views(r->Send_0.body.messages@) == selected(
                                live_entries(old(self).spec_store(), now),
                                req.since,
                                message.source_peer@,
                                old(self).spec_config().saf_max_returned_messages as nat,
                            )
                        } else {
                            r is Discard
                        }
                    },
                    _ => r is InvalidEnvelopeBody && final(self).spec_seen() == old(
                        self,
                    ).spec_seen(),
                },
                Route::HandleStoredMessages => match message.payload {
                    DhtPayload::StoredMessages(resp) => {
                        &&& r is Forward
                        &&& outcome_views(r->Forward_0@) == batch_outcomes(
                            old(self).spec_config(),
                            old(self).spec_identity(),
                            old(self).spec_peers(),
                            old(self).spec_seen(),
                            old(self).spec_config().msg_hash_cache_capacity as nat,
                            message_views(resp.messages@),
                        )
                        &&& final(self).spec_seen() == batch_seen(
                            old(self).spec_config(),
                            old(self).spec_identity(),
                            old(self).spec_peers(),
                            old(self).spec_seen(),
                            old(self).spec_config().msg_hash_cache_capacity as nat,
                            message_views(resp.messages@),
                        )
                    },
                    _ => r is InvalidEnvelopeBody && final(self).spec_seen() == old(
                        self,
                    ).spec_seen(),
                },
            },
    {
        match route_message(message.message_type, message.decryption_failed) {
            Route::Discard => TaskAction::Discard,
            Route::PassOn => TaskAction::PassOn(message),
            Route::HandleRequest => match &message.payload {
                DhtPayload::Request(request) => {
                    let snapshot = self.store.iterate_snapshot(now);
                    match handle_stored_messages_request(
                        &self.config,
                        &self.peer_manager,
                        self.node_identity.node_id(),
                        &message.source_peer,
                        request,
                        &snapshot,
                    ) {
                        Some(response) => TaskAction::Send(response),
                        None => TaskAction::Discard,
                    }
                },
                _ => TaskAction::InvalidEnvelopeBody,
            },
            Route::HandleStoredMessages => match &message.payload {
                DhtPayload::StoredMessages(response) => TaskAction::Forward(
                    handle_stored_messages(
                        &self.config,
                        &self.node_identity,
                        &self.peer_manager,
                        &mut self.dedup,
                        response,
                    ),
                ),
                _ => TaskAction::InvalidEnvelopeBody,
            },
        }
    }
}

} // verus!
