//! The first stage of the inbound pipeline: a message received from a peer
//! connection is authenticated, deduplicated and attributed to a known peer
//! before it goes further.
use vstd::prelude::*;
use crate::crypt::{decodes_to_point, signature_valid, verify_signature, KEY_LEN, SIGNATURE_LEN};
use crate::dedup::{remembered, DedupCache};
use crate::envelope::{copy_bytes, Peer, PeerView};
use crate::peers::{peer_by_node_id, PeerDirectory};

verus! {

/// Why a received message did not pass the pipeline.
#[derive(Debug, Clone, Copy, PartialEq, Eq, Structural)]
pub enum InboundMessagePipelineError {
    /// The frames do not form a message.
    DeserializationError,
    /// The envelope signature does not verify over the body.
    InvalidMessageSignature,
    /// The message was received before.
    DuplicateMessageDiscarded,
    /// The sending node is not a known peer.
    CannotFindSourcePeer,
}

/// Header of a message envelope: the sender's public key and its signature
/// over the body.
#[derive(Debug)]
pub struct MessageEnvelopeHeader {
    pub message_public_key: Vec<u8>,
    pub message_signature: Vec<u8>,
}

/// A received message, decoded but not yet checked.
#[derive(Debug)]
pub struct MessageData {
    pub source_node_id: Vec<u8>,
    pub version: u32,
    pub header: MessageEnvelopeHeader,
    pub body: Vec<u8>,
}

/// A message that passed the pipeline, with the peer it came from.
#[derive(Debug)]
pub struct InboundMessage {
    pub peer: Peer,
    pub header: MessageEnvelopeHeader,
    pub version: u32,
    pub body: Vec<u8>,
}

/// Whether the envelope signature verifies over the body.
pub open spec fn envelope_signature_checks(public_key: Seq<u8>, signature: Seq<u8>, body: Seq<u8>) -> bool {
    &&& public_key.len() == KEY_LEN
    &&& signature.len() == SIGNATURE_LEN
    &&& decodes_to_point(public_key)
    &&& signature_valid(public_key, signature, body)
}

/// The pipeline stage: a cache of recent message signatures and the
/// directory of known peers.
pub struct InnerInboundMessageService {
    message_cache: DedupCache,
    peer_manager: PeerDirectory,
}

impl InnerInboundMessageService {
    pub closed spec fn spec_cache(&self) -> Seq<Seq<u8>> {
        self.message_cache.spec_seen()
    }

    pub closed spec fn spec_cache_capacity(&self) -> nat {
        self.message_cache.spec_capacity()
    }

    pub closed spec fn spec_peers(&self) -> Seq<PeerView> {
        self.peer_manager.spec_peers()
    }

    pub closed spec fn wf(&self) -> bool {
        self.message_cache.wf() && self.peer_manager.wf()
    }

    /// A stage over `peer_manager` whose cache holds up to `cache_capacity`
    /// signatures.
    pub fn new(peer_manager: PeerDirectory, cache_capacity: usize) -> (r: Self)
        requires
            peer_manager.wf(),
        ensures
            r.wf(),
            r.spec_cache() == Seq::<Seq<u8>>::empty(),
            r.spec_cache_capacity() == cache_capacity,
            r.spec_peers() == peer_manager.spec_peers(),
    {
        InnerInboundMessageService { message_cache: DedupCache::new(cache_capacity), peer_manager }
    }

    /// Checks a received message: its signature, then that it is new (its
    /// signature is then cached), then that its sender is known.
    pub fn process_message(&mut self, message: MessageData) -> (r: Result<
        InboundMessage,
        InboundMessagePipelineError,
    >)
        requires
            old(self).wf(),
        ensures
            final(self).wf(),
            final(self).spec_peers() == old(self).spec_peers(),
            final(self).spec_cache_capacity() == old(self).spec_cache_capacity(),
            !envelope_signature_checks(
                message.header.message_public_key@,
                message.header.message_signature@,
                message.body@,
            ) ==> r == Err::<InboundMessage, InboundMessagePipelineError>(
                InboundMessagePipelineError::InvalidMessageSignature,
            ) && final(self).spec_cache() == old(self).spec_cache(),
            envelope_signature_checks(
                message.header.message_public_key@,
                message.header.message_signature@,
                message.body@,
            ) ==> {
                &&& final(self).spec_cache() == remembered(
                    old(self).spec_cache(),
                    old(self).spec_cache_capacity(),
                    message.header.message_signature@,
                )
                &&& old(self).spec_cache().contains(message.header.message_signature@) ==> r
                    == Err::<InboundMessage, InboundMessagePipelineError>(
                    InboundMessagePipelineError::DuplicateMessageDiscarded,
                )
                &&& !old(self).spec_cache().contains(message.header.message_signature@) ==> match r {
                    Ok(m) => peer_by_node_id(old(self).spec_peers(), message.source_node_id@) == Some(
                        m.peer@,
                    ) && m.body@ == message.body@ && m.version == message.version
                        && m.header.message_signature@ == message.header.message_signature@
                        && m.header.message_public_key@ == message.header.message_public_key@,
                    Err(e) => e == InboundMessagePipelineError::CannotFindSourcePeer && peer_by_node_id(
                        old(self).spec_peers(),
                        message.source_node_id@,
                    ) is None,
                }
            },
    {
        if !verify_signature(
            &message.header.message_public_key,
            &message.header.message_signature,
            &message.body,
        ) {
            return Err(InboundMessagePipelineError::InvalidMessageSignature);
        }
        self.message_cache_check(&message.header.message_signature)?;
        let peer = self.find_known_peer(&message.source_node_id)?;
        Ok(InboundMessage { peer, header: message.header, version: message.version, body: message.body })
    }

    /// Rejects a signature seen before; caches a new one.
    fn message_cache_check(&mut self, signature: &Vec<u8>) -> (r: Result<
        (),
        InboundMessagePipelineError,
    >)
        requires
            old(self).wf(),
        ensures
            final(self).wf(),
            final(self).spec_peers() == old(self).spec_peers(),
            final(self).spec_cache_capacity() == old(self).spec_cache_capacity(),
            final(self).spec_cache() == remembered(
                old(self).spec_cache(),
                old(self).spec_cache_capacity(),
                signature@,
            ),
            r is Ok <==> !old(self).spec_cache().contains(signature@),
            r is Err ==> r == Err::<(), InboundMessagePipelineError>(
                InboundMessagePipelineError::DuplicateMessageDiscarded,
            ),
    {
        if self.message_cache.insert_if_absent(copy_bytes(signature)) {
            Err(InboundMessagePipelineError::DuplicateMessageDiscarded)
        } else {
            Ok(())
        }
    }

    /// The known peer with node id `source_node_id`.
    fn find_known_peer(&self, source_node_id: &Vec<u8>) -> (r: Result<Peer, InboundMessagePipelineError>)
        requires
            self.wf(),
        ensures
            match r {
                Ok(p) => peer_by_node_id(self.spec_peers(), source_node_id@) == Some(p@),
                Err(e) => e == InboundMessagePipelineError::CannotFindSourcePeer && peer_by_node_id(
                    self.spec_peers(),
                    source_node_id@,
                ) is None,
            },
    {
        match self.peer_manager.find_with_node_id(source_node_id) {
            Some(peer) => Ok(peer),
            None => Err(InboundMessagePipelineError::CannotFindSourcePeer),
        }
    }
}

} // verus!
