//! Message envelopes: destinations, headers, stored messages and peers, each
//! with a mathematical view that the contracts speak of.
use vstd::prelude::*;

verus! {

/// Copies a byte vector.
pub fn copy_bytes(b: &Vec<u8>) -> (r: Vec<u8>)
    ensures
        r@ == b@,
{
    let r = b.clone();
    assert(r@ =~= b@);
    r
}

/// Whether two byte vectors hold the same bytes.
pub fn bytes_eq(a: &Vec<u8>, b: &Vec<u8>) -> (r: bool)
    ensures
        r == (a@ == b@),
{
    if a.len() != b.len() {
        return false;
    }
    let mut i: usize = 0;
    while i < a.len()
        invariant
            a@.len() == b@.len(),
            i <= a@.len(),
            forall|j: int| 0 <= j < i ==> a@[j] == b@[j],
        decreases a@.len() - i,
    {
        if a[i] != b[i] {
            return false;
        }
        i = i + 1;
    }
    assert(a@ =~= b@);
    true
}

/// Where a message is addressed.
#[derive(Debug, Clone)]
pub enum NodeDestination {
    /// Undisclosed recipient.
    Unknown,
    /// A node, by its public key.
    PublicKey(Vec<u8>),
    /// A node, by its node id.
    NodeId(Vec<u8>),
}

pub enum DestinationView {
    Unknown,
    PublicKey(Seq<u8>),
    NodeId(Seq<u8>),
}

impl View for NodeDestination {
    type V = DestinationView;

    open spec fn view(&self) -> DestinationView {
        match self {
            NodeDestination::Unknown => DestinationView::Unknown,
            NodeDestination::PublicKey(pk) => DestinationView::PublicKey(pk@),
            NodeDestination::NodeId(id) => DestinationView::NodeId(id@),
        }
    }
}

impl NodeDestination {
    pub fn duplicate(&self) -> (r: Self)
        ensures
            r@ == self@,
    {
        match self {
            NodeDestination::Unknown => NodeDestination::Unknown,
            NodeDestination::PublicKey(pk) => NodeDestination::PublicKey(copy_bytes(pk)),
            NodeDestination::NodeId(id) => NodeDestination::NodeId(copy_bytes(id)),
        }
    }
}

/// The kind of a message at the overlay layer.
#[derive(Debug, Clone, Copy, PartialEq, Eq, Structural)]
pub enum DhtMessageType {
    /// A message for the layers above the overlay.
    Domain,
    /// A node announcing itself.
    Join,
    /// A node searching for a peer.
    Discover,
    /// A request for the messages stored for the sender.
    SafRequestMessages,
    /// A batch of stored messages.
    SafStoredMessages,
}

impl DhtMessageType {
    pub open spec fn spec_is_dht_message(self) -> bool {
        !(self is Domain)
    }

    /// Whether the overlay itself handles this kind of message.
    pub fn is_dht_message(&self) -> (r: bool)
        ensures
            r == self.spec_is_dht_message(),
    {
        match self {
            DhtMessageType::Domain => false,
            _ => true,
        }
    }
}

/// Flags of a message header, as a bit set.
#[derive(Debug, Clone, Copy, PartialEq, Eq, Structural)]
pub struct DhtMessageFlags {
    pub bits: u32,
}

/// Bit that marks an encrypted body.
pub const ENCRYPTED_FLAG: u32 = 1;

impl DhtMessageFlags {
    pub open spec fn spec_is_encrypted(self) -> bool {
        self.bits & ENCRYPTED_FLAG == ENCRYPTED_FLAG
    }

    /// No flag set.
    pub fn empty() -> (r: Self)
        ensures
            r.bits == 0,
    {
        DhtMessageFlags { bits: 0 }
    }

    /// Only the encrypted flag set.
    pub fn encrypted() -> (r: Self)
        ensures
            r.bits == ENCRYPTED_FLAG,
    {
        DhtMessageFlags { bits: ENCRYPTED_FLAG }
    }

    /// Whether the encrypted flag is set.
    pub fn is_encrypted(&self) -> (r: bool)
        ensures
            r == self.spec_is_encrypted(),
    {
        self.bits & ENCRYPTED_FLAG == ENCRYPTED_FLAG
    }
}

/// Header of a message: who sent it, its signature over the body, where it
/// goes, its flags and its kind. A stored header may lack its destination.
#[derive(Debug, Clone)]
pub struct DhtMessageHeader {
    pub version: u32,
    pub destination: Option<NodeDestination>,
    pub origin_public_key: Vec<u8>,
    pub origin_signature: Vec<u8>,
    pub message_type: DhtMessageType,
    pub flags: DhtMessageFlags,
}

pub struct HeaderView {
    pub version: u32,
    pub destination: Option<DestinationView>,
    pub origin_public_key: Seq<u8>,
    pub origin_signature: Seq<u8>,
    pub message_type: DhtMessageType,
    pub flags: DhtMessageFlags,
}

impl View for DhtMessageHeader {
    type V = HeaderView;

    open spec fn view(&self) -> HeaderView {
        HeaderView {
            version: self.version,
            destination: match self.destination {
                Some(d) => Some(d@),
                None => None,
            },
            origin_public_key: self.origin_public_key@,
            origin_signature: self.origin_signature@,
            message_type: self.message_type,
            flags: self.flags,
        }
    }
}

impl DhtMessageHeader {
    pub fn duplicate(&self) -> (r: Self)
        ensures
            r@ == self@,
    {
        let destination = match &self.destination {
            Some(d) => Some(d.duplicate()),
            None => None,
        };
        DhtMessageHeader {
            version: self.version,
            destination,
            origin_public_key: copy_bytes(&self.origin_public_key),
            origin_signature: copy_bytes(&self.origin_signature),
            message_type: self.message_type,
            flags: self.flags,
        }
    }
}

/// A message held for a node that was offline. `stored_at` is in seconds.
#[derive(Debug, Clone)]
pub struct StoredMessage {
    pub version: u32,
    pub dht_header: Option<DhtMessageHeader>,
    pub encrypted_body: Vec<u8>,
    pub stored_at: Option<u64>,
}

pub struct StoredMessageView {
    pub version: u32,
    pub dht_header: Option<HeaderView>,
    pub encrypted_body: Seq<u8>,
    pub stored_at: Option<u64>,
}

impl View for StoredMessage {
    type V = StoredMessageView;

    open spec fn view(&self) -> StoredMessageView {
        StoredMessageView {
            version: self.version,
            dht_header: match self.dht_header {
                Some(h) => Some(h@),
                None => None,
            },
            encrypted_body: self.encrypted_body@,
            stored_at: self.stored_at,
        }
    }
}

impl StoredMessage {
    /// A stored message with the given header and body, stored at `stored_at`.
    pub fn new(version: u32, dht_header: DhtMessageHeader, encrypted_body: Vec<u8>, stored_at: u64) -> (r: Self)
        ensures
            r@ == (StoredMessageView {
                version,
                dht_header: Some(dht_header@),
                encrypted_body: encrypted_body@,
                stored_at: Some(stored_at),
            }),
    {
        StoredMessage { version, dht_header: Some(dht_header), encrypted_body, stored_at: Some(stored_at) }
    }

    pub fn duplicate(&self) -> (r: Self)
        ensures
            r@ == self@,
    {
        let dht_header = match &self.dht_header {
            Some(h) => Some(h.duplicate()),
            None => None,
        };
        StoredMessage {
            version: self.version,
            dht_header,
            encrypted_body: copy_bytes(&self.encrypted_body),
            stored_at: self.stored_at,
        }
    }
}

/// The views of a sequence of stored messages.
pub open spec fn message_views(s: Seq<StoredMessage>) -> Seq<StoredMessageView> {
    s.map_values(|m: StoredMessage| m@)
}

/// A known node: its public key and its node id.
#[derive(Debug, Clone)]
pub struct Peer {
    pub public_key: Vec<u8>,
    pub node_id: Vec<u8>,
}

pub struct PeerView {
    pub public_key: Seq<u8>,
    pub node_id: Seq<u8>,
}

impl View for Peer {
    type V = PeerView;

    open spec fn view(&self) -> PeerView {
        PeerView { public_key: self.public_key@, node_id: self.node_id@ }
    }
}

impl Peer {
    pub fn new(public_key: Vec<u8>, node_id: Vec<u8>) -> (r: Self)
        ensures
            r@ == (PeerView { public_key: public_key@, node_id: node_id@ }),
    {
        Peer { public_key, node_id }
    }

    pub fn duplicate(&self) -> (r: Self)
        ensures
            r@ == self@,
    {
        Peer { public_key: copy_bytes(&self.public_key), node_id: copy_bytes(&self.node_id) }
    }
}

} // verus!
