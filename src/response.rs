//! Recovering stored messages from a peer's reply: each message is checked,
//! deduplicated, decrypted and attributed to its origin peer on its own, so
//! that one bad message never stops the others.
use vstd::prelude::*;
use crate::config::DhtConfig;
use crate::crypt::{
    decodes_to_point, opened, opens, shared_secret_of, signature_valid, verify_signature, KEY_LEN,
    SIGNATURE_LEN,
};
use crate::dedup::{remembered, DedupCache};
use crate::envelope::{
    bytes_eq, copy_bytes, message_views, DestinationView, DhtMessageHeader, DhtMessageType,
    HeaderView, NodeDestination, Peer, PeerView, StoredMessage, StoredMessageView,
};
use crate::identity::{IdentityView, NodeIdentity};
use crate::peers::{in_region, peer_by_public_key, PeerDirectory};
use crate::request::StoredMessagesResponse;

verus! {

/// Why a stored message was dropped.
#[derive(Debug, Clone, Copy, PartialEq, Eq, Structural)]
pub enum StoreAndForwardError {
    /// The message carries no header.
    DhtHeaderNotProvided,
    /// The header lacks its destination.
    MalformedHeader,
    /// The message is addressed to another node.
    InvalidDestination,
    /// The origin signature does not verify over the body.
    InvalidSignature,
    /// The header does not mark the body encrypted.
    StoredMessageNotEncrypted,
    /// The message was seen before.
    DuplicateMessage,
    /// The body does not open with the shared secret; the message was not
    /// meant for this node.
    DecryptionFailed,
    /// The origin peer is not known here.
    PeerNotFound,
}

/// How a dropped message is reported.
#[derive(Debug, Clone, Copy, PartialEq, Eq, Structural)]
pub enum ErrorClass {
    /// An expected outcome: not meant for us, seen before, or from an unknown
    /// peer.
    Benign,
    /// The sending peer forwarded a message it should not have.
    ProtocolViolation,
}

impl StoreAndForwardError {
    pub open spec fn spec_class(self) -> ErrorClass {
        match self {
            StoreAndForwardError::DecryptionFailed
            | StoreAndForwardError::DuplicateMessage
            | StoreAndForwardError::PeerNotFound => ErrorClass::Benign,
            _ => ErrorClass::ProtocolViolation,
        }
    }

    /// The class under which this drop is reported.
    pub fn class(&self) -> (r: ErrorClass)
        ensures
            r == self.spec_class(),
    {
        match self {
            StoreAndForwardError::DecryptionFailed
            | StoreAndForwardError::DuplicateMessage
            | StoreAndForwardError::PeerNotFound => ErrorClass::Benign,
            _ => ErrorClass::ProtocolViolation,
        }
    }
}

/// A recovered message, as the next stage of the inbound pipeline takes it:
/// its header, the peer it came from, and its decrypted body.
#[derive(Debug)]
pub struct DecryptedDhtMessage {
    pub header: DhtMessageHeader,
    pub source_peer: Peer,
    pub body: Vec<u8>,
}

pub struct DecryptedView {
    pub header: HeaderView,
    pub source_peer: PeerView,
    pub body: Seq<u8>,
}

impl View for DecryptedDhtMessage {
    type V = DecryptedView;

    open spec fn view(&self) -> DecryptedView {
        DecryptedView { header: self.header@, source_peer: self.source_peer@, body: self.body@ }
    }
}

pub type Outcome = Result<DecryptedDhtMessage, StoreAndForwardError>;

pub type OutcomeView = Result<DecryptedView, StoreAndForwardError>;

pub open spec fn outcome_views(s: Seq<Outcome>) -> Seq<OutcomeView> {
    s.map_values(
        |o: Outcome|
            match o {
                Ok(m) => Ok(m@),
                Err(e) => Err(e),
            },
    )
}

/// Whether this node accepts a message addressed to `d`: an undisclosed
/// destination, its own public key or node id, or a node id in whose region
/// of breadth `num_neighbouring_nodes` this node lies.
pub open spec fn destination_accepted(
    config: DhtConfig,
    local: IdentityView,
    peers: Seq<PeerView>,
    d: DestinationView,
) -> bool {
    match d {
        DestinationView::Unknown => true,
        DestinationView::PublicKey(pk) => pk == local.public_key,
        DestinationView::NodeId(id) => id == local.node_id || in_region(
            peers,
            local.node_id,
            id,
            config.num_neighbouring_nodes as nat,
        ),
    }
}

/// Whether the origin signature verifies over the body.
pub open spec fn signature_checks(h: HeaderView, body: Seq<u8>) -> bool {
    &&& h.origin_public_key.len() == KEY_LEN
    &&& h.origin_signature.len() == SIGNATURE_LEN
    &&& decodes_to_point(h.origin_public_key)
    &&& signature_valid(h.origin_public_key, h.origin_signature, body)
}

/// The check that rejects `m` before the duplicate check, if any: no header,
/// no destination, a foreign destination, a bad signature, or no encrypted
/// flag, in that order.
pub open spec fn rejection(
    config: DhtConfig,
    local: IdentityView,
    peers: Seq<PeerView>,
    m: StoredMessageView,
) -> Option<StoreAndForwardError> {
    match m.dht_header {
        None => Some(StoreAndForwardError::DhtHeaderNotProvided),
        Some(h) => match h.destination {
            None => Some(StoreAndForwardError::MalformedHeader),
            Some(d) => if !destination_accepted(config, local, peers, d) {
                Some(StoreAndForwardError::InvalidDestination)
            } else if !signature_checks(h, m.encrypted_body) {
                Some(StoreAndForwardError::InvalidSignature)
            } else if !h.flags.spec_is_encrypted() {
                Some(StoreAndForwardError::StoredMessageNotEncrypted)
            } else {
                None
            },
        },
    }
}

/// The secret that this node shares with the origin of header `h`.
pub open spec fn origin_secret(local: IdentityView, h: HeaderView) -> Seq<u8> {
    shared_secret_of(local.secret_key, h.origin_public_key)
}

/// What decrypting and attributing `m` gives, once it passed every check:
/// its body opened with the secret shared with its origin, and the origin
/// found among the known peers.
pub open spec fn recovery(local: IdentityView, peers: Seq<PeerView>, m: StoredMessageView) -> OutcomeView {
    let h = m.dht_header->0;
    if !opens(origin_secret(local, h), m.encrypted_body) {
        Err(StoreAndForwardError::DecryptionFailed)
    } else {
        match peer_by_public_key(peers, h.origin_public_key) {
            None => Err(StoreAndForwardError::PeerNotFound),
            Some(p) => Ok(
                DecryptedView {
                    header: h,
                    source_peer: p,
                    body: opened(origin_secret(local, h), m.encrypted_body),
                },
            ),
        }
    }
}

/// What processing `m` gives, with `seen` the duplicate history beforehand.
pub open spec fn outcome(
    config: DhtConfig,
    local: IdentityView,
    peers: Seq<PeerView>,
    seen: Seq<Seq<u8>>,
    m: StoredMessageView,
) -> OutcomeView {
    match rejection(config, local, peers, m) {
        Some(e) => Err(e),
        None => if seen.contains(m.dht_header->0.origin_signature) {
            Err(StoreAndForwardError::DuplicateMessage)
        } else {
            recovery(local, peers, m)
        },
    }
}

/// The duplicate history after processing `m`: its signature is recorded
/// once the checks before the duplicate check have passed.
pub open spec fn seen_after(
    config: DhtConfig,
    local: IdentityView,
    peers: Seq<PeerView>,
    seen: Seq<Seq<u8>>,
    cap: nat,
    m: StoredMessageView,
) -> Seq<Seq<u8>> {
    match rejection(config, local, peers, m) {
        Some(_) => seen,
        None => remembered(seen, cap, m.dht_header->0.origin_signature),
    }
}

/// The duplicate history after processing a batch in order.
pub open spec fn batch_seen(
    config: DhtConfig,
    local: IdentityView,
    peers: Seq<PeerView>,
    seen: Seq<Seq<u8>>,
    cap: nat,
    msgs: Seq<StoredMessageView>,
) -> Seq<Seq<u8>>
    decreases msgs.len(),
{
    if msgs.len() == 0 {
        seen
    } else {
        seen_after(
            config,
            local,
            peers,
            batch_seen(config, local, peers, seen, cap, msgs.drop_last()),
            cap,
            msgs.last(),
        )
    }
}

/// What processing a batch in order gives, one outcome per message.
pub open spec fn batch_outcomes(
    config: DhtConfig,
    local: IdentityView,
    peers: Seq<PeerView>,
    seen: Seq<Seq<u8>>,
    cap: nat,
    msgs: Seq<StoredMessageView>,
) -> Seq<OutcomeView>
    decreases msgs.len(),
{
    if msgs.len() == 0 {
        Seq::empty()
    } else {
        batch_outcomes(config, local, peers, seen, cap, msgs.drop_last()).push(
            outcome(
                config,
                local,
                peers,
                batch_seen(config, local, peers, seen, cap, msgs.drop_last()),
                msgs.last(),
            ),
        )
    }
}

fn check_destination(
    config: &DhtConfig,
    directory: &PeerDirectory,
    local: &NodeIdentity,
    destination: &NodeDestination,
) -> (r: Result<(), StoreAndForwardError>)
    ensures
        r is Ok <==> destination_accepted(*config, local@, directory.spec_peers(), destination@),
        r is Err ==> r == Err::<(), StoreAndForwardError>(StoreAndForwardError::InvalidDestination),
{
    let accepted = match destination {
        NodeDestination::Unknown => true,
        NodeDestination::PublicKey(pk) => bytes_eq(pk, local.public_key()),
        NodeDestination::NodeId(id) => {
            if bytes_eq(id, local.node_id()) {
                true
            } else {
                directory.in_network_region(local.node_id(), id, config.num_neighbouring_nodes)
            }
        },
    };
    if accepted {
        Ok(())
    } else {
        Err(StoreAndForwardError::InvalidDestination)
    }
}

fn check_signature(header: &DhtMessageHeader, body: &Vec<u8>) -> (r: Result<(), StoreAndForwardError>)
    ensures
        r is Ok <==> signature_checks(header@, body@),
        r is Err ==> r == Err::<(), StoreAndForwardError>(StoreAndForwardError::InvalidSignature),
{
    if verify_signature(&header.origin_public_key, &header.origin_signature, body) {
        Ok(())
    } else {
        Err(StoreAndForwardError::InvalidSignature)
    }
}

fn check_flags(header: &DhtMessageHeader) -> (r: Result<(), StoreAndForwardError>)
    ensures
        r is Ok <==> header.flags.spec_is_encrypted(),
        r is Err ==> r == Err::<(), StoreAndForwardError>(
            StoreAndForwardError::StoredMessageNotEncrypted,
        ),
{
    if header.flags.is_encrypted() {
        Ok(())
    } else {
        Err(StoreAndForwardError::StoredMessageNotEncrypted)
    }
}

/// The duplicate check: records the origin signature and fails when it was
/// already in the history.
pub fn check_duplicate(dedup: &mut DedupCache, header: &DhtMessageHeader) -> (r: Result<
    (),
    StoreAndForwardError,
>)
    requires
        old(dedup).wf(),
    ensures
        final(dedup).wf(),
        final(dedup).spec_capacity() == old(dedup).spec_capacity(),
        final(dedup).spec_seen() == remembered(
            old(dedup).spec_seen(),
            old(dedup).spec_capacity(),
            header.origin_signature@,
        ),
        r is Ok <==> !old(dedup).spec_seen().contains(header.origin_signature@),
        r is Err ==> r == Err::<(), StoreAndForwardError>(StoreAndForwardError::DuplicateMessage),
{
    if dedup.insert_if_absent(copy_bytes(&header.origin_signature)) {
        Err(StoreAndForwardError::DuplicateMessage)
    } else {
        Ok(())
    }
}

fn try_decrypt(local: &NodeIdentity, header: &DhtMessageHeader, body: &Vec<u8>) -> (r: Result<
    Vec<u8>,
    StoreAndForwardError,
>)
    requires
        local.wf(),
        decodes_to_point(header.origin_public_key@),
        header.origin_public_key@.len() == KEY_LEN,
    ensures
        r is Ok <==> opens(origin_secret(local@, header@), body@),
        r is Ok ==> r->Ok_0@ == opened(origin_secret(local@, header@), body@),
        r is Err ==> r == Err::<Vec<u8>, StoreAndForwardError>(
            StoreAndForwardError::DecryptionFailed,
        ),
{
    match local.decrypt_from(&header.origin_public_key, body) {
        Ok(plain) => Ok(plain),
        Err(_) => Err(StoreAndForwardError::DecryptionFailed),
    }
}

/// The checks that come before the duplicate check: a header with a
/// destination, a destination this node accepts, a valid origin signature
/// over the body, and the encrypted flag. They read no shared state, so
/// messages of a batch can be checked side by side.
pub fn validate_stored_message(
    config: &DhtConfig,
    local: &NodeIdentity,
    directory: &PeerDirectory,
    message: &StoredMessage,
) -> (r: Result<(), StoreAndForwardError>)
    ensures
        match rejection(*config, local@, directory.spec_peers(), message@) {
            None => r is Ok,
            Some(e) => r == Err::<(), StoreAndForwardError>(e),
        },
{
    let header = match &message.dht_header {
        None => return Err(StoreAndForwardError::DhtHeaderNotProvided),
        Some(h) => h,
    };
    let destination = match &header.destination {
        None => return Err(StoreAndForwardError::MalformedHeader),
        Some(d) => d,
    };
    check_destination(config, directory, local, destination)?;
    check_signature(header, &message.encrypted_body)?;
    check_flags(header)
}

/// Decrypts a message that passed `validate_stored_message` and the
/// duplicate check, and attributes it to its origin peer.
pub fn recover_stored_message(
    config: &DhtConfig,
    local: &NodeIdentity,
    directory: &PeerDirectory,
    message: &StoredMessage,
) -> (r: Outcome)
    requires
        local.wf(),
        directory.wf(),
        rejection(*config, local@, directory.spec_peers(), message@) is None,
    ensures
        match r {
            Ok(m) => recovery(local@, directory.spec_peers(), message@) == Ok::<
                DecryptedView,
                StoreAndForwardError,
            >(m@),
            Err(e) => recovery(local@, directory.spec_peers(), message@) == Err::<
                DecryptedView,
                StoreAndForwardError,
            >(e),
        },
{
    let header = match &message.dht_header {
        Some(h) => h,
        None => return Err(StoreAndForwardError::DhtHeaderNotProvided),
    };
    let body = try_decrypt(local, header, &message.encrypted_body)?;
    match directory.find_by_public_key(&header.origin_public_key) {
        None => Err(StoreAndForwardError::PeerNotFound),
        Some(peer) => Ok(DecryptedDhtMessage { header: header.duplicate(), source_peer: peer, body }),
    }
}

/// Checks, deduplicates, decrypts and attributes one stored message. The
/// duplicate history records the message's signature once the checks before
/// it have passed.
pub fn process_incoming_stored_message(
    config: &DhtConfig,
    local: &NodeIdentity,
    directory: &PeerDirectory,
    dedup: &mut DedupCache,
    message: &StoredMessage,
) -> (r: Outcome)
    requires
        local.wf(),
        directory.wf(),
        old(dedup).wf(),
    ensures
        final(dedup).wf(),
        final(dedup).spec_capacity() == old(dedup).spec_capacity(),
        final(dedup).spec_seen() == seen_after(
            *config,
            local@,
            directory.spec_peers(),
            old(dedup).spec_seen(),
            old(dedup).spec_capacity(),
            message@,
        ),
        match r {
            Ok(m) => outcome(
                *config,
                local@,
                directory.spec_peers(),
                old(dedup).spec_seen(),
                message@,
            ) == Ok::<DecryptedView, StoreAndForwardError>(m@),
            Err(e) => outcome(
                *config,
                local@,
                directory.spec_peers(),
                old(dedup).spec_seen(),
                message@,
            ) == Err::<DecryptedView, StoreAndForwardError>(e),
        },
{
    validate_stored_message(config, local, directory, message)?;
    let header = match &message.dht_header {
        Some(h) => h,
        None => return Err(StoreAndForwardError::DhtHeaderNotProvided),
    };
    check_duplicate(dedup, header)?;
    recover_stored_message(config, local, directory, message)
}

/// Processes every message of a stored-messages reply in order, one outcome
/// per message. A message that fails leaves the others' outcomes as they
/// would be without it (see `lemma_batch_isolation`); the successes are what
/// goes on to the next pipeline stage.
pub fn handle_stored_messages(
    config: &DhtConfig,
    local: &NodeIdentity,
    directory: &PeerDirectory,
    dedup: &mut DedupCache,
    response: &StoredMessagesResponse,
) -> (r: Vec<Outcome>)
    requires
        local.wf(),
        directory.wf(),
        old(dedup).wf(),
    ensures
        final(dedup).wf(),
        final(dedup).spec_capacity() == old(dedup).spec_capacity(),
        final(dedup).spec_seen() == batch_seen(
            *config,
            local@,
            directory.spec_peers(),
            old(dedup).spec_seen(),
            old(dedup).spec_capacity(),
            message_views(response.messages@),
        ),
        outcome_views(r@) == batch_outcomes(
            *config,
            local@,
            directory.spec_peers(),
            old(dedup).spec_seen(),
            old(dedup).spec_capacity(),
            message_views(response.messages@),
        ),
{
    let ghost seen0 = dedup.spec_seen();
    let ghost cap = dedup.spec_capacity();
    let ghost msgs = message_views(response.messages@);
    let ghost peers = directory.spec_peers();
    let mut r: Vec<Outcome> = Vec::new();
    let mut i: usize = 0;
    while i < response.messages.len()
        invariant
            i <= response.messages@.len(),
            msgs == message_views(response.messages@),
            dedup.wf(),
            dedup.spec_capacity() == cap,
            dedup.spec_seen() == batch_seen(
                *config,
                local@,
                peers,
                seen0,
                cap,
                msgs.take(i as int),
            ),
            outcome_views(r@) == batch_outcomes(
                *config,
                local@,
                peers,
                seen0,
                cap,
                msgs.take(i as int),
            ),
            local.wf(),
            directory.wf(),
            peers == directory.spec_peers(),
        decreases response.messages@.len() - i,
    {
        assert(msgs.take(i + 1 as int).drop_last() =~= msgs.take(i as int));
        assert(msgs.take(i + 1 as int).last() == msgs[i as int]);
        let ghost before = outcome_views(r@);
        let o = process_incoming_stored_message(config, local, directory, dedup, &response.messages[i]);
        r.push(o);
        assert(outcome_views(r@) =~= before.push(
            outcome(
                *config,
                local@,
                peers,
                batch_seen(*config, local@, peers, seen0, cap, msgs.take(i as int)),
                msgs[i as int],
            ),
        ));
        i = i + 1;
    }
    assert(msgs.take(response.messages@.len() as int) =~= msgs);
    r
}

/// A stored message whose origin signature does not verify over its body is
/// rejected before the duplicate check, whatever else holds of it.
pub proof fn lemma_bad_signature_rejected(
    config: DhtConfig,
    local: IdentityView,
    peers: Seq<PeerView>,
    m: StoredMessageView,
)
    requires
        m.dht_header is Some,
        !signature_checks(m.dht_header->0, m.encrypted_body),
    ensures
        rejection(config, local, peers, m) is Some,
{
}

/// A message that passes the checks and is new is recovered; offered again
/// after that, with a history that retains anything, it is a duplicate.
pub proof fn lemma_replay_is_duplicate(
    config: DhtConfig,
    local: IdentityView,
    peers: Seq<PeerView>,
    seen: Seq<Seq<u8>>,
    cap: nat,
    m: StoredMessageView,
)
    requires
        rejection(config, local, peers, m) is None,
        !seen.contains(m.dht_header->0.origin_signature),
        cap > 0,
    ensures
        outcome(config, local, peers, seen, m) == recovery(local, peers, m),
        outcome(config, local, peers, seen_after(config, local, peers, seen, cap, m), m) == Err::<
            DecryptedView,
            StoreAndForwardError,
        >(StoreAndForwardError::DuplicateMessage),
        batch_outcomes(config, local, peers, seen, cap, seq![m]) == seq![
            recovery(local, peers, m),
        ],
        batch_outcomes(
            config,
            local,
            peers,
            batch_seen(config, local, peers, seen, cap, seq![m]),
            cap,
            seq![m],
        ) == seq![
            Err::<DecryptedView, StoreAndForwardError>(StoreAndForwardError::DuplicateMessage),
        ],
{
    crate::dedup::lemma_insert_if_absent_twice(seen, cap, m.dht_header->0.origin_signature);
    let one = seq![m];
    assert(one.drop_last() =~= Seq::<StoredMessageView>::empty());
    assert(one.last() == m);
    assert(batch_seen(config, local, peers, seen, cap, one.drop_last()) == seen);
    assert(batch_outcomes(config, local, peers, seen, cap, one.drop_last()) =~= Seq::<
        OutcomeView,
    >::empty());
    let after = batch_seen(config, local, peers, seen, cap, one);
    assert(after == seen_after(config, local, peers, seen, cap, m));
    assert(batch_outcomes(config, local, peers, seen, cap, one) =~= seq![
        recovery(local, peers, m),
    ]);
    assert(batch_seen(config, local, peers, after, cap, one.drop_last()) == after);
    assert(batch_outcomes(config, local, peers, after, cap, one.drop_last()) =~= Seq::<
        OutcomeView,
    >::empty());
    assert(batch_outcomes(config, local, peers, after, cap, one) =~= seq![
        Err::<DecryptedView, StoreAndForwardError>(StoreAndForwardError::DuplicateMessage),
    ]);
}

/// The signature of a message that passed the checks before the duplicate
/// check.
pub open spec fn accepted_signature(
    config: DhtConfig,
    local: IdentityView,
    peers: Seq<PeerView>,
    m: StoredMessageView,
    x: Seq<u8>,
) -> bool {
    rejection(config, local, peers, m) is None && m.dht_header->0.origin_signature == x
}

proof fn lemma_remembered_sub(s: Seq<Seq<u8>>, cap: nat, f: Seq<u8>, x: Seq<u8>)
    requires
        remembered(s, cap, f).contains(x),
    ensures
        s.contains(x) || x == f,
{
    let t = remembered(s, cap, f);
    let k = choose|k: int| 0 <= k < t.len() && t[k] == x;
    if !(s.contains(f) || cap == 0) && k < t.len() - 1 {
        if s.len() >= cap {
            assert(s[k + 1] == x);
        } else {
            assert(s[k] == x);
        }
    }
}

/// Every signature in the history after a batch was there before or belongs
/// to a message of the batch that passed the checks.
proof fn lemma_batch_seen_sub(
    config: DhtConfig,
    local: IdentityView,
    peers: Seq<PeerView>,
    seen: Seq<Seq<u8>>,
    cap: nat,
    msgs: Seq<StoredMessageView>,
    x: Seq<u8>,
)
    requires
        batch_seen(config, local, peers, seen, cap, msgs).contains(x),
    ensures
        seen.contains(x) || exists|j: int|
            0 <= j < msgs.len() && accepted_signature(config, local, peers, #[trigger] msgs[j], x),
    decreases msgs.len(),
{
    if msgs.len() > 0 {
        let d = msgs.drop_last();
        let before = batch_seen(config, local, peers, seen, cap, d);
        let m = msgs.last();
        if rejection(config, local, peers, m) is None {
            lemma_remembered_sub(before, cap, m.dht_header->0.origin_signature, x);
        }
        if before.contains(x) {
            lemma_batch_seen_sub(config, local, peers, seen, cap, d, x);
            if !seen.contains(x) {
                let j = choose|j: int|
                    0 <= j < d.len() && accepted_signature(config, local, peers, #[trigger] d[j], x);
                assert(msgs[j] == d[j]);
            }
        } else {
            assert(accepted_signature(config, local, peers, msgs[msgs.len() - 1], x));
        }
    }
}

/// The outcome of the `j`-th message of a batch is its outcome against the
/// history left by the messages before it.
proof fn lemma_batch_outcome_at(
    config: DhtConfig,
    local: IdentityView,
    peers: Seq<PeerView>,
    seen: Seq<Seq<u8>>,
    cap: nat,
    msgs: Seq<StoredMessageView>,
    j: int,
)
    requires
        0 <= j < msgs.len(),
    ensures
        batch_outcomes(config, local, peers, seen, cap, msgs).len() == msgs.len(),
        batch_outcomes(config, local, peers, seen, cap, msgs)[j] == outcome(
            config,
            local,
            peers,
            batch_seen(config, local, peers, seen, cap, msgs.take(j)),
            msgs[j],
        ),
    decreases msgs.len(),
{
    lemma_batch_outcomes_len(config, local, peers, seen, cap, msgs);
    let d = msgs.drop_last();
    lemma_batch_outcomes_len(config, local, peers, seen, cap, d);
    if j == msgs.len() - 1 {
        assert(msgs.take(j) =~= d);
    } else {
        lemma_batch_outcome_at(config, local, peers, seen, cap, d, j);
        assert(d.take(j) =~= msgs.take(j));
    }
}

/// When one message of a batch fails a check before the duplicate check
/// (a bad signature, say) and every other passes the checks, is new, has a
/// signature of its own and decrypts to a known origin, every other message
/// is recovered.
pub proof fn lemma_batch_others_recovered(
    config: DhtConfig,
    local: IdentityView,
    peers: Seq<PeerView>,
    seen: Seq<Seq<u8>>,
    cap: nat,
    msgs: Seq<StoredMessageView>,
    i: int,
)
    requires
        0 <= i < msgs.len(),
        rejection(config, local, peers, msgs[i]) is Some,
        forall|j: int|
            0 <= j < msgs.len() && j != i ==> rejection(config, local, peers, #[trigger] msgs[j])
                is None && recovery(local, peers, msgs[j]) is Ok && !seen.contains(
                msgs[j].dht_header->0.origin_signature,
            ),
        forall|j: int, k: int|
            0 <= j < msgs.len() && 0 <= k < msgs.len() && j != i && k != i && j != k
                ==> (#[trigger] msgs[j]).dht_header->0.origin_signature != (
            #[trigger] msgs[k]).dht_header->0.origin_signature,
    ensures
        batch_outcomes(config, local, peers, seen, cap, msgs).len() == msgs.len(),
        batch_outcomes(config, local, peers, seen, cap, msgs)[i] is Err,
        forall|j: int|
            0 <= j < msgs.len() && j != i ==> #[trigger] batch_outcomes(
                config,
                local,
                peers,
                seen,
                cap,
                msgs,
            )[j] == recovery(local, peers, msgs[j]),
{
    lemma_batch_outcome_at(config, local, peers, seen, cap, msgs, i);
    assert forall|j: int| 0 <= j < msgs.len() && j != i implies #[trigger] batch_outcomes(
        config,
        local,
        peers,
        seen,
        cap,
        msgs,
    )[j] == recovery(local, peers, msgs[j]) by {
        lemma_batch_outcome_at(config, local, peers, seen, cap, msgs, j);
        let pre = msgs.take(j);
        let sig = msgs[j].dht_header->0.origin_signature;
        let h = batch_seen(config, local, peers, seen, cap, pre);
        if h.contains(sig) {
            lemma_batch_seen_sub(config, local, peers, seen, cap, pre, sig);
            let k = choose|k: int|
                0 <= k < pre.len() && accepted_signature(config, local, peers, #[trigger] pre[k], sig);
            assert(pre[k] == msgs[k]);
            assert(k != i);
        }
    }
}

/// A batch yields one outcome per message.
pub proof fn lemma_batch_outcomes_len(
    config: DhtConfig,
    local: IdentityView,
    peers: Seq<PeerView>,
    seen: Seq<Seq<u8>>,
    cap: nat,
    msgs: Seq<StoredMessageView>,
)
    ensures
        batch_outcomes(config, local, peers, seen, cap, msgs).len() == msgs.len(),
    decreases msgs.len(),
{
    if msgs.len() > 0 {
        lemma_batch_outcomes_len(config, local, peers, seen, cap, msgs.drop_last());
    }
}

/// A message that fails a check before the duplicate check (a bad signature,
/// say) is dropped with that error and changes nothing for the rest of its
/// batch: every other message has the outcome it would have in the batch
/// without it, and the duplicate history ends the same.
pub proof fn lemma_batch_isolation(
    config: DhtConfig,
    local: IdentityView,
    peers: Seq<PeerView>,
    seen: Seq<Seq<u8>>,
    cap: nat,
    msgs: Seq<StoredMessageView>,
    i: int,
)
    requires
        0 <= i < msgs.len(),
        rejection(config, local, peers, msgs[i]) is Some,
    ensures
        batch_seen(config, local, peers, seen, cap, msgs) == batch_seen(
            config,
            local,
            peers,
            seen,
            cap,
            msgs.remove(i),
        ),
        batch_outcomes(config, local, peers, seen, cap, msgs).len() == msgs.len(),
        batch_outcomes(config, local, peers, seen, cap, msgs)[i] == Err::<
            DecryptedView,
            StoreAndForwardError,
        >(rejection(config, local, peers, msgs[i])->0),
        forall|j: int|
            0 <= j < i ==> #[trigger] batch_outcomes(config, local, peers, seen, cap, msgs)[j]
                == batch_outcomes(config, local, peers, seen, cap, msgs.remove(i))[j],
        forall|j: int|
            i < j < msgs.len() ==> #[trigger] batch_outcomes(
                config,
                local,
                peers,
                seen,
                cap,
                msgs,
            )[j] == batch_outcomes(config, local, peers, seen, cap, msgs.remove(i))[j - 1],
    decreases msgs.len(),
{
    let d = msgs.drop_last();
    let rm = msgs.remove(i);
    lemma_batch_outcomes_len(config, local, peers, seen, cap, msgs);
    lemma_batch_outcomes_len(config, local, peers, seen, cap, d);
    lemma_batch_outcomes_len(config, local, peers, seen, cap, rm);
    if i == msgs.len() - 1 {
        assert(rm =~= d);
    } else {
        lemma_batch_isolation(config, local, peers, seen, cap, d, i);
        assert(rm.drop_last() =~= d.remove(i));
        assert(rm.last() == msgs.last());
        lemma_batch_outcomes_len(config, local, peers, seen, cap, d.remove(i));
        let full = batch_outcomes(config, local, peers, seen, cap, msgs);
        let less = batch_outcomes(config, local, peers, seen, cap, rm);
        assert forall|j: int| 0 <= j < i implies #[trigger] full[j] == less[j] by {
            assert(full[j] == batch_outcomes(config, local, peers, seen, cap, d)[j]);
            assert(less[j] == batch_outcomes(config, local, peers, seen, cap, d.remove(i))[j]);
        }
        assert forall|j: int| i < j < msgs.len() implies #[trigger] full[j] == less[j - 1] by {
            if j < msgs.len() - 1 {
                assert(full[j] == batch_outcomes(config, local, peers, seen, cap, d)[j]);
                assert(less[j - 1] == batch_outcomes(
                    config,
                    local,
                    peers,
                    seen,
                    cap,
                    d.remove(i),
                )[j - 1]);
            }
        }
        assert(full[i] == batch_outcomes(config, local, peers, seen, cap, d)[i]);
    }
}

/// How the task that receives an overlay message disposes of it.
#[derive(Debug, Clone, Copy, PartialEq, Eq, Structural)]
pub enum Route {
    /// An overlay message that could not be decrypted: dropped.
    Discard,
    /// A request for stored messages.
    HandleRequest,
    /// A reply carrying stored messages.
    HandleStoredMessages,
    /// Anything else goes to the next pipeline stage.
    PassOn,
}

pub open spec fn spec_route(message_type: DhtMessageType, decryption_failed: bool) -> Route {
    if message_type.spec_is_dht_message() && decryption_failed {
        Route::Discard
    } else {
        match message_type {
            DhtMessageType::SafRequestMessages => Route::HandleRequest,
            DhtMessageType::SafStoredMessages => Route::HandleStoredMessages,
            _ => Route::PassOn,
        }
    }
}

/// Where an inbound message of kind `message_type` goes.
pub fn route_message(message_type: DhtMessageType, decryption_failed: bool) -> (r: Route)
    ensures
        r == spec_route(message_type, decryption_failed),
{
    if message_type.is_dht_message() && decryption_failed {
        return Route::Discard;
    }
    match message_type {
        DhtMessageType::SafRequestMessages => Route::HandleRequest,
        DhtMessageType::SafStoredMessages => Route::HandleStoredMessages,
        _ => Route::PassOn,
    }
}

} // verus!
