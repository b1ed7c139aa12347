use ed25519_dalek::Signer;
use saf_relay::config::DhtConfig;
use saf_relay::crypt::{decrypt, derive_shared_secret, encrypt, encrypt_with_nonce, public_key, verify_signature, DecryptError};
use saf_relay::dedup::DedupCache;
use saf_relay::envelope::{DhtMessageFlags, DhtMessageHeader, DhtMessageType, NodeDestination, Peer, StoredMessage};
use saf_relay::identity::NodeIdentity;
use saf_relay::peers::PeerDirectory;
use saf_relay::request::{handle_stored_messages_request, select_stored_messages, StoredMessagesRequest, StoredMessagesResponse};
use saf_relay::response::{
    handle_stored_messages, process_incoming_stored_message, recover_stored_message, route_message,
    validate_stored_message, ErrorClass, Route, StoreAndForwardError,
};
use saf_relay::store::MessageStore;

const NOW: u64 = 1_700_000_000;

fn seed(n: u8) -> Vec<u8> {
    vec![n; 32]
}

fn identity(n: u8) -> NodeIdentity {
    NodeIdentity::new(seed(n), vec![n; 13]).unwrap()
}

fn peer_of(id: &NodeIdentity) -> Peer {
    Peer::new(id.public_key().clone(), id.node_id().clone())
}

fn sign(n: u8, body: &[u8]) -> Vec<u8> {
    let key = ed25519_dalek::SigningKey::from_bytes(&[n; 32]);
    key.sign(body).to_bytes().to_vec()
}

fn header(origin: u8, destination: NodeDestination, flags: DhtMessageFlags, body: &[u8]) -> DhtMessageHeader {
    DhtMessageHeader {
        version: 0,
        destination: Some(destination),
        origin_public_key: identity(origin).public_key().clone(),
        origin_signature: sign(origin, body),
        message_type: DhtMessageType::Domain,
        flags,
    }
}

/// A message from `origin` to `dest`, encrypted for `dest` and signed.
fn sealed_message(origin: u8, dest: u8, destination: NodeDestination, plaintext: &[u8], stored_at: u64) -> StoredMessage {
    let body = identity(origin)
        .encrypt_for(identity(dest).public_key(), &plaintext.to_vec())
        .unwrap();
    let h = header(origin, destination, DhtMessageFlags::encrypted(), &body);
    StoredMessage::new(0, h, body, stored_at)
}

fn plain_message(destination: NodeDestination, body: &[u8], stored_at: u64) -> StoredMessage {
    let h = header(1, destination, DhtMessageFlags::empty(), body);
    StoredMessage::new(0, h, body.to_vec(), stored_at)
}

fn directory_with(peers: &[&NodeIdentity]) -> PeerDirectory {
    let mut directory = PeerDirectory::new();
    for p in peers {
        directory.add_peer(peer_of(p));
    }
    directory
}

#[test]
fn request_stored_messages() {
    let mut storage = MessageStore::new(10);
    let node_identity = identity(1);
    let directory = PeerDirectory::new();

    // Recent message
    storage.insert(vec![0], plain_message(NodeDestination::Unknown, b"A", NOW), 60, NOW);
    // Expired message
    storage.insert(vec![1], plain_message(NodeDestination::Unknown, b"", NOW), 0, NOW);
    // Out of time range
    let _old = plain_message(NodeDestination::Unknown, b"", NOW - 86_400);

    let request = StoredMessagesRequest::since(NOW - 60);
    assert_eq!(route_message(DhtMessageType::SafRequestMessages, false), Route::HandleRequest);
    let snapshot = storage.iterate_snapshot(NOW);
    let out = handle_stored_messages_request(
        &DhtConfig::default(),
        &directory,
        node_identity.node_id(),
        &peer_of(&node_identity),
        &request,
        &snapshot,
    )
    .unwrap();
    assert_eq!(out.body.messages.len(), 1);
    assert_eq!(out.body.messages[0].encrypted_body, b"A");
    assert_eq!(out.message_type, DhtMessageType::SafStoredMessages);
    assert!(out.encrypt_for_destination);
    assert_eq!(out.broadcast_strategy.direct_public_key(), Some(node_identity.public_key()));
}

#[test]
fn receive_stored_messages() {
    let node_identity = identity(1);
    let directory = directory_with(&[&node_identity, &node_identity]);
    let mut dedup = DedupCache::new(10);

    let msg1 = sealed_message(1, 1, NodeDestination::Unknown, b"A", NOW);
    let msg2 = sealed_message(1, 1, NodeDestination::Unknown, b"B", NOW);
    let response = StoredMessagesResponse { messages: vec![msg1, msg2] };
    assert_eq!(route_message(DhtMessageType::SafStoredMessages, false), Route::HandleStoredMessages);

    let results = handle_stored_messages(&DhtConfig::default(), &node_identity, &directory, &mut dedup, &response);
    let msgs: Vec<Vec<u8>> = results.into_iter().map(|r| r.unwrap().body).collect();
    assert_eq!(msgs.len(), 2);
    assert!(msgs.contains(&b"A".to_vec()));
    assert!(msgs.contains(&b"B".to_vec()));
    assert_eq!(dedup.len(), msgs.len());
}

#[test]
fn round_trip_between_two_nodes() {
    let a = identity(3);
    let b = identity(4);
    let plaintext = b"hello store and forward".to_vec();
    let ciphertext = a.encrypt_for(b.public_key(), &plaintext).unwrap();
    assert_ne!(ciphertext, plaintext);
    assert_eq!(b.decrypt_from(a.public_key(), &ciphertext), Ok(plaintext.clone()));
    let c = identity(5);
    assert_eq!(c.decrypt_from(a.public_key(), &ciphertext), Err(DecryptError::AuthenticationFailed));
}

#[test]
fn shared_secret_is_symmetric() {
    let sa = seed(3);
    let sb = seed(4);
    let ab = derive_shared_secret(&sa, &public_key(&sb)).unwrap();
    let ba = derive_shared_secret(&sb, &public_key(&sa)).unwrap();
    assert_eq!(ab, ba);
    assert_eq!(ab.len(), 32);
    assert_ne!(ab, public_key(&sb));
    assert_ne!(public_key(&sa), sa);
    assert_eq!(derive_shared_secret(&sa, &vec![1u8; 31]), None);
}

#[test]
fn encryption_frames_nonce_and_authenticates() {
    let key = vec![7u8; 32];
    let nonce = vec![1u8; 12];
    let plaintext = b"payload".to_vec();
    let c = encrypt_with_nonce(&key, &nonce, &plaintext);
    assert_eq!(&c[..12], &nonce[..]);
    assert_eq!(c.len(), 12 + plaintext.len() + 16);
    assert_ne!(&c[12..12 + plaintext.len()], &plaintext[..]);
    assert_eq!(decrypt(&key, &c), Ok(plaintext.clone()));
    let mut tampered = c.clone();
    tampered[20] ^= 1;
    assert_eq!(decrypt(&key, &tampered), Err(DecryptError::AuthenticationFailed));
    assert_eq!(decrypt(&key, &vec![0u8; 11]), Err(DecryptError::MissingNonce));
    let fresh = encrypt(&key, &plaintext);
    assert_eq!(decrypt(&key, &fresh), Ok(plaintext));
}

#[test]
fn signatures_verify_only_over_their_body() {
    let pk = identity(2).public_key().clone();
    let sig = sign(2, b"body");
    assert!(verify_signature(&pk, &sig, &b"body".to_vec()));
    assert!(!verify_signature(&pk, &sig, &b"other".to_vec()));
    assert!(!verify_signature(&pk, &sig[..63].to_vec(), &b"body".to_vec()));
}

#[test]
fn dedup_reports_new_then_duplicate() {
    let mut dedup = DedupCache::new(4);
    let f = vec![1u8, 2, 3];
    assert_eq!(dedup.insert_if_absent(f.clone()), false);
    assert_eq!(dedup.insert_if_absent(f.clone()), true);
    assert_eq!(dedup.len(), 1);
}

#[test]
fn dedup_forgets_beyond_its_horizon() {
    let mut dedup = DedupCache::new(2);
    assert!(!dedup.insert_if_absent(vec![1]));
    assert!(!dedup.insert_if_absent(vec![2]));
    assert!(!dedup.insert_if_absent(vec![3]));
    assert!(!dedup.contains(&vec![1]));
    assert!(dedup.insert_if_absent(vec![3]));
    let mut none = DedupCache::new(0);
    assert!(!none.insert_if_absent(vec![1]));
    assert!(!none.insert_if_absent(vec![1]));
}

/// Twelve peers whose node ids lie at distance 1..=12 from the local id 0.
fn ranked_directory() -> (PeerDirectory, Vec<Peer>) {
    let mut directory = PeerDirectory::new();
    let mut peers = Vec::new();
    for rank in 1..=12u8 {
        let mut node_id = vec![0u8; 13];
        node_id[12] = rank;
        let peer = Peer::new(vec![rank; 32], node_id);
        directory.add_peer(Peer::new(peer.public_key.clone(), peer.node_id.clone()));
        peers.push(peer);
    }
    (directory, peers)
}

#[test]
fn request_from_outside_region_gets_nothing() {
    let (directory, peers) = ranked_directory();
    let local = vec![0u8; 13];
    let mut config = DhtConfig::default();
    config.saf_num_closest_nodes = 3;
    let mut store = MessageStore::new(10);
    store.insert(vec![0], plain_message(NodeDestination::Unknown, b"A", NOW), 60, NOW);
    let snapshot = store.iterate_snapshot(NOW);
    let request = StoredMessagesRequest::new();
    let tenth = &peers[9];
    assert!(!directory.in_network_region(&tenth.node_id, &local, 3));
    assert!(handle_stored_messages_request(&config, &directory, &local, tenth, &request, &snapshot).is_none());
    let second = &peers[1];
    let out = handle_stored_messages_request(&config, &directory, &local, second, &request, &snapshot).unwrap();
    assert_eq!(out.body.messages.len(), 1);
}

#[test]
fn request_returns_only_messages_for_the_source() {
    let source = Peer::new(vec![5u8; 32], vec![5u8; 13]);
    let msgs = vec![
        plain_message(NodeDestination::PublicKey(vec![5u8; 32]), b"pk-mine", NOW),
        plain_message(NodeDestination::PublicKey(vec![6u8; 32]), b"pk-other", NOW),
        plain_message(NodeDestination::NodeId(vec![5u8; 13]), b"id-mine", NOW),
        plain_message(NodeDestination::NodeId(vec![6u8; 13]), b"id-other", NOW),
        plain_message(NodeDestination::Unknown, b"anyone", NOW),
    ];
    let mut store = MessageStore::new(10);
    for (i, m) in msgs.into_iter().enumerate() {
        store.insert(vec![i as u8], m, 60, NOW);
    }
    let mut headless = plain_message(NodeDestination::Unknown, b"headless", NOW);
    headless.dht_header = None;
    store.insert(vec![9], headless, 60, NOW);
    let snapshot = store.iterate_snapshot(NOW);
    let picked = select_stored_messages(&StoredMessagesRequest::new(), &source, &snapshot, 50);
    let bodies: Vec<Vec<u8>> = picked.into_iter().map(|m| m.encrypted_body).collect();
    assert_eq!(bodies, vec![b"pk-mine".to_vec(), b"id-mine".to_vec(), b"anyone".to_vec()]);
}

#[test]
fn request_honours_since_and_maximum() {
    let source = Peer::new(vec![5u8; 32], vec![5u8; 13]);
    let mut store = MessageStore::new(10);
    store.insert(vec![0], plain_message(NodeDestination::Unknown, b"early", NOW - 100), 600, NOW);
    store.insert(vec![1], plain_message(NodeDestination::Unknown, b"edge", NOW - 10), 600, NOW);
    store.insert(vec![2], plain_message(NodeDestination::Unknown, b"late", NOW), 600, NOW);
    let snapshot = store.iterate_snapshot(NOW);
    let picked = select_stored_messages(&StoredMessagesRequest::since(NOW - 10), &source, &snapshot, 50);
    assert_eq!(picked.len(), 2);
    assert_eq!(picked[0].encrypted_body, b"edge");
    let capped = select_stored_messages(&StoredMessagesRequest::new(), &source, &snapshot, 1);
    assert_eq!(capped.len(), 1);
    assert_eq!(capped[0].encrypted_body, b"early");
    assert!(select_stored_messages(&StoredMessagesRequest::new(), &source, &snapshot, 0).is_empty());
}

#[test]
fn bad_signature_does_not_stop_the_batch() {
    let local = identity(1);
    let directory = directory_with(&[&local, &identity(2)]);
    let mut dedup = DedupCache::new(10);
    let mut corrupt = sealed_message(2, 1, NodeDestination::Unknown, b"two", NOW);
    corrupt.encrypted_body[0] ^= 1;
    let response = StoredMessagesResponse {
        messages: vec![
            sealed_message(2, 1, NodeDestination::Unknown, b"one", NOW),
            corrupt,
            sealed_message(2, 1, NodeDestination::Unknown, b"three", NOW),
        ],
    };
    let results = handle_stored_messages(&DhtConfig::default(), &local, &directory, &mut dedup, &response);
    assert_eq!(results.len(), 3);
    assert_eq!(results[0].as_ref().unwrap().body, b"one");
    assert_eq!(results[1].as_ref().unwrap_err(), &StoreAndForwardError::InvalidSignature);
    assert_eq!(results[2].as_ref().unwrap().body, b"three");
    assert_eq!(dedup.len(), 2);
}

#[test]
fn zero_ttl_message_is_never_returned() {
    let mut store = MessageStore::new(4);
    store.insert(vec![1], plain_message(NodeDestination::Unknown, b"A", NOW), 0, NOW);
    assert_eq!(store.len(), 1);
    assert!(store.iterate_snapshot(NOW).is_empty());
    assert!(store.iterate_snapshot(NOW + 1).is_empty());
    store.remove_expired(NOW);
    assert_eq!(store.len(), 0);
}

#[test]
fn store_overwrites_and_evicts_oldest() {
    let mut store = MessageStore::new(2);
    store.insert(vec![1], plain_message(NodeDestination::Unknown, b"one", NOW), 60, NOW);
    store.insert(vec![2], plain_message(NodeDestination::Unknown, b"two", NOW), 60, NOW);
    store.insert(vec![1], plain_message(NodeDestination::Unknown, b"uno", NOW), 60, NOW);
    assert_eq!(store.len(), 2);
    store.insert(vec![3], plain_message(NodeDestination::Unknown, b"three", NOW), 60, NOW);
    let snapshot = store.iterate_snapshot(NOW);
    let keys: Vec<Vec<u8>> = snapshot.iter().map(|e| e.key.clone()).collect();
    assert_eq!(keys, vec![vec![1], vec![3]]);
    assert_eq!(snapshot[0].message.encrypted_body, b"uno");
    assert_eq!(snapshot[0].expires_at, NOW + 60);
    assert!(store.iterate_snapshot(NOW + 60).is_empty());
    let mut nothing = MessageStore::new(0);
    nothing.insert(vec![1], plain_message(NodeDestination::Unknown, b"one", NOW), 60, NOW);
    assert_eq!(nothing.len(), 0);
    let mut forever = MessageStore::new(1);
    forever.insert(vec![1], plain_message(NodeDestination::Unknown, b"one", NOW), u64::MAX, NOW);
    assert_eq!(forever.iterate_snapshot(NOW)[0].expires_at, u64::MAX);
}

#[test]
fn stored_message_reaches_offline_node_once() {
    let a = identity(1);
    let b = identity(2);
    let t0 = NOW;
    // A stores a message for B, addressed by node id.
    let mut store = MessageStore::new(10);
    let message = sealed_message(1, 2, NodeDestination::NodeId(b.node_id().clone()), b"for B", t0);
    store.insert(vec![42], message, 3_600, t0);
    // B asks A for what it holds since a second before.
    let a_directory = directory_with(&[&b]);
    let out = handle_stored_messages_request(
        &DhtConfig::default(),
        &a_directory,
        a.node_id(),
        &peer_of(&b),
        &StoredMessagesRequest::since(t0 - 1),
        &store.iterate_snapshot(t0 + 5),
    )
    .unwrap();
    assert_eq!(out.body.messages.len(), 1);
    // B processes the reply, then the same reply again.
    let b_directory = directory_with(&[&a]);
    let mut dedup = DedupCache::new(100);
    let config = DhtConfig::default();
    let first = handle_stored_messages(&config, &b, &b_directory, &mut dedup, &out.body);
    assert_eq!(first.len(), 1);
    let delivered = first[0].as_ref().unwrap();
    assert_eq!(delivered.body, b"for B");
    assert_eq!(&delivered.source_peer.public_key, a.public_key());
    let second = handle_stored_messages(&config, &b, &b_directory, &mut dedup, &out.body);
    assert_eq!(second[0].as_ref().unwrap_err(), &StoreAndForwardError::DuplicateMessage);
}

fn process(local: &NodeIdentity, directory: &PeerDirectory, dedup: &mut DedupCache, m: &StoredMessage) -> Result<Vec<u8>, StoreAndForwardError> {
    process_incoming_stored_message(&DhtConfig::default(), local, directory, dedup, m).map(|d| d.body)
}

#[test]
fn each_rejection_has_its_error() {
    let local = identity(1);
    let directory = directory_with(&[&identity(2)]);
    let mut dedup = DedupCache::new(10);

    let mut no_header = sealed_message(2, 1, NodeDestination::Unknown, b"x", NOW);
    no_header.dht_header = None;
    assert_eq!(process(&local, &directory, &mut dedup, &no_header), Err(StoreAndForwardError::DhtHeaderNotProvided));

    let mut no_destination = sealed_message(2, 1, NodeDestination::Unknown, b"x", NOW);
    no_destination.dht_header.as_mut().unwrap().destination = None;
    assert_eq!(process(&local, &directory, &mut dedup, &no_destination), Err(StoreAndForwardError::MalformedHeader));

    let elsewhere = sealed_message(2, 1, NodeDestination::PublicKey(vec![9u8; 32]), b"x", NOW);
    assert_eq!(process(&local, &directory, &mut dedup, &elsewhere), Err(StoreAndForwardError::InvalidDestination));

    let mut forged = sealed_message(2, 1, NodeDestination::Unknown, b"x", NOW);
    forged.dht_header.as_mut().unwrap().origin_signature = sign(3, &forged.encrypted_body);
    assert_eq!(process(&local, &directory, &mut dedup, &forged), Err(StoreAndForwardError::InvalidSignature));

    let mut unflagged = sealed_message(2, 1, NodeDestination::Unknown, b"x", NOW);
    unflagged.dht_header.as_mut().unwrap().flags = DhtMessageFlags::empty();
    assert_eq!(process(&local, &directory, &mut dedup, &unflagged), Err(StoreAndForwardError::StoredMessageNotEncrypted));
    assert_eq!(dedup.len(), 0);

    let not_for_us = sealed_message(2, 3, NodeDestination::Unknown, b"x", NOW);
    assert_eq!(process(&local, &directory, &mut dedup, &not_for_us), Err(StoreAndForwardError::DecryptionFailed));
    assert_eq!(process(&local, &directory, &mut dedup, &not_for_us), Err(StoreAndForwardError::DuplicateMessage));

    let stranger = sealed_message(4, 1, NodeDestination::PublicKey(local.public_key().clone()), b"x", NOW);
    assert_eq!(process(&local, &directory, &mut dedup, &stranger), Err(StoreAndForwardError::PeerNotFound));

    let by_id = sealed_message(2, 1, NodeDestination::NodeId(local.node_id().clone()), b"ok", NOW);
    assert_eq!(process(&local, &directory, &mut dedup, &by_id), Ok(b"ok".to_vec()));
}

#[test]
fn node_id_destination_in_local_region_is_accepted() {
    let local = NodeIdentity::new(seed(1), vec![0u8; 13]).unwrap();
    let sender = identity(2);
    let mut directory = directory_with(&[&sender]);
    let mut near = vec![0u8; 13];
    near[12] = 1;
    let mut far = vec![0xffu8; 13];
    far[0] = 0x80;
    directory.add_peer(Peer::new(vec![8u8; 32], far.clone()));
    let mut dedup = DedupCache::new(10);
    let m = sealed_message(2, 1, NodeDestination::NodeId(near), b"near", NOW);
    assert_eq!(process(&local, &directory, &mut dedup, &m), Ok(b"near".to_vec()));
    let mut config = DhtConfig::default();
    config.num_neighbouring_nodes = 0;
    let m2 = sealed_message(2, 1, NodeDestination::NodeId(far), b"far", NOW);
    let r = process_incoming_stored_message(&config, &local, &directory, &mut dedup, &m2);
    assert_eq!(r.unwrap_err(), StoreAndForwardError::InvalidDestination);
}

#[test]
fn error_classes() {
    assert_eq!(StoreAndForwardError::DecryptionFailed.class(), ErrorClass::Benign);
    assert_eq!(StoreAndForwardError::DuplicateMessage.class(), ErrorClass::Benign);
    assert_eq!(StoreAndForwardError::PeerNotFound.class(), ErrorClass::Benign);
    assert_eq!(StoreAndForwardError::InvalidSignature.class(), ErrorClass::ProtocolViolation);
    assert_eq!(StoreAndForwardError::DhtHeaderNotProvided.class(), ErrorClass::ProtocolViolation);
}

#[test]
fn routing_of_inbound_messages() {
    assert_eq!(route_message(DhtMessageType::SafRequestMessages, true), Route::Discard);
    assert_eq!(route_message(DhtMessageType::Join, true), Route::Discard);
    assert_eq!(route_message(DhtMessageType::Domain, true), Route::PassOn);
    assert_eq!(route_message(DhtMessageType::Discover, false), Route::PassOn);
}

#[test]
fn validation_and_recovery_in_two_phases() {
    let local = identity(1);
    let directory = directory_with(&[&identity(2)]);
    let config = DhtConfig::default();
    let good = sealed_message(2, 1, NodeDestination::Unknown, b"two phases", NOW);
    assert_eq!(validate_stored_message(&config, &local, &directory, &good), Ok(()));
    let recovered = recover_stored_message(&config, &local, &directory, &good).unwrap();
    assert_eq!(recovered.body, b"two phases");
    assert_eq!(recovered.source_peer.node_id, vec![2u8; 13]);
    let mut unflagged = sealed_message(2, 1, NodeDestination::Unknown, b"x", NOW);
    unflagged.dht_header.as_mut().unwrap().flags = DhtMessageFlags::empty();
    assert_eq!(
        validate_stored_message(&config, &local, &directory, &unflagged),
        Err(StoreAndForwardError::StoredMessageNotEncrypted)
    );
}

#[test]
fn forged_short_ciphertext_is_refused() {
    let key = vec![7u8; 32];
    assert_eq!(decrypt(&key, &vec![0u8; 40]), Err(DecryptError::AuthenticationFailed));
}
