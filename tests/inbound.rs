use ed25519_dalek::Signer;
use saf_relay::envelope::Peer;
use saf_relay::identity::NodeIdentity;
use saf_relay::inbound::{InboundMessagePipelineError, InnerInboundMessageService, MessageData, MessageEnvelopeHeader};
use saf_relay::peers::PeerDirectory;
use saf_relay::seed_words::KeyManagerSeedWords;

fn message(seed: u8, source_node_id: Vec<u8>, body: &[u8]) -> MessageData {
    let key = ed25519_dalek::SigningKey::from_bytes(&[seed; 32]);
    MessageData {
        source_node_id,
        version: 1,
        header: MessageEnvelopeHeader {
            message_public_key: key.verifying_key().to_bytes().to_vec(),
            message_signature: key.sign(body).to_bytes().to_vec(),
        },
        body: body.to_vec(),
    }
}

fn service() -> InnerInboundMessageService {
    let sender = NodeIdentity::new(vec![2u8; 32], vec![2u8; 13]).unwrap();
    let mut peers = PeerDirectory::new();
    assert!(peers.add_peer(Peer::new(sender.public_key().clone(), sender.node_id().clone())));
    InnerInboundMessageService::new(peers, 16)
}

#[test]
fn authentic_new_message_from_known_peer_passes() {
    let mut s = service();
    let m = s.process_message(message(2, vec![2u8; 13], b"hello")).unwrap();
    assert_eq!(m.body, b"hello");
    assert_eq!(m.version, 1);
    assert_eq!(m.peer.node_id, vec![2u8; 13]);
}

#[test]
fn replayed_message_is_discarded() {
    let mut s = service();
    assert!(s.process_message(message(2, vec![2u8; 13], b"hello")).is_ok());
    assert_eq!(
        s.process_message(message(2, vec![2u8; 13], b"hello")).unwrap_err(),
        InboundMessagePipelineError::DuplicateMessageDiscarded
    );
}

#[test]
fn forged_message_is_rejected() {
    let mut s = service();
    let mut m = message(2, vec![2u8; 13], b"hello");
    m.body = b"jello".to_vec();
    assert_eq!(s.process_message(m).unwrap_err(), InboundMessagePipelineError::InvalidMessageSignature);
}

#[test]
fn unknown_sender_is_rejected() {
    let mut s = service();
    assert_eq!(
        s.process_message(message(3, vec![3u8; 13], b"hello")).unwrap_err(),
        InboundMessagePipelineError::CannotFindSourcePeer
    );
}

#[test]
fn directory_refuses_known_keys_and_ids() {
    let mut peers = PeerDirectory::new();
    assert!(peers.add_peer(Peer::new(vec![1u8; 32], vec![1u8; 13])));
    assert!(!peers.add_peer(Peer::new(vec![1u8; 32], vec![9u8; 13])));
    assert!(!peers.add_peer(Peer::new(vec![9u8; 32], vec![1u8; 13])));
    assert_eq!(peers.len(), 1);
    assert_eq!(peers.find_with_node_id(&vec![1u8; 13]).unwrap().public_key, vec![1u8; 32]);
    assert!(peers.find_by_public_key(&vec![9u8; 32]).is_none());
}

#[test]
fn seed_words_keep_their_order() {
    let mut words = KeyManagerSeedWords::new();
    assert_eq!(words.len(), 0);
    words.add_word("abandon".to_string());
    words.add_word("ability".to_string());
    assert_eq!(words.len(), 2);
    assert_eq!(words.word(1), Some("ability".to_string()));
    assert_eq!(words.word(2), None);
}

#[test]
fn key_value_store_errors_carry_their_message() {
    use_errors();
}

fn use_errors() {
    let e = saf_relay::keyvalue_store::KeyValueStoreError::GetError("missing".to_string());
    assert_eq!(e, saf_relay::keyvalue_store::KeyValueStoreError::GetError("missing".to_string()));
    assert_ne!(e, saf_relay::keyvalue_store::KeyValueStoreError::InsertError("missing".to_string()));
}
