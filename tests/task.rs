use ed25519_dalek::Signer;
use saf_relay::config::DhtConfig;
use saf_relay::envelope::{DhtMessageFlags, DhtMessageHeader, DhtMessageType, NodeDestination, Peer, StoredMessage};
use saf_relay::identity::NodeIdentity;
use saf_relay::peers::PeerDirectory;
use saf_relay::request::{StoredMessagesRequest, StoredMessagesResponse};
use saf_relay::response::StoreAndForwardError;
use saf_relay::task::{DhtInboundMessage, DhtPayload, MessageHandlerTask, TaskAction};

fn identity(n: u8) -> NodeIdentity {
    NodeIdentity::new(vec![n; 32], vec![n; 13]).unwrap()
}

fn peer_of(id: &NodeIdentity) -> Peer {
    Peer::new(id.public_key().clone(), id.node_id().clone())
}

fn message_for(origin: u8, dest: &NodeIdentity, text: &[u8], stored_at: u64) -> StoredMessage {
    let body = identity(origin).encrypt_for(dest.public_key(), &text.to_vec()).unwrap();
    let key = ed25519_dalek::SigningKey::from_bytes(&[origin; 32]);
    let header = DhtMessageHeader {
        version: 0,
        destination: Some(NodeDestination::NodeId(dest.node_id().clone())),
        origin_public_key: identity(origin).public_key().clone(),
        origin_signature: key.sign(&body).to_bytes().to_vec(),
        message_type: DhtMessageType::Domain,
        flags: DhtMessageFlags::encrypted(),
    };
    StoredMessage::new(0, header, body, stored_at)
}

fn task(local: u8, peers: &[u8]) -> MessageHandlerTask {
    let mut directory = PeerDirectory::new();
    for p in peers {
        directory.add_peer(peer_of(&identity(*p)));
    }
    MessageHandlerTask::new(DhtConfig::default(), identity(local), directory)
}

#[test]
fn task_answers_request_then_recipient_recovers_once() {
    let mut a = task(1, &[2]);
    let b_id = identity(2);
    a.store_message(vec![1], message_for(1, &b_id, b"hi B", 100), 100);
    let request = DhtInboundMessage {
        message_type: DhtMessageType::SafRequestMessages,
        decryption_failed: false,
        source_peer: peer_of(&b_id),
        payload: DhtPayload::Request(StoredMessagesRequest::since(99)),
    };
    let response = match a.run(request, 101) {
        TaskAction::Send(out) => out,
        other => panic!("expected a reply, got {:?}", other),
    };
    assert_eq!(response.body.messages.len(), 1);

    let mut b = task(2, &[1]);
    let reply = |messages: Vec<StoredMessage>| DhtInboundMessage {
        message_type: DhtMessageType::SafStoredMessages,
        decryption_failed: false,
        source_peer: peer_of(&identity(1)),
        payload: DhtPayload::StoredMessages(StoredMessagesResponse { messages }),
    };
    let again = response.body.messages.clone();
    match b.run(reply(response.body.messages), 102) {
        TaskAction::Forward(outcomes) => assert_eq!(outcomes[0].as_ref().unwrap().body, b"hi B"),
        other => panic!("expected outcomes, got {:?}", other),
    }
    match b.run(reply(again), 103) {
        TaskAction::Forward(outcomes) => {
            assert_eq!(outcomes[0].as_ref().unwrap_err(), &StoreAndForwardError::DuplicateMessage)
        },
        other => panic!("expected outcomes, got {:?}", other),
    }
}

#[test]
fn task_drops_undecryptable_and_passes_on_the_rest() {
    let mut t = task(1, &[]);
    let msg = |message_type, decryption_failed| DhtInboundMessage {
        message_type,
        decryption_failed,
        source_peer: peer_of(&identity(2)),
        payload: DhtPayload::Other(vec![]),
    };
    assert!(matches!(t.run(msg(DhtMessageType::SafStoredMessages, true), 0), TaskAction::Discard));
    assert!(matches!(t.run(msg(DhtMessageType::Domain, false), 0), TaskAction::PassOn(_)));
    assert!(matches!(t.run(msg(DhtMessageType::SafRequestMessages, false), 0), TaskAction::InvalidEnvelopeBody));
}

#[test]
fn task_ignores_requests_from_outside_its_region() {
    let mut config = DhtConfig::default();
    config.saf_num_closest_nodes = 1;
    let mut directory = PeerDirectory::new();
    let mut near = vec![0u8; 13];
    near[12] = 1;
    let mut far = vec![0u8; 13];
    far[0] = 0x40;
    directory.add_peer(Peer::new(vec![7u8; 32], near));
    directory.add_peer(Peer::new(vec![8u8; 32], far.clone()));
    let local = NodeIdentity::new(vec![1u8; 32], vec![0u8; 13]).unwrap();
    let mut t = MessageHandlerTask::new(config, local, directory);
    let request = DhtInboundMessage {
        message_type: DhtMessageType::SafRequestMessages,
        decryption_failed: false,
        source_peer: Peer::new(vec![8u8; 32], far),
        payload: DhtPayload::Request(StoredMessagesRequest::new()),
    };
    assert!(matches!(t.run(request, 0), TaskAction::Discard));
}
