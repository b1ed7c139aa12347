//! Answering a peer's request for the messages stored for it.
use vstd::prelude::*;
use crate::broadcast_strategy::BroadcastStrategy;
use crate::config::DhtConfig;
use crate::envelope::{
    bytes_eq, message_views, DestinationView, DhtMessageType, NodeDestination, Peer, PeerView,
    StoredMessage, StoredMessageView,
};
use crate::peers::{in_region, PeerDirectory};
use crate::store::{entry_views, EntryView, StoreEntry};

verus! {

/// A request for stored messages, optionally only those stored at or after
/// `since` (seconds).
#[derive(Debug, Clone, Copy, PartialEq, Eq, Structural)]
pub struct StoredMessagesRequest {
    pub since: Option<u64>,
}

impl StoredMessagesRequest {
    /// A request for every stored message.
    pub fn new() -> (r: Self)
        ensures
            r.since is None,
    {
        StoredMessagesRequest { since: None }
    }

    /// A request for the messages stored at or after `since`.
    pub fn since(since: u64) -> (r: Self)
        ensures
            r.since == Some(since),
    {
        StoredMessagesRequest { since: Some(since) }
    }
}

/// A batch of stored messages, as sent in reply to a request.
#[derive(Debug)]
pub struct StoredMessagesResponse {
    pub messages: Vec<StoredMessage>,
}

/// A message to send straight to one peer, encrypted for it.
#[derive(Debug)]
pub struct OutboundResponse {
    /// Whom to send to: one peer, by public key.
    pub broadcast_strategy: BroadcastStrategy,
    /// Destination written in the header: undisclosed.
    pub destination: NodeDestination,
    pub message_type: DhtMessageType,
    /// Whether the body must be encrypted for the peer.
    pub encrypt_for_destination: bool,
    pub body: StoredMessagesResponse,
}

/// Whether `m` was stored inside the request's time window.
pub open spec fn in_time_window(since: Option<u64>, m: StoredMessageView) -> bool {
    match since {
        None => true,
        Some(t) => match m.stored_at {
            Some(s) => t <= s,
            None => false,
        },
    }
}

/// Whether `m` is addressed so that `source` may receive it: an undisclosed
/// destination, or the source's public key or node id. A header without a
/// destination, or no header, never matches.
pub open spec fn destined_for(m: StoredMessageView, source: PeerView) -> bool {
    match m.dht_header {
        None => false,
        Some(h) => match h.destination {
            None => false,
            Some(DestinationView::Unknown) => true,
            Some(DestinationView::PublicKey(pk)) => pk == source.public_key,
            Some(DestinationView::NodeId(id)) => id == source.node_id,
        },
    }
}

pub open spec fn wanted(since: Option<u64>, source: PeerView, m: StoredMessageView) -> bool {
    in_time_window(since, m) && destined_for(m, source)
}

/// The messages of `entries` that `source` asked for, in store order.
pub open spec fn matching(entries: Seq<EntryView>, since: Option<u64>, source: PeerView) -> Seq<
    StoredMessageView,
>
    decreases entries.len(),
{
    if entries.len() == 0 {
        Seq::empty()
    } else {
        let rest = matching(entries.drop_last(), since, source);
        if wanted(since, source, entries.last().message) {
            rest.push(entries.last().message)
        } else {
            rest
        }
    }
}

/// The first `max` elements of `s` (all of them if there are fewer).
pub open spec fn truncated<A>(s: Seq<A>, max: nat) -> Seq<A> {
    if s.len() <= max {
        s
    } else {
        s.take(max as int)
    }
}

/// The messages that answer the request: those that match, earliest stored
/// first, at most `max` of them.
pub open spec fn selected(entries: Seq<EntryView>, since: Option<u64>, source: PeerView, max: nat) -> Seq<
    StoredMessageView,
> {
    truncated(matching(entries, since, source), max)
}

fn destined_for_exec(m: &StoredMessage, source: &Peer) -> (r: bool)
    ensures
        r == destined_for(m@, source@),
{
    match &m.dht_header {
        None => false,
        Some(h) => match &h.destination {
            None => false,
            Some(NodeDestination::Unknown) => true,
            Some(NodeDestination::PublicKey(pk)) => bytes_eq(pk, &source.public_key),
            Some(NodeDestination::NodeId(id)) => bytes_eq(id, &source.node_id),
        },
    }
}

fn in_time_window_exec(since: Option<u64>, m: &StoredMessage) -> (r: bool)
    ensures
        r == in_time_window(since, m@),
{
    match since {
        None => true,
        Some(t) => match m.stored_at {
            Some(s) => t <= s,
            None => false,
        },
    }
}

/// The stored messages of `snapshot` that answer `request` from `source`:
/// those stored inside its time window and addressed to it or to nobody in
/// particular, earliest first, at most `max` of them.
pub fn select_stored_messages(
    request: &StoredMessagesRequest,
    source: &Peer,
    snapshot: &Vec<StoreEntry>,
    max: usize,
) -> (r: Vec<StoredMessage>)
    ensures
        message_views(r@) == selected(entry_views(snapshot@), request.since, source@, max as nat),
{
    let ghost entries = entry_views(snapshot@);
    let mut r: Vec<StoredMessage> = Vec::new();
    let mut i: usize = 0;
    while i < snapshot.len()
        invariant
            i <= snapshot@.len(),
            entries == entry_views(snapshot@),
            message_views(r@) == selected(entries.take(i as int), request.since, source@, max as nat),
        decreases snapshot@.len() - i,
    {
        let ghost prefix = entries.take(i as int);
        let ghost all = matching(prefix, request.since, source@);
        assert(entries.take(i + 1 as int).drop_last() =~= prefix);
        let m = &snapshot[i].message;
        if in_time_window_exec(request.since, m) && destined_for_exec(m, source) {
            let ghost grown = all.push(m@);
            if r.len() < max {
                let ghost before = message_views(r@);
                r.push(m.duplicate());
                assert(message_views(r@) =~= before.push(m@));
                assert(truncated(grown, max as nat) =~= before.push(m@));
            } else {
                assert(truncated(grown, max as nat) =~= truncated(all, max as nat));
            }
        }
        i = i + 1;
    }
    assert(entries.take(snapshot@.len() as int) =~= entries);
    r
}

/// Answers a request for stored messages from `source`. A source outside the
/// region of breadth `saf_num_closest_nodes` around this node gets nothing.
/// Any other gets, sent straight to its public key and encrypted for it, the
/// messages that `select_stored_messages` picks with the configured maximum.
pub fn handle_stored_messages_request(
    config: &DhtConfig,
    directory: &PeerDirectory,
    local_node_id: &Vec<u8>,
    source: &Peer,
    request: &StoredMessagesRequest,
    snapshot: &Vec<StoreEntry>,
) -> (r: Option<OutboundResponse>)
    ensures
        r is Some <==> in_region(
            directory.spec_peers(),
            source.node_id@,
            local_node_id@,
            config.saf_num_closest_nodes as nat,
        ),
        r is Some ==> {
            let o = r->0;
            &&& o.broadcast_strategy is DirectPublicKey
            &&& o.broadcast_strategy->DirectPublicKey_0@ == source.public_key@
            &&& o.destination@ == DestinationView::Unknown
            &&& o.message_type == DhtMessageType::SafStoredMessages
            &&& o.encrypt_for_destination
            &&& message_views(o.body.messages@) == selected(
                entry_views(snapshot@),
                request.since,
                source@,
                config.saf_max_returned_messages as nat,
            )
        },
{
    if !directory.in_network_region(&source.node_id, local_node_id, config.saf_num_closest_nodes) {
        return None;
    }
    let messages = select_stored_messages(
        request,
        source,
        snapshot,
        config.saf_max_returned_messages,
    );
    Some(
        OutboundResponse {
            broadcast_strategy: BroadcastStrategy::DirectPublicKey(
                crate::envelope::copy_bytes(&source.public_key),
            ),
            destination: NodeDestination::Unknown,
            message_type: DhtMessageType::SafStoredMessages,
            encrypt_for_destination: true,
            body: StoredMessagesResponse { messages },
        },
    )
}

/// What `matching` keeps: each kept message is wanted and comes from an
/// entry, and each entry whose message is wanted is kept.
pub proof fn lemma_matching_members(entries: Seq<EntryView>, since: Option<u64>, source: PeerView)
    ensures
        forall|i: int|
            0 <= i < matching(entries, since, source).len() ==> wanted(
                since,
                source,
                #[trigger] matching(entries, since, source)[i],
            ),
        forall|j: int|
            0 <= j < entries.len() && wanted(since, source, #[trigger] entries[j].message)
                ==> matching(entries, since, source).contains(entries[j].message),
    decreases entries.len(),
{
    if entries.len() > 0 {
        let init = entries.drop_last();
        lemma_matching_members(init, since, source);
        let rest = matching(init, since, source);
        let all = matching(entries, since, source);
        assert forall|i: int| 0 <= i < all.len() implies wanted(since, source, #[trigger] all[i]) by {
            if i < rest.len() {
                assert(all[i] == rest[i]);
            }
        }
        assert forall|j: int|
            0 <= j < entries.len() && wanted(
                since,
                source,
                #[trigger] entries[j].message,
            ) implies all.contains(entries[j].message) by {
            if j < entries.len() - 1 {
                assert(init[j] == entries[j]);
                let k = choose|k: int| 0 <= k < rest.len() && rest[k] == entries[j].message;
                assert(all[k] == rest[k]);
            } else {
                assert(all[all.len() - 1] == entries[j].message);
            }
        }
    }
}

/// Every message handed to `source` was stored inside its time window and is
/// addressed to it (by public key or node id) or to nobody in particular.
pub proof fn lemma_selected_destined(
    entries: Seq<EntryView>,
    since: Option<u64>,
    source: PeerView,
    max: nat,
)
    ensures
        forall|i: int|
            0 <= i < selected(entries, since, source, max).len() ==> wanted(
                since,
                source,
                #[trigger] selected(entries, since, source, max)[i],
            ),
{
    lemma_matching_members(entries, since, source);
    let all = matching(entries, since, source);
    assert forall|i: int|
        0 <= i < selected(entries, since, source, max).len() implies wanted(
        since,
        source,
        #[trigger] selected(entries, since, source, max)[i],
    ) by {
        assert(selected(entries, since, source, max)[i] == all[i]);
    }
}

/// When the request has no time bound and the maximum leaves room for every
/// match, a stored message addressed to a public key is handed to `source`
/// exactly when that key is the source's, and one addressed to a node id
/// exactly when that id is the source's.
pub proof fn lemma_destination_filtering(
    entries: Seq<EntryView>,
    source: PeerView,
    max: nat,
    j: int,
)
    requires
        0 <= j < entries.len(),
        matching(entries, None, source).len() <= max,
    ensures
        match entries[j].message.dht_header {
            Some(h) => match h.destination {
                Some(DestinationView::PublicKey(pk)) => selected(
                    entries,
                    None,
                    source,
                    max,
                ).contains(entries[j].message) <==> pk == source.public_key,
                Some(DestinationView::NodeId(id)) => selected(
                    entries,
                    None,
                    source,
                    max,
                ).contains(entries[j].message) <==> id == source.node_id,
                _ => true,
            },
            None => true,
        },
{
    lemma_matching_members(entries, None, source);
    let all = matching(entries, None, source);
    let m = entries[j].message;
    assert(selected(entries, None, source, max) == all);
    if all.contains(m) {
        let k = choose|k: int| 0 <= k < all.len() && all[k] == m;
        assert(wanted(None, source, all[k]));
    }
}

} // verus!
