//! The directory of known peers, with the network-region query: whether a
//! node is among the `n` known peers closest to a region's centre, where
//! closeness is the XOR of node ids read as a big-endian number.
use vstd::prelude::*;
use crate::envelope::{bytes_eq, Peer, PeerView};

verus! {

/// Byte-wise XOR of two node ids, as long as the shorter one.
pub open spec fn xor_distance(a: Seq<u8>, b: Seq<u8>) -> Seq<u8> {
    Seq::new(if a.len() <= b.len() { a.len() } else { b.len() }, |i: int| a[i] ^ b[i])
}

/// Lexicographic order on byte strings (a proper prefix comes first).
pub open spec fn lex_less(x: Seq<u8>, y: Seq<u8>) -> bool
    decreases x.len(),
{
    if x.len() == 0 {
        y.len() > 0
    } else if y.len() == 0 {
        false
    } else if x[0] != y[0] {
        x[0] < y[0]
    } else {
        lex_less(x.skip(1), y.skip(1))
    }
}

/// Whether `a` is strictly closer to `centre` than `b` is.
pub open spec fn strictly_closer(a: Seq<u8>, b: Seq<u8>, centre: Seq<u8>) -> bool {
    lex_less(xor_distance(a, centre), xor_distance(b, centre))
}

/// How many of `peers` are strictly closer to `centre` than `node_id` is.
pub open spec fn closer_count(peers: Seq<PeerView>, node_id: Seq<u8>, centre: Seq<u8>) -> nat
    decreases peers.len(),
{
    if peers.len() == 0 {
        0
    } else {
        closer_count(peers.drop_last(), node_id, centre) + if strictly_closer(
            peers.last().node_id,
            node_id,
            centre,
        ) {
            1nat
        } else {
            0nat
        }
    }
}

/// `node_id` is in the region of `centre` of breadth `n` when fewer than `n`
/// known peers are strictly closer to `centre` than it is.
pub open spec fn in_region(peers: Seq<PeerView>, node_id: Seq<u8>, centre: Seq<u8>, n: nat) -> bool {
    closer_count(peers, node_id, centre) < n
}

pub open spec fn has_public_key(peers: Seq<PeerView>, pk: Seq<u8>) -> bool {
    exists|i: int| 0 <= i < peers.len() && peers[i].public_key == pk
}

/// The known peer with public key `pk`, if any.
pub open spec fn peer_by_public_key(peers: Seq<PeerView>, pk: Seq<u8>) -> Option<PeerView> {
    if has_public_key(peers, pk) {
        Some(peers[choose|i: int| 0 <= i < peers.len() && peers[i].public_key == pk])
    } else {
        None
    }
}

pub open spec fn has_node_id(peers: Seq<PeerView>, id: Seq<u8>) -> bool {
    exists|i: int| 0 <= i < peers.len() && peers[i].node_id == id
}

/// The known peer with node id `id`, if any.
pub open spec fn peer_by_node_id(peers: Seq<PeerView>, id: Seq<u8>) -> Option<PeerView> {
    if has_node_id(peers, id) {
        Some(peers[choose|i: int| 0 <= i < peers.len() && peers[i].node_id == id])
    } else {
        None
    }
}

pub open spec fn node_ids_unique(peers: Seq<PeerView>) -> bool {
    forall|i: int, j: int|
        0 <= i < peers.len() && 0 <= j < peers.len() && peers[i].node_id == peers[j].node_id ==> i
            == j
}

pub open spec fn public_keys_unique(peers: Seq<PeerView>) -> bool {
    forall|i: int, j: int|
        0 <= i < peers.len() && 0 <= j < peers.len() && peers[i].public_key == peers[j].public_key
            ==> i == j
}

fn xor_bytes(a: &Vec<u8>, b: &Vec<u8>) -> (r: Vec<u8>)
    ensures
        r@ == xor_distance(a@, b@),
{
    let n = if a.len() <= b.len() {
        a.len()
    } else {
        b.len()
    };
    let mut r: Vec<u8> = Vec::new();
    let mut i: usize = 0;
    while i < n
        invariant
            n == if a@.len() <= b@.len() { a@.len() } else { b@.len() },
            i <= n,
            r@.len() == i,
            forall|j: int| 0 <= j < i ==> r@[j] == a@[j] ^ b@[j],
        decreases n - i,
    {
        r.push(a[i] ^ b[i]);
        i = i + 1;
    }
    assert(r@ =~= xor_distance(a@, b@));
    r
}

fn lex_less_bytes(x: &Vec<u8>, y: &Vec<u8>) -> (r: bool)
    ensures
        r == lex_less(x@, y@),
{
    let mut i: usize = 0;
    assert(x@.skip(0) =~= x@);
    assert(y@.skip(0) =~= y@);
    while i < x.len() && i < y.len()
        invariant
            i <= x@.len(),
            i <= y@.len(),
            lex_less(x@, y@) == lex_less(x@.skip(i as int), y@.skip(i as int)),
        decreases x@.len() - i,
    {
        assert(x@.skip(i as int)[0] == x@[i as int]);
        assert(y@.skip(i as int)[0] == y@[i as int]);
        if x[i] != y[i] {
            return x[i] < y[i];
        }
        assert(x@.skip(i as int).skip(1) =~= x@.skip(i + 1 as int));
        assert(y@.skip(i as int).skip(1) =~= y@.skip(i + 1 as int));
        i = i + 1;
    }
    y.len() > i
}

/// The known peers, with distinct public keys and distinct node ids.
pub struct PeerDirectory {
    peers: Vec<Peer>,
}

impl PeerDirectory {
    pub closed spec fn spec_peers(&self) -> Seq<PeerView> {
        self.peers@.map_values(|p: Peer| p@)
    }

    pub open spec fn wf(&self) -> bool {
        public_keys_unique(self.spec_peers()) && node_ids_unique(self.spec_peers())
    }

    /// A directory that knows no peer.
    pub fn new() -> (r: Self)
        ensures
            r.wf(),
            r.spec_peers() == Seq::<PeerView>::empty(),
    {
        let r = PeerDirectory { peers: Vec::new() };
        assert(r.spec_peers() =~= Seq::<PeerView>::empty());
        r
    }

    /// Number of known peers.
    pub fn len(&self) -> (r: usize)
        ensures
            r == self.spec_peers().len(),
    {
        self.peers.len()
    }

    /// Adds `peer` unless a peer with its public key or its node id is known;
    /// tells whether it was added.
    pub fn add_peer(&mut self, peer: Peer) -> (r: bool)
        requires
            old(self).wf(),
        ensures
            final(self).wf(),
            r == !(has_public_key(old(self).spec_peers(), peer.public_key@) || has_node_id(
                old(self).spec_peers(),
                peer.node_id@,
            )),
            final(self).spec_peers() == if r {
                old(self).spec_peers().push(peer@)
            } else {
                old(self).spec_peers()
            },
    {
        if self.index_of(&peer.public_key).is_some() || self.index_of_node_id(&peer.node_id).is_some() {
            return false;
        }
        let ghost s = self.spec_peers();
        self.peers.push(peer);
        assert(self.spec_peers() =~= s.push(peer@));
        true
    }

    fn index_of(&self, public_key: &Vec<u8>) -> (r: Option<usize>)
        ensures
            match r {
                Some(i) => i < self.spec_peers().len() && self.spec_peers()[i as int].public_key
                    == public_key@,
                None => !has_public_key(self.spec_peers(), public_key@),
            },
    {
        let mut i: usize = 0;
        while i < self.peers.len()
            invariant
                i <= self.peers@.len(),
                forall|j: int| 0 <= j < i ==> self.spec_peers()[j].public_key != public_key@,
            decreases self.peers@.len() - i,
        {
            if bytes_eq(&self.peers[i].public_key, public_key) {
                return Some(i);
            }
            i = i + 1;
        }
        None
    }

    fn index_of_node_id(&self, node_id: &Vec<u8>) -> (r: Option<usize>)
        ensures
            match r {
                Some(i) => i < self.spec_peers().len() && self.spec_peers()[i as int].node_id
                    == node_id@,
                None => !has_node_id(self.spec_peers(), node_id@),
            },
    {
        let mut i: usize = 0;
        while i < self.peers.len()
            invariant
                i <= self.peers@.len(),
                forall|j: int| 0 <= j < i ==> self.spec_peers()[j].node_id != node_id@,
            decreases self.peers@.len() - i,
        {
            if bytes_eq(&self.peers[i].node_id, node_id) {
                return Some(i);
            }
            i = i + 1;
        }
        None
    }

    /// The known peer with node id `node_id`.
    pub fn find_with_node_id(&self, node_id: &Vec<u8>) -> (r: Option<Peer>)
        requires
            self.wf(),
        ensures
            match r {
                Some(p) => peer_by_node_id(self.spec_peers(), node_id@) == Some(p@),
                None => peer_by_node_id(self.spec_peers(), node_id@) is None,
            },
    {
        match self.index_of_node_id(node_id) {
            Some(i) => {
                let ghost s = self.spec_peers();
                let ghost c = choose|c: int| 0 <= c < s.len() && s[c].node_id == node_id@;
                assert(c == i);
                Some(self.peers[i].duplicate())
            },
            None => None,
        }
    }

    /// The known peer with public key `public_key`.
    pub fn find_by_public_key(&self, public_key: &Vec<u8>) -> (r: Option<Peer>)
        requires
            self.wf(),
        ensures
            match r {
                Some(p) => peer_by_public_key(self.spec_peers(), public_key@) == Some(p@),
                None => peer_by_public_key(self.spec_peers(), public_key@) is None,
            },
    {
        match self.index_of(public_key) {
            Some(i) => {
                let ghost s = self.spec_peers();
                let ghost c = choose|c: int| 0 <= c < s.len() && s[c].public_key == public_key@;
                assert(c == i);
                Some(self.peers[i].duplicate())
            },
            None => None,
        }
    }

    /// Whether `node_id` is among the `n` known peers closest to `centre`.
    pub fn in_network_region(&self, node_id: &Vec<u8>, centre: &Vec<u8>, n: usize) -> (r: bool)
        ensures
            r == in_region(self.spec_peers(), node_id@, centre@, n as nat),
    {
        let target = xor_bytes(node_id, centre);
        let mut count: usize = 0;
        let mut i: usize = 0;
        while i < self.peers.len()
            invariant
                i <= self.peers@.len(),
                target@ == xor_distance(node_id@, centre@),
                count == closer_count(self.spec_peers().take(i as int), node_id@, centre@),
                count <= i,
            decreases self.peers@.len() - i,
        {
            assert(self.spec_peers().take(i + 1 as int).drop_last() =~= self.spec_peers().take(
                i as int,
            ));
            let d = xor_bytes(&self.peers[i].node_id, centre);
            if lex_less_bytes(&d, &target) {
                count = count + 1;
            }
            i = i + 1;
        }
        assert(self.spec_peers().take(self.peers@.len() as int) =~= self.spec_peers());
        count < n
    }
}

} // verus!
