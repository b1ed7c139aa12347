//! Liveness bookkeeping: ping and pong counters, pings awaiting their pong,
//! and a moving average of each peer's round-trip latency. Instants are in
//! milliseconds.
use vstd::prelude::*;
use std::collections::HashMap;
use crate::envelope::{bytes_eq, copy_bytes};

verus! {

/// Settings of the liveness service.
#[derive(Debug, Clone, Copy, PartialEq, Eq, Structural)]
pub struct LivenessConfig {
    /// Milliseconds between automatic pings, or `None` for no automatic pings.
    pub auto_ping_interval: Option<u64>,
    /// Whether to join the network when the node starts.
    pub enable_auto_join: bool,
    /// Whether to ask for stored messages when the node starts.
    pub enable_auto_stored_message_request: bool,
}

impl Default for LivenessConfig {
    fn default() -> (r: Self)
        ensures
            r.auto_ping_interval is None,
            r.enable_auto_join,
            r.enable_auto_stored_message_request,
    {
        LivenessConfig {
            auto_ping_interval: None,
            enable_auto_join: true,
            enable_auto_stored_message_request: true,
        }
    }
}

/// Latency samples kept per peer.
pub const LATENCY_SAMPLE_WINDOW_SIZE: usize = 25;

/// Milliseconds after which a ping without a pong is forgotten.
pub const MAX_INFLIGHT_TTL: u64 = 20000;

/// Sum of the samples.
pub open spec fn sample_sum(s: Seq<u32>) -> int
    decreases s.len(),
{
    if s.len() == 0 {
        0
    } else {
        sample_sum(s.drop_last()) + s.last() as int
    }
}

/// Mean of the samples, rounded down; zero when there are none.
pub open spec fn mean(s: Seq<u32>) -> int {
    if s.len() == 0 {
        0
    } else {
        sample_sum(s) / s.len() as int
    }
}

/// A sample of `ms` milliseconds, capped at `u32::MAX`.
pub open spec fn capped_ms(ms: u64) -> u32 {
    if ms > u32::MAX as u64 {
        u32::MAX
    } else {
        ms as u32
    }
}

/// The samples after `x` is added to a window of `window` samples: the
/// oldest leaves a full window.
pub open spec fn windowed(s: Seq<u32>, window: nat, x: u32) -> Seq<u32> {
    if window == 0 {
        s
    } else if s.len() >= window {
        s.skip(1).push(x)
    } else {
        s.push(x)
    }
}

proof fn lemma_sum_bound(s: Seq<u32>)
    ensures
        0 <= sample_sum(s) <= s.len() * (u32::MAX as int),
    decreases s.len(),
{
    if s.len() > 0 {
        lemma_sum_bound(s.drop_last());
    }
}

/// A moving mean of the most recent latency samples, in milliseconds.
pub struct AverageLatency {
    samples: Vec<u32>,
    window: usize,
}

impl AverageLatency {
    pub closed spec fn spec_samples(&self) -> Seq<u32> {
        self.samples@
    }

    pub closed spec fn spec_window(&self) -> nat {
        self.window as nat
    }

    pub open spec fn wf(&self) -> bool {
        self.spec_samples().len() <= self.spec_window()
    }

    /// An empty average over the last `num_samples` samples.
    pub fn new(num_samples: usize) -> (r: Self)
        ensures
            r.wf(),
            r.spec_samples() == Seq::<u32>::empty(),
            r.spec_window() == num_samples,
    {
        AverageLatency { samples: Vec::new(), window: num_samples }
    }

    /// Adds a sample of `sample_ms` milliseconds, capped at `u32::MAX`; the
    /// oldest sample leaves a full window. A window of zero keeps nothing.
    pub fn add_sample(&mut self, sample_ms: u64)
        requires
            old(self).wf(),
        ensures
            final(self).wf(),
            final(self).spec_window() == old(self).spec_window(),
            final(self).spec_samples() == windowed(
                old(self).spec_samples(),
                old(self).spec_window(),
                capped_ms(sample_ms),
            ),
    {
        if self.window == 0 {
            return;
        }
        let ghost s = self.samples@;
        if self.samples.len() >= self.window {
            self.samples.remove(0);
            assert(self.samples@ =~= s.skip(1));
        }
        let x: u32 = if sample_ms > u32::MAX as u64 {
            u32::MAX
        } else {
            sample_ms as u32
        };
        self.samples.push(x);
    }

    /// The mean of the samples held, rounded down; zero when there are none.
    pub fn calc_average(&self) -> (r: u32)
        ensures
            r as int == mean(self.spec_samples()),
    {
        let n = self.samples.len();
        if n == 0 {
            return 0;
        }
        let mut sum: u128 = 0;
        let mut i: usize = 0;
        while i < n
            invariant
                n == self.samples@.len(),
                i <= n,
                sum as int == sample_sum(self.samples@.take(i as int)),
            decreases n - i,
        {
            proof {
                assert(self.samples@.take(i + 1 as int).drop_last() =~= self.samples@.take(i as int));
                lemma_sum_bound(self.samples@.take(i as int));
                assert(sum as int <= i * (u32::MAX as int));
                assert(i * (u32::MAX as int) <= usize::MAX as int * (u32::MAX as int)) by (nonlinear_arith)
                    requires i <= usize::MAX;
            }
            sum = sum + self.samples[i] as u128;
            i = i + 1;
        }
        assert(self.samples@.take(n as int) =~= self.samples@);
        proof {
            lemma_sum_bound(self.samples@);
            let t = sum as int;
            let m = n as int;
            assert(t / m <= u32::MAX as int) by (nonlinear_arith)
                requires t <= m * (u32::MAX as int), m > 0, t >= 0;
        }
        (sum / n as u128) as u32
    }
}

/// Tag of an entry of pong metadata.
#[derive(Debug, Clone, Copy, PartialEq, Eq, Structural)]
pub enum MetadataKey {
    NoKey,
    ChainMetadata,
}

impl MetadataKey {
    pub open spec fn spec_code(self) -> i32 {
        match self {
            MetadataKey::NoKey => 0,
            MetadataKey::ChainMetadata => 1,
        }
    }

    /// The number under which the entry is kept.
    pub fn code(&self) -> (r: i32)
        ensures
            r == self.spec_code(),
    {
        match self {
            MetadataKey::NoKey => 0,
            MetadataKey::ChainMetadata => 1,
        }
    }
}

/// A ping sent to `node_id` at `sent_at`, still awaiting its pong.
pub struct InflightPing {
    pub node_id: Vec<u8>,
    pub sent_at: u64,
}

/// A counter after one increment, wrapping at the largest value.
pub open spec fn bumped(n: usize) -> usize {
    if n == usize::MAX {
        0
    } else {
        (n + 1) as usize
    }
}

/// Milliseconds from `from` to `to`, zero when `to` comes first.
pub open spec fn elapsed(from: u64, to: u64) -> u64 {
    if to >= from {
        (to - from) as u64
    } else {
        0
    }
}

/// Whether `i` is the first position of `s` keyed by `id`.
pub open spec fn is_first<V>(s: Seq<(Seq<u8>, V)>, id: Seq<u8>, i: int) -> bool {
    &&& 0 <= i < s.len()
    &&& s[i].0 == id
    &&& forall|j: int| 0 <= j < i ==> s[j].0 != id
}

pub open spec fn keyed<V>(s: Seq<(Seq<u8>, V)>, id: Seq<u8>) -> bool {
    exists|i: int| 0 <= i < s.len() && s[i].0 == id
}

/// The first position keyed by `id` (meaningful when `keyed`).
pub open spec fn first_index<V>(s: Seq<(Seq<u8>, V)>, id: Seq<u8>) -> int {
    choose|i: int| is_first(s, id, i)
}

/// `s` without its entries keyed by `id`.
pub open spec fn without_node<V>(s: Seq<(Seq<u8>, V)>, id: Seq<u8>) -> Seq<(Seq<u8>, V)>
    decreases s.len(),
{
    if s.len() == 0 {
        s
    } else {
        let rest = without_node(s.drop_last(), id);
        if s.last().0 == id {
            rest
        } else {
            rest.push(s.last())
        }
    }
}

/// The pings of `s` sent no more than `MAX_INFLIGHT_TTL` before `now`.
pub open spec fn fresh_pings(s: Seq<(Seq<u8>, u64)>, now: u64) -> Seq<(Seq<u8>, u64)>
    decreases s.len(),
{
    if s.len() == 0 {
        s
    } else {
        let rest = fresh_pings(s.drop_last(), now);
        if elapsed(s.last().1, now) <= MAX_INFLIGHT_TTL {
            rest.push(s.last())
        } else {
            rest
        }
    }
}

/// The samples held for `id` in `l`, none if it has no entry.
pub open spec fn samples_for(l: Seq<(Seq<u8>, Seq<u32>)>, id: Seq<u8>) -> Seq<u32> {
    if keyed(l, id) {
        l[first_index(l, id)].1
    } else {
        Seq::empty()
    }
}

proof fn lemma_without_absent<V>(s: Seq<(Seq<u8>, V)>, id: Seq<u8>)
    requires
        !keyed(s, id),
    ensures
        without_node(s, id) == s,
    decreases s.len(),
{
    if s.len() > 0 {
        let d = s.drop_last();
        assert(!keyed(d, id)) by {
            if keyed(d, id) {
                let i = choose|i: int| 0 <= i < d.len() && d[i].0 == id;
                assert(s[i] == d[i]);
            }
        }
        lemma_without_absent(d, id);
        assert(s.last().0 != id);
        assert(d.push(s.last()) =~= s);
    }
}

proof fn lemma_has_first<V>(s: Seq<(Seq<u8>, V)>, id: Seq<u8>, j: int)
    requires
        0 <= j < s.len(),
        s[j].0 == id,
    ensures
        is_first(s, id, first_index(s, id)),
    decreases j,
{
    if forall|x: int| 0 <= x < j ==> s[x].0 != id {
        assert(is_first(s, id, j));
    } else {
        let x = choose|x: int| 0 <= x < j && s[x].0 == id;
        lemma_has_first(s, id, x);
    }
}

/// Changing or adding entries keyed by `id` leaves the samples of every
/// other node as they were.
proof fn lemma_samples_for_other(
    l: Seq<(Seq<u8>, Seq<u32>)>,
    t: Seq<(Seq<u8>, Seq<u32>)>,
    id: Seq<u8>,
    o: Seq<u8>,
)
    requires
        o != id,
        l.len() <= t.len(),
        forall|j: int| 0 <= j < l.len() ==> (#[trigger] t[j]).0 == l[j].0,
        forall|j: int| 0 <= j < l.len() && l[j].0 != id ==> (#[trigger] t[j]) == l[j],
        forall|j: int| l.len() <= j < t.len() ==> (#[trigger] t[j]).0 == id,
    ensures
        samples_for(t, o) == samples_for(l, o),
{
    if keyed(l, o) {
        let j = choose|j: int| 0 <= j < l.len() && l[j].0 == o;
        lemma_has_first(l, o, j);
        let f = first_index(l, o);
        assert(is_first(t, o, f)) by {
            assert forall|x: int| 0 <= x < f implies t[x].0 != o by {
                assert(t[x].0 == l[x].0);
            }
        }
        lemma_first_unique(t, o, f);
    } else {
        assert(!keyed(t, o)) by {
            if keyed(t, o) {
                let j = choose|j: int| 0 <= j < t.len() && t[j].0 == o;
                if j < l.len() {
                    assert(l[j].0 == t[j].0);
                }
            }
        }
    }
}

proof fn lemma_first_unique<V>(s: Seq<(Seq<u8>, V)>, id: Seq<u8>, i: int)
    requires
        is_first(s, id, i),
    ensures
        keyed(s, id),
        first_index(s, id) == i,
{
    lemma_has_first(s, id, i);
    let c = first_index(s, id);
    if c < i {
        assert(s[c].0 != id);
    } else if c > i {
        assert(s[i].0 != id);
    }
}


/// Relies on chrono::Utc::now: the current time in milliseconds since the
/// Unix epoch. Nothing is promised of its value.
#[verifier::external_body]
fn now_millis() -> (r: u64) {
    chrono::Utc::now().timestamp_millis() as u64
}

/// State of the liveness service.
pub struct LivenessState {
    inflight_pings: Vec<InflightPing>,
    peer_latency: Vec<(Vec<u8>, AverageLatency)>,
    pings_received: usize,
    pongs_received: usize,
    pings_sent: usize,
    pongs_sent: usize,
    pong_metadata: HashMap<i32, Vec<u8>>,
}

impl LivenessState {
    pub closed spec fn spec_pings_received(&self) -> usize {
        self.pings_received
    }

    pub closed spec fn spec_pongs_received(&self) -> usize {
        self.pongs_received
    }

    pub closed spec fn spec_pings_sent(&self) -> usize {
        self.pings_sent
    }

    pub closed spec fn spec_pongs_sent(&self) -> usize {
        self.pongs_sent
    }

    /// The pings awaiting a pong: node id and instant sent.
    pub closed spec fn spec_inflight(&self) -> Seq<(Seq<u8>, u64)> {
        self.inflight_pings@.map_values(|p: InflightPing| (p.node_id@, p.sent_at))
    }

    /// The latency samples held per peer.
    pub closed spec fn spec_latency(&self) -> Seq<(Seq<u8>, Seq<u32>)> {
        self.peer_latency@.map_values(
            |e: (Vec<u8>, AverageLatency)| (e.0@, e.1.spec_samples()),
        )
    }

    pub closed spec fn spec_pong_metadata(&self) -> Map<i32, Vec<u8>> {
        self.pong_metadata@
    }

    pub closed spec fn wf(&self) -> bool {
        forall|i: int|
            0 <= i < self.peer_latency@.len() ==> (#[trigger] self.peer_latency@[i]).1.wf()
                && self.peer_latency@[i].1.spec_window() == LATENCY_SAMPLE_WINDOW_SIZE
    }

    /// Fresh state: every counter zero, nothing in flight, no metadata.
    pub fn new() -> (r: Self)
        ensures
            r.wf(),
            r.spec_pings_received() == 0,
            r.spec_pongs_received() == 0,
            r.spec_pings_sent() == 0,
            r.spec_pongs_sent() == 0,
            r.spec_inflight().len() == 0,
            r.spec_latency().len() == 0,
            r.spec_pong_metadata() == Map::<i32, Vec<u8>>::empty(),
    {
        LivenessState {
            inflight_pings: Vec::new(),
            peer_latency: Vec::new(),
            pings_received: 0,
            pongs_received: 0,
            pings_sent: 0,
            pongs_sent: 0,
            pong_metadata: HashMap::new(),
        }
    }

    /// Counts a ping sent; returns the count before.
    pub fn inc_pings_sent(&mut self) -> (r: usize)
        ensures
            r == old(self).spec_pings_sent(),
            final(self).spec_pings_sent() == bumped(old(self).spec_pings_sent()),
            old(self).wf() ==> final(self).wf(),
            final(self).spec_inflight() == old(self).spec_inflight(),
            final(self).spec_latency() == old(self).spec_latency(),
            final(self).spec_pings_received() == old(self).spec_pings_received(),
            final(self).spec_pongs_sent() == old(self).spec_pongs_sent(),
            final(self).spec_pongs_received() == old(self).spec_pongs_received(),
    {
        let r = self.pings_sent;
        self.pings_sent = if r == usize::MAX {
            0
        } else {
            r + 1
        };
        r
    }

    /// Counts a pong sent; returns the count before.
    pub fn inc_pongs_sent(&mut self) -> (r: usize)
        ensures
            r == old(self).spec_pongs_sent(),
            final(self).spec_pongs_sent() == bumped(old(self).spec_pongs_sent()),
            old(self).wf() ==> final(self).wf(),
            final(self).spec_inflight() == old(self).spec_inflight(),
            final(self).spec_latency() == old(self).spec_latency(),
            final(self).spec_pings_sent() == old(self).spec_pings_sent(),
            final(self).spec_pings_received() == old(self).spec_pings_received(),
            final(self).spec_pongs_received() == old(self).spec_pongs_received(),
    {
        let r = self.pongs_sent;
        self.pongs_sent = if r == usize::MAX {
            0
        } else {
            r + 1
        };
        r
    }

    /// Counts a ping received; returns the count before.
    pub fn inc_pings_received(&mut self) -> (r: usize)
        ensures
            r == old(self).spec_pings_received(),
            final(self).spec_pings_received() == bumped(old(self).spec_pings_received()),
            old(self).wf() ==> final(self).wf(),
            final(self).spec_inflight() == old(self).spec_inflight(),
            final(self).spec_latency() == old(self).spec_latency(),
            final(self).spec_pings_sent() == old(self).spec_pings_sent(),
            final(self).spec_pongs_sent() == old(self).spec_pongs_sent(),
            final(self).spec_pongs_received() == old(self).spec_pongs_received(),
    {
        let r = self.pings_received;
        self.pings_received = if r == usize::MAX {
            0
        } else {
            r + 1
        };
        r
    }

    /// Counts a pong received; returns the count before.
    pub fn inc_pongs_received(&mut self) -> (r: usize)
        ensures
            r == old(self).spec_pongs_received(),
            final(self).spec_pongs_received() == bumped(old(self).spec_pongs_received()),
            old(self).wf() ==> final(self).wf(),
            final(self).spec_inflight() == old(self).spec_inflight(),
            final(self).spec_latency() == old(self).spec_latency(),
            final(self).spec_pings_sent() == old(self).spec_pings_sent(),
            final(self).spec_pongs_sent() == old(self).spec_pongs_sent(),
            final(self).spec_pings_received() == old(self).spec_pings_received(),
    {
        let r = self.pongs_received;
        self.pongs_received = if r == usize::MAX {
            0
        } else {
            r + 1
        };
        r
    }

    pub fn pings_received(&self) -> (r: usize)
        ensures
            r == self.spec_pings_received(),
    {
        self.pings_received
    }

    pub fn pongs_received(&self) -> (r: usize)
        ensures
            r == self.spec_pongs_received(),
    {
        self.pongs_received
    }

    pub fn pings_sent(&self) -> (r: usize)
        ensures
            r == self.spec_pings_sent(),
    {
        self.pings_sent
    }

    pub fn pongs_sent(&self) -> (r: usize)
        ensures
            r == self.spec_pongs_sent(),
    {
        self.pongs_sent
    }

    /// The pong metadata, by key code.
    pub fn pong_metadata(&self) -> (r: &HashMap<i32, Vec<u8>>)
        ensures
            r@ == self.spec_pong_metadata(),
    {
        &self.pong_metadata
    }

    /// Sets a pong metadata entry, replacing any under the same key.
    pub fn set_pong_metadata_entry(&mut self, key: MetadataKey, value: Vec<u8>)
        ensures
            final(self).spec_pong_metadata() == old(self).spec_pong_metadata().insert(
                key.spec_code(),
                value,
            ),
    {
        self.pong_metadata.insert(key.code(), value);
    }

    fn find_inflight(&self, node_id: &Vec<u8>) -> (r: Option<usize>)
        ensures
            match r {
                Some(i) => is_first(self.spec_inflight(), node_id@, i as int),
                None => !keyed(self.spec_inflight(), node_id@),
            },
    {
        let mut i: usize = 0;
        while i < self.inflight_pings.len()
            invariant
                i <= self.inflight_pings@.len(),
                forall|j: int| 0 <= j < i ==> self.spec_inflight()[j].0 != node_id@,
            decreases self.inflight_pings@.len() - i,
        {
            if bytes_eq(&self.inflight_pings[i].node_id, node_id) {
                return Some(i);
            }
            i = i + 1;
        }
        None
    }

    fn find_latency(&self, node_id: &Vec<u8>) -> (r: Option<usize>)
        ensures
            match r {
                Some(i) => is_first(self.spec_latency(), node_id@, i as int),
                None => !keyed(self.spec_latency(), node_id@),
            },
    {
        let mut i: usize = 0;
        while i < self.peer_latency.len()
            invariant
                i <= self.peer_latency@.len(),
                forall|j: int| 0 <= j < i ==> self.spec_latency()[j].0 != node_id@,
            decreases self.peer_latency@.len() - i,
        {
            if bytes_eq(&self.peer_latency[i].0, node_id) {
                return Some(i);
            }
            i = i + 1;
        }
        None
    }

    /// Keeps, in order, the in-flight pings not sent to `node_id` (when
    /// `by_node`) or those still fresh at `now` (otherwise).
    fn retain_inflight(&mut self, node_id: &Vec<u8>, now: u64, by_node: bool)
        ensures
            final(self).spec_inflight() == if by_node {
                without_node(old(self).spec_inflight(), node_id@)
            } else {
                fresh_pings(old(self).spec_inflight(), now)
            },
            final(self).spec_latency() == old(self).spec_latency(),
            final(self).wf() == old(self).wf(),
            final(self).spec_pings_received() == old(self).spec_pings_received(),
            final(self).spec_pongs_received() == old(self).spec_pongs_received(),
            final(self).spec_pings_sent() == old(self).spec_pings_sent(),
            final(self).spec_pongs_sent() == old(self).spec_pongs_sent(),
            final(self).spec_pong_metadata() == old(self).spec_pong_metadata(),
    {
        let ghost s = self.spec_inflight();
        let mut kept: Vec<InflightPing> = Vec::new();
        let mut i: usize = 0;
        while i < self.inflight_pings.len()
            invariant
                i <= self.inflight_pings@.len(),
                s == self.spec_inflight(),
                kept@.map_values(|p: InflightPing| (p.node_id@, p.sent_at)) == if by_node {
                    without_node(s.take(i as int), node_id@)
                } else {
                    fresh_pings(s.take(i as int), now)
                },
            decreases self.inflight_pings@.len() - i,
        {
            let ghost before = kept@.map_values(|p: InflightPing| (p.node_id@, p.sent_at));
            assert(s.take(i + 1 as int).drop_last() =~= s.take(i as int));
            let p = &self.inflight_pings[i];
            let keep = if by_node {
                !bytes_eq(&p.node_id, node_id)
            } else {
                let age: u64 = if now >= p.sent_at {
                    now - p.sent_at
                } else {
                    0
                };
                age <= MAX_INFLIGHT_TTL
            };
            if keep {
                kept.push(InflightPing { node_id: copy_bytes(&p.node_id), sent_at: p.sent_at });
                assert(kept@.map_values(|p: InflightPing| (p.node_id@, p.sent_at)) =~= before.push(
                    s[i as int],
                ));
            }
            i = i + 1;
        }
        assert(s.take(s.len() as int) =~= s);
        self.inflight_pings = kept;
    }

    /// Notes a ping sent to `node_id` at `now`, replacing an earlier one to
    /// the same node, then forgets the pings older than `MAX_INFLIGHT_TTL`.
    pub fn add_inflight_ping_at(&mut self, node_id: Vec<u8>, now: u64)
        ensures
            final(self).spec_inflight() == fresh_pings(
                without_node(old(self).spec_inflight(), node_id@).push((node_id@, now)),
                now,
            ),
            final(self).spec_latency() == old(self).spec_latency(),
            final(self).wf() == old(self).wf(),
    {
        self.retain_inflight(&node_id, now, true);
        let ghost s = self.spec_inflight();
        self.inflight_pings.push(InflightPing { node_id, sent_at: now });
        assert(self.spec_inflight() =~= s.push((node_id@, now)));
        self.clear_stale_inflight_pings(now);
    }

    /// Forgets the pings sent more than `MAX_INFLIGHT_TTL` before `now`.
    fn clear_stale_inflight_pings(&mut self, now: u64)
        ensures
            final(self).spec_inflight() == fresh_pings(old(self).spec_inflight(), now),
            final(self).spec_latency() == old(self).spec_latency(),
            final(self).wf() == old(self).wf(),
    {
        let empty: Vec<u8> = Vec::new();
        self.retain_inflight(&empty, now, false);
    }

    /// Adds a latency sample for `node_id`, creating its average if needed,
    /// and returns the new mean.
    fn add_latency_sample(&mut self, node_id: Vec<u8>, sample_ms: u64) -> (r: u32)
        requires
            old(self).wf(),
        ensures
            final(self).wf(),
            samples_for(final(self).spec_latency(), node_id@) == windowed(
                samples_for(old(self).spec_latency(), node_id@),
                LATENCY_SAMPLE_WINDOW_SIZE as nat,
                capped_ms(sample_ms),
            ),
            r as int == mean(samples_for(final(self).spec_latency(), node_id@)),
            forall|o: Seq<u8>|
                o != node_id@ ==> #[trigger] samples_for(final(self).spec_latency(), o)
                    == samples_for(old(self).spec_latency(), o),
            final(self).spec_inflight() == old(self).spec_inflight(),
            final(self).spec_pongs_received() == old(self).spec_pongs_received(),
    {
        let ghost l = self.spec_latency();
        match self.find_latency(&node_id) {
            Some(i) => {
                proof {
                    lemma_first_unique(l, node_id@, i as int);
                }
                let mut entry = self.peer_latency.remove(i);
                entry.1.add_sample(sample_ms);
                let r = entry.1.calc_average();
                self.peer_latency.insert(i, entry);
                assert(self.spec_latency() =~= l.update(i as int, (node_id@, entry.1.spec_samples())));
                proof {
                    lemma_first_unique(self.spec_latency(), node_id@, i as int);
                    assert forall|o: Seq<u8>| o != node_id@ implies #[trigger] samples_for(
                        self.spec_latency(),
                        o,
                    ) == samples_for(l, o) by {
                        lemma_samples_for_other(l, self.spec_latency(), node_id@, o);
                    }
                }
                assert forall|j: int| 0 <= j < self.peer_latency@.len() implies (
                #[trigger] self.peer_latency@[j]).1.wf() && self.peer_latency@[j].1.spec_window()
                    == LATENCY_SAMPLE_WINDOW_SIZE by {
                    if j != i {
                        assert(self.peer_latency@[j] == old(self).peer_latency@[j]);
                    }
                }
                r
            },
            None => {
                let mut avg = AverageLatency::new(LATENCY_SAMPLE_WINDOW_SIZE);
                avg.add_sample(sample_ms);
                let r = avg.calc_average();
                let n = self.peer_latency.len();
                self.peer_latency.push((node_id, avg));
                assert(self.spec_latency() =~= l.push((node_id@, avg.spec_samples())));
                assert(avg.spec_samples() =~= windowed(
                    Seq::<u32>::empty(),
                    LATENCY_SAMPLE_WINDOW_SIZE as nat,
                    capped_ms(sample_ms),
                ));
                proof {
                    assert forall|j: int| 0 <= j < n implies self.spec_latency()[j].0 != node_id@ by {
                        assert(self.spec_latency()[j] == l[j]);
                    }
                    assert(is_first(self.spec_latency(), node_id@, n as int));
                    lemma_first_unique(self.spec_latency(), node_id@, n as int);
                    assert forall|o: Seq<u8>| o != node_id@ implies #[trigger] samples_for(
                        self.spec_latency(),
                        o,
                    ) == samples_for(l, o) by {
                        lemma_samples_for_other(l, self.spec_latency(), node_id@, o);
                    }
                }
                assert forall|j: int| 0 <= j < self.peer_latency@.len() implies (
                #[trigger] self.peer_latency@[j]).1.wf() && self.peer_latency@[j].1.spec_window()
                    == LATENCY_SAMPLE_WINDOW_SIZE by {
                    if j < n {
                        assert(self.peer_latency@[j] == old(self).peer_latency@[j]);
                    }
                }
                r
            },
        }
    }

    /// Records a pong from `node_id` at `now`: counts it and, when a ping to
    /// that node is in flight, takes the ping off the list, adds the elapsed
    /// time as a latency sample and returns the node's new mean latency.
    pub fn record_pong_at(&mut self, node_id: &Vec<u8>, now: u64) -> (r: Option<u32>)
        requires
            old(self).wf(),
        ensures
            final(self).wf(),
            final(self).spec_pongs_received() == bumped(old(self).spec_pongs_received()),
            r is Some <==> keyed(old(self).spec_inflight(), node_id@),
            final(self).spec_inflight() == without_node(old(self).spec_inflight(), node_id@),
            keyed(old(self).spec_inflight(), node_id@) ==> samples_for(
                final(self).spec_latency(),
                node_id@,
            ) == windowed(
                samples_for(old(self).spec_latency(), node_id@),
                LATENCY_SAMPLE_WINDOW_SIZE as nat,
                capped_ms(
                    elapsed(
                        old(self).spec_inflight()[first_index(old(self).spec_inflight(), node_id@)].1,
                        now,
                    ),
                ),
            ),
            !keyed(old(self).spec_inflight(), node_id@) ==> final(self).spec_latency() == old(
                self,
            ).spec_latency(),
            r is Some ==> r->0 as int == mean(samples_for(final(self).spec_latency(), node_id@)),
            forall|o: Seq<u8>|
                o != node_id@ ==> #[trigger] samples_for(final(self).spec_latency(), o)
                    == samples_for(old(self).spec_latency(), o),
    {
        self.inc_pongs_received();
        let ghost s = self.spec_inflight();
        match self.find_inflight(node_id) {
            None => {
                self.retain_inflight(node_id, now, true);
                proof {
                    lemma_without_absent(s, node_id@);
                }
                None
            },
            Some(i) => {
                proof {
                    lemma_first_unique(s, node_id@, i as int);
                }
                let sent_at = self.inflight_pings[i].sent_at;
                self.retain_inflight(node_id, now, true);
                let sample: u64 = if now >= sent_at {
                    now - sent_at
                } else {
                    0
                };
                Some(self.add_latency_sample(copy_bytes(node_id), sample))
            },
        }
    }

    /// The mean latency of `node_id`, if any sample of it was taken.
    pub fn get_avg_latency_ms(&self, node_id: &Vec<u8>) -> (r: Option<u32>)
        requires
            self.wf(),
        ensures
            r is Some <==> keyed(self.spec_latency(), node_id@),
            r is Some ==> r->0 as int == mean(samples_for(self.spec_latency(), node_id@)),
    {
        match self.find_latency(node_id) {
            None => None,
            Some(i) => {
                proof {
                    lemma_first_unique(self.spec_latency(), node_id@, i as int);
                }
                Some(self.peer_latency[i].1.calc_average())
            },
        }
    }

    /// Notes a ping sent to `node_id` now; see `add_inflight_ping_at`.
    pub fn add_inflight_ping(&mut self, node_id: Vec<u8>)
        ensures
            exists|now: u64|
                final(self).spec_inflight() == #[trigger] fresh_pings(
                    without_node(old(self).spec_inflight(), node_id@).push((node_id@, now)),
                    now,
                ),
            final(self).spec_latency() == old(self).spec_latency(),
            final(self).wf() == old(self).wf(),
    {
        let now = now_millis();
        self.add_inflight_ping_at(node_id, now);
    }

    /// Records a pong from `node_id` now; see `record_pong_at`.
    pub fn record_pong(&mut self, node_id: &Vec<u8>) -> (r: Option<u32>)
        requires
            old(self).wf(),
        ensures
            final(self).wf(),
            final(self).spec_pongs_received() == bumped(old(self).spec_pongs_received()),
            r is Some <==> keyed(old(self).spec_inflight(), node_id@),
            final(self).spec_inflight() == without_node(old(self).spec_inflight(), node_id@),
            r is Some ==> r->0 as int == mean(samples_for(final(self).spec_latency(), node_id@)),
            keyed(old(self).spec_inflight(), node_id@) ==> exists|now: u64|
                samples_for(final(self).spec_latency(), node_id@) == #[trigger] windowed(
                    samples_for(old(self).spec_latency(), node_id@),
                    LATENCY_SAMPLE_WINDOW_SIZE as nat,
                    capped_ms(
                        elapsed(
                            old(self).spec_inflight()[first_index(
                                old(self).spec_inflight(),
                                node_id@,
                            )].1,
                            now,
                        ),
                    ),
                ),
            !keyed(old(self).spec_inflight(), node_id@) ==> final(self).spec_latency() == old(
                self,
            ).spec_latency(),
            forall|o: Seq<u8>|
                o != node_id@ ==> #[trigger] samples_for(final(self).spec_latency(), o)
                    == samples_for(old(self).spec_latency(), o),
    {
        let now = now_millis();
        self.record_pong_at(node_id, now)
    }
}

} // verus!
