//! The message store: a capacity-bounded map from storage keys to stored
//! messages, each with the instant it expires.
//!
//! Policy: entries are kept in insertion order. Inserting under a key that is
//! present replaces that entry and makes it the newest. Inserting into a full
//! store evicts the oldest entry. Expired entries are never handed out; they
//! are removed physically by `remove_expired` or by eviction.
use vstd::prelude::*;
use crate::envelope::{bytes_eq, StoredMessage, StoredMessageView};

verus! {

/// One stored message under its key, with its expiry instant (seconds).
#[derive(Debug)]
pub struct StoreEntry {
    pub key: Vec<u8>,
    pub message: StoredMessage,
    pub expires_at: u64,
}

pub struct EntryView {
    pub key: Seq<u8>,
    pub message: StoredMessageView,
    pub expires_at: u64,
}

impl View for StoreEntry {
    type V = EntryView;

    open spec fn view(&self) -> EntryView {
        EntryView { key: self.key@, message: self.message@, expires_at: self.expires_at }
    }
}

impl StoreEntry {
    pub fn duplicate(&self) -> (r: Self)
        ensures
            r@ == self@,
    {
        StoreEntry {
            key: crate::envelope::copy_bytes(&self.key),
            message: self.message.duplicate(),
            expires_at: self.expires_at,
        }
    }
}

/// The views of a sequence of entries.
pub open spec fn entry_views(s: Seq<StoreEntry>) -> Seq<EntryView> {
    s.map_values(|e: StoreEntry| e@)
}

/// The instant at which an entry stored at `now` with time to live `ttl`
/// expires, saturating at the largest instant.
pub open spec fn expiry(now: u64, ttl: u64) -> u64 {
    if now as int + ttl as int > u64::MAX as int {
        u64::MAX
    } else {
        (now + ttl) as u64
    }
}

/// An entry is live strictly before its expiry instant.
pub open spec fn is_live(e: EntryView, now: u64) -> bool {
    now < e.expires_at
}

/// The live entries of `s` at `now`, in order.
pub open spec fn live_entries(s: Seq<EntryView>, now: u64) -> Seq<EntryView>
    decreases s.len(),
{
    if s.len() == 0 {
        Seq::empty()
    } else {
        let rest = live_entries(s.drop_last(), now);
        if is_live(s.last(), now) {
            rest.push(s.last())
        } else {
            rest
        }
    }
}

pub open spec fn has_key(s: Seq<EntryView>, k: Seq<u8>) -> bool {
    exists|i: int| 0 <= i < s.len() && s[i].key == k
}

pub open spec fn keys_unique(s: Seq<EntryView>) -> bool {
    forall|i: int, j: int| 0 <= i < s.len() && 0 <= j < s.len() && s[i].key == s[j].key ==> i == j
}

/// `s` without the entry under `k`, if there is one.
pub open spec fn without_key(s: Seq<EntryView>, k: Seq<u8>) -> Seq<EntryView> {
    if has_key(s, k) {
        s.remove(choose|i: int| 0 <= i < s.len() && s[i].key == k)
    } else {
        s
    }
}

/// The entries after `e` is inserted into a store of capacity `cap`.
pub open spec fn inserted(s: Seq<EntryView>, cap: nat, e: EntryView) -> Seq<EntryView> {
    if cap == 0 {
        s
    } else {
        let w = without_key(s, e.key);
        if w.len() >= cap {
            w.skip(1).push(e)
        } else {
            w.push(e)
        }
    }
}

/// The store. Its entries, oldest first, have distinct keys and never
/// outnumber its capacity.
pub struct MessageStore {
    entries: Vec<StoreEntry>,
    capacity: usize,
}

impl MessageStore {
    pub closed spec fn spec_entries(&self) -> Seq<EntryView> {
        entry_views(self.entries@)
    }

    pub closed spec fn spec_capacity(&self) -> nat {
        self.capacity as nat
    }

    pub open spec fn wf(&self) -> bool {
        &&& self.spec_entries().len() <= self.spec_capacity()
        &&& keys_unique(self.spec_entries())
    }

    /// An empty store that holds at most `capacity` entries.
    pub fn new(capacity: usize) -> (r: Self)
        ensures
            r.wf(),
            r.spec_entries() == Seq::<EntryView>::empty(),
            r.spec_capacity() == capacity,
    {
        let r = MessageStore { entries: Vec::new(), capacity };
        assert(r.spec_entries() =~= Seq::<EntryView>::empty());
        r
    }

    /// Number of entries held, expired or not.
    pub fn len(&self) -> (r: usize)
        ensures
            r == self.spec_entries().len(),
    {
        self.entries.len()
    }

    /// The capacity fixed at creation.
    pub fn capacity(&self) -> (r: usize)
        ensures
            r == self.spec_capacity(),
    {
        self.capacity
    }

    fn find_key(&self, key: &Vec<u8>) -> (r: Option<usize>)
        ensures
            match r {
                Some(i) => i < self.spec_entries().len() && self.spec_entries()[i as int].key
                    == key@,
                None => !has_key(self.spec_entries(), key@),
            },
    {
        let mut i: usize = 0;
        while i < self.entries.len()
            invariant
                i <= self.entries@.len(),
                forall|j: int| 0 <= j < i ==> self.spec_entries()[j].key != key@,
            decreases self.entries@.len() - i,
        {
            if bytes_eq(&self.entries[i].key, key) {
                return Some(i);
            }
            i = i + 1;
        }
        None
    }

    /// Stores `message` under `key`, live until `now + ttl` (seconds). An entry
    /// under the same key is replaced; when the store is full its oldest entry
    /// is evicted. A store of capacity zero stays empty.
    pub fn insert(&mut self, key: Vec<u8>, message: StoredMessage, ttl: u64, now: u64)
        requires
            old(self).wf(),
        ensures
            final(self).wf(),
            final(self).spec_capacity() == old(self).spec_capacity(),
            final(self).spec_entries() == inserted(
                old(self).spec_entries(),
                old(self).spec_capacity(),
                EntryView { key: key@, message: message@, expires_at: expiry(now, ttl) },
            ),
    {
        if self.capacity == 0 {
            return;
        }
        let ghost s = self.spec_entries();
        let expires_at: u64 = if ttl > u64::MAX - now {
            u64::MAX
        } else {
            now + ttl
        };
        let ghost e = EntryView { key: key@, message: message@, expires_at };
        let ghost w = without_key(s, key@);
        match self.find_key(&key) {
            Some(i) => {
                self.entries.remove(i);
                assert(self.spec_entries() =~= s.remove(i as int));
                assert(s.remove(i as int) == w) by {
                    let c = choose|c: int| 0 <= c < s.len() && s[c].key == key@;
                    assert(c == i);
                }
            },
            None => {
                assert(self.spec_entries() == w);
            },
        }
        let ghost w_entries = self.spec_entries();
        if self.entries.len() >= self.capacity {
            self.entries.remove(0);
            assert(self.spec_entries() =~= w_entries.skip(1));
        }
        let ghost before_push = self.spec_entries();
        self.entries.push(StoreEntry { key, message, expires_at });
        assert(self.spec_entries() =~= before_push.push(e));
        assert(keys_unique(self.spec_entries())) by {
            assert forall|a: int, b: int|
                0 <= a < self.spec_entries().len() && 0 <= b < self.spec_entries().len()
                    && self.spec_entries()[a].key == self.spec_entries()[b].key implies a
                == b by {
                let n = before_push.len() as int;
                if a < n && b < n {
                    if w_entries.len() >= self.capacity {
                        assert(before_push[a] == w_entries[a + 1]);
                        assert(before_push[b] == w_entries[b + 1]);
                    }
                    assert(keys_unique(w_entries)) by {
                        if has_key(s, key@) {
                            let c = choose|c: int| 0 <= c < s.len() && s[c].key == key@;
                            assert forall|x: int, y: int|
                                0 <= x < w_entries.len() && 0 <= y < w_entries.len()
                                    && w_entries[x].key == w_entries[y].key implies x == y by {
                                let x0 = if x < c { x } else { x + 1 };
                                let y0 = if y < c { y } else { y + 1 };
                                assert(s[x0] == w_entries[x]);
                                assert(s[y0] == w_entries[y]);
                            }
                        }
                    }
                } else if a < n {
                    assert(before_push[a].key != key@) by {
                        if w_entries.len() >= self.capacity {
                            assert(before_push[a] == w_entries[a + 1]);
                        }
                        if has_key(s, key@) {
                            let c = choose|c: int| 0 <= c < s.len() && s[c].key == key@;
                            let i = if w_entries.len() >= self.capacity { a + 1 } else { a };
                            let x0 = if i < c { i } else { i + 1 };
                            assert(s[x0] == w_entries[i]);
                        } else {
                            let i = if w_entries.len() >= self.capacity { a + 1 } else { a };
                            assert(s[i] == w_entries[i]);
                        }
                    }
                } else if b < n {
                    assert(before_push[b].key != key@) by {
                        if w_entries.len() >= self.capacity {
                            assert(before_push[b] == w_entries[b + 1]);
                        }
                        if has_key(s, key@) {
                            let c = choose|c: int| 0 <= c < s.len() && s[c].key == key@;
                            let i = if w_entries.len() >= self.capacity { b + 1 } else { b };
                            let x0 = if i < c { i } else { i + 1 };
                            assert(s[x0] == w_entries[i]);
                        } else {
                            let i = if w_entries.len() >= self.capacity { b + 1 } else { b };
                            assert(s[i] == w_entries[i]);
                        }
                    }
                }
            }
        }
    }

    /// Copies out every entry that is live at `now`, oldest first. Expired
    /// entries are never returned, whether or not they were removed yet.
    pub fn iterate_snapshot(&self, now: u64) -> (r: Vec<StoreEntry>)
        ensures
            entry_views(r@) == live_entries(self.spec_entries(), now),
    {
        let mut r: Vec<StoreEntry> = Vec::new();
        let mut i: usize = 0;
        while i < self.entries.len()
            invariant
                i <= self.entries@.len(),
                entry_views(r@) == live_entries(self.spec_entries().take(i as int), now),
            decreases self.entries@.len() - i,
        {
            let ghost before = entry_views(r@);
            assert(self.spec_entries().take(i + 1 as int).drop_last() =~= self.spec_entries().take(
                i as int,
            ));
            if now < self.entries[i].expires_at {
                r.push(self.entries[i].duplicate());
                assert(entry_views(r@) =~= before.push(self.spec_entries()[i as int]));
            }
            i = i + 1;
        }
        assert(self.spec_entries().take(self.entries@.len() as int) =~= self.spec_entries());
        r
    }

    /// Physically removes the entries that have expired at `now`.
    pub fn remove_expired(&mut self, now: u64)
        requires
            old(self).wf(),
        ensures
            final(self).wf(),
            final(self).spec_capacity() == old(self).spec_capacity(),
            final(self).spec_entries() == live_entries(old(self).spec_entries(), now),
    {
        let ghost s = self.spec_entries();
        let mut kept: Vec<StoreEntry> = Vec::new();
        let mut i: usize = 0;
        while i < self.entries.len()
            invariant
                i <= self.entries@.len(),
                self.spec_entries() == s,
                entry_views(kept@) == live_entries(s.take(i as int), now),
            decreases self.entries@.len() - i,
        {
            let ghost before = entry_views(kept@);
            assert(s.take(i + 1 as int).drop_last() =~= s.take(i as int));
            if now < self.entries[i].expires_at {
                kept.push(self.entries[i].duplicate());
                assert(entry_views(kept@) =~= before.push(s[i as int]));
            }
            i = i + 1;
        }
        assert(s.take(s.len() as int) =~= s);
        proof {
            lemma_live_entries_sub(s, now);
        }
        self.entries = kept;
    }
}

/// The live entries are drawn from `s` in order: an injection keeps each
/// one's position, so they are no more than `s` and keep distinct keys.
pub proof fn lemma_live_entries_sub(s: Seq<EntryView>, now: u64)
    ensures
        live_entries(s, now).len() <= s.len(),
        keys_unique(s) ==> keys_unique(live_entries(s, now)),
        forall|i: int|
            0 <= i < live_entries(s, now).len() ==> exists|j: int|
                0 <= j < s.len() && #[trigger] live_entries(s, now)[i] == s[j],
        forall|i: int|
            0 <= i < live_entries(s, now).len() ==> is_live(#[trigger] live_entries(s, now)[i], now),
    decreases s.len(),
{
    if s.len() > 0 {
        lemma_live_entries_sub(s.drop_last(), now);
        let rest = live_entries(s.drop_last(), now);
        assert forall|i: int| 0 <= i < live_entries(s, now).len() implies is_live(
            #[trigger] live_entries(s, now)[i],
            now,
        ) by {
            if i < rest.len() {
                assert(live_entries(s, now)[i] == rest[i]);
            }
        }
        assert forall|i: int|
            0 <= i < live_entries(s, now).len() implies exists|j: int|
                0 <= j < s.len() && #[trigger] live_entries(s, now)[i] == s[j] by {
            if i < rest.len() {
                let j = choose|j: int| 0 <= j < s.drop_last().len() && rest[i] == s.drop_last()[j];
                assert(live_entries(s, now)[i] == s[j]);
            } else {
                assert(live_entries(s, now)[i] == s[s.len() - 1]);
            }
        }
        if keys_unique(s) {
            assert(keys_unique(s.drop_last()));
            let l = live_entries(s, now);
            assert forall|a: int, b: int|
                0 <= a < l.len() && 0 <= b < l.len() && l[a].key == l[b].key implies a == b by {
                if a < rest.len() && b < rest.len() {
                    assert(l[a] == rest[a] && l[b] == rest[b]);
                } else if a < rest.len() {
                    let j = choose|j: int| 0 <= j < s.drop_last().len() && rest[a] == s.drop_last()[j];
                    assert(s[j] == rest[a]);
                    assert(s[s.len() - 1] == l[b]);
                } else if b < rest.len() {
                    let j = choose|j: int| 0 <= j < s.drop_last().len() && rest[b] == s.drop_last()[j];
                    assert(s[j] == rest[b]);
                    assert(s[s.len() - 1] == l[a]);
                }
            }
        }
    }
}

/// After an insertion into a store whose keys are distinct, the new entry is
/// the last one and no other entry has its key.
pub proof fn lemma_inserted_key_once(s: Seq<EntryView>, cap: nat, e: EntryView)
    requires
        keys_unique(s),
        cap > 0,
    ensures
        inserted(s, cap, e).last() == e,
        forall|j: int|
            0 <= j < inserted(s, cap, e).len() - 1 ==> (#[trigger] inserted(s, cap, e)[j]).key
                != e.key,
{
    let w = without_key(s, e.key);
    let t = inserted(s, cap, e);
    assert forall|j: int| 0 <= j < w.len() implies (#[trigger] w[j]).key != e.key by {
        if has_key(s, e.key) {
            let c = choose|c: int| 0 <= c < s.len() && s[c].key == e.key;
            let x = if j < c { j } else { j + 1 };
            assert(w[j] == s[x]);
        } else {
            assert(w[j] == s[j]);
        }
    }
    assert forall|j: int| 0 <= j < t.len() - 1 implies (#[trigger] t[j]).key != e.key by {
        if w.len() >= cap {
            assert(t[j] == w[j + 1]);
        } else {
            assert(t[j] == w[j]);
        }
    }
}

/// A message stored with a time to live of zero is never handed out by a
/// snapshot taken at or after the instant it was stored.
pub proof fn lemma_zero_ttl_never_live(
    s: Seq<EntryView>,
    cap: nat,
    key: Seq<u8>,
    message: StoredMessageView,
    now: u64,
    later: u64,
)
    requires
        keys_unique(s),
        s.len() <= cap,
        now <= later,
    ensures
        forall|i: int|
            0 <= i < live_entries(
                inserted(s, cap, EntryView { key, message, expires_at: expiry(now, 0) }),
                later,
            ).len() ==> (#[trigger] live_entries(
                inserted(s, cap, EntryView { key, message, expires_at: expiry(now, 0) }),
                later,
            )[i]).key != key,
{
    let e = EntryView { key, message, expires_at: expiry(now, 0) };
    let t = inserted(s, cap, e);
    let l = live_entries(t, later);
    lemma_live_entries_sub(t, later);
    if cap > 0 {
        lemma_inserted_key_once(s, cap, e);
        assert forall|i: int| 0 <= i < l.len() implies (#[trigger] l[i]).key != key by {
            let j = choose|j: int| 0 <= j < t.len() && l[i] == t[j];
            assert(is_live(l[i], later));
            if j == t.len() - 1 {
                assert(t[j] == e);
            }
        }
    } else {
        assert(s.len() == 0);
    }
}

} // verus!
