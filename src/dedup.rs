//! Duplicate suppression: a bounded history of message fingerprints (origin
//! signatures). A fingerprint stays in the history until `capacity` newer
//! ones have been recorded after it.
use vstd::prelude::*;
use crate::envelope::bytes_eq;

verus! {

/// The history after `f` is offered to a history `s` of capacity `cap`: a
/// fingerprint already present changes nothing; a new one is appended, and
/// the oldest leaves when the history is full.
pub open spec fn remembered(s: Seq<Seq<u8>>, cap: nat, f: Seq<u8>) -> Seq<Seq<u8>> {
    if s.contains(f) || cap == 0 {
        s
    } else if s.len() >= cap {
        s.skip(1).push(f)
    } else {
        s.push(f)
    }
}

/// The recent fingerprints, oldest first.
pub struct DedupCache {
    seen: Vec<Vec<u8>>,
    capacity: usize,
}

impl DedupCache {
    pub closed spec fn spec_seen(&self) -> Seq<Seq<u8>> {
        self.seen@.map_values(|f: Vec<u8>| f@)
    }

    pub closed spec fn spec_capacity(&self) -> nat {
        self.capacity as nat
    }

    pub open spec fn wf(&self) -> bool {
        self.spec_seen().len() <= self.spec_capacity()
    }

    /// An empty history that holds up to `capacity` fingerprints.
    pub fn new(capacity: usize) -> (r: Self)
        ensures
            r.wf(),
            r.spec_seen() == Seq::<Seq<u8>>::empty(),
            r.spec_capacity() == capacity,
    {
        let r = DedupCache { seen: Vec::new(), capacity };
        assert(r.spec_seen() =~= Seq::<Seq<u8>>::empty());
        r
    }

    /// Number of fingerprints held.
    pub fn len(&self) -> (r: usize)
        ensures
            r == self.spec_seen().len(),
    {
        self.seen.len()
    }

    /// Whether `fingerprint` is in the history.
    pub fn contains(&self, fingerprint: &Vec<u8>) -> (r: bool)
        ensures
            r == self.spec_seen().contains(fingerprint@),
    {
        let mut i: usize = 0;
        while i < self.seen.len()
            invariant
                i <= self.seen@.len(),
                forall|j: int| 0 <= j < i ==> self.spec_seen()[j] != fingerprint@,
            decreases self.seen@.len() - i,
        {
            if bytes_eq(&self.seen[i], fingerprint) {
                assert(self.spec_seen()[i as int] == fingerprint@);
                return true;
            }
            i = i + 1;
        }
        false
    }

    /// Records `fingerprint` and tells whether it was already there: `true`
    /// means the message is a duplicate.
    pub fn insert_if_absent(&mut self, fingerprint: Vec<u8>) -> (r: bool)
        requires
            old(self).wf(),
        ensures
            final(self).wf(),
            final(self).spec_capacity() == old(self).spec_capacity(),
            r == old(self).spec_seen().contains(fingerprint@),
            final(self).spec_seen() == remembered(
                old(self).spec_seen(),
                old(self).spec_capacity(),
                fingerprint@,
            ),
    {
        if self.contains(&fingerprint) {
            return true;
        }
        if self.capacity == 0 {
            return false;
        }
        let ghost s = self.spec_seen();
        let ghost f = fingerprint@;
        if self.seen.len() >= self.capacity {
            self.seen.remove(0);
            assert(self.spec_seen() =~= s.skip(1));
        }
        let ghost before = self.spec_seen();
        self.seen.push(fingerprint);
        assert(self.spec_seen() =~= before.push(f));
        false
    }
}

/// Offering a fresh fingerprint twice to a history that retains anything
/// reports it new the first time and a duplicate the second.
pub proof fn lemma_insert_if_absent_twice(s: Seq<Seq<u8>>, cap: nat, f: Seq<u8>)
    requires
        cap > 0,
        !s.contains(f),
    ensures
        s.contains(f) == false,
        remembered(s, cap, f).contains(f) == true,
{
    let t = remembered(s, cap, f);
    assert(t[t.len() - 1] == f);
}

} // verus!
