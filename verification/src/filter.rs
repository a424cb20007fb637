//! Bounded replay filter over raw ciphertexts.
//!
//! The client keeps the raw bytes of the last up-to-32 accepted datagrams.
//! A datagram whose exact bytes were already seen is dropped; a fresh one is
//! recorded, evicting the oldest entry once the filter is full.  Two
//! encryptions of the same plaintext carry different nonces and so differ as
//! bytes: an exact repeat is a double-send or a replay, never the operator
//! deliberately sending the same line twice.

use vstd::prelude::*;
use crate::wire::{bytes_eq, clone_bytes};

verus! {

/// Most entries the filter retains at once.
pub const FILTER_CAPACITY: usize = 32;

/// What accepting `d` does to the retained sequence: a duplicate leaves it
/// unchanged; a fresh entry is appended, evicting the oldest when the
/// filter is full.
pub open spec fn spec_accept(s: Seq<Seq<u8>>, d: Seq<u8>) -> Seq<Seq<u8>> {
    if s.contains(d) {
        s
    } else if s.len() >= FILTER_CAPACITY {
        s.drop_first().push(d)
    } else {
        s.push(d)
    }
}

/// After accepting `d`, the filter always retains `d`, so feeding identical
/// bytes a second time is never accepted again: consecutive duplicates
/// yield exactly one accepted event.
pub proof fn lemma_duplicate_suppressed(s: Seq<Seq<u8>>, d: Seq<u8>)
    ensures
        spec_accept(s, d).contains(d),
{
    if s.contains(d) {
    } else if s.len() >= FILTER_CAPACITY {
        assert(s.drop_first().push(d).last() == d);
    } else {
        assert(s.push(d).last() == d);
    }
}

/// Accepting a fresh entry to a full filter keeps the length at the bound
/// and evicts exactly the oldest entry.
pub proof fn lemma_eviction(s: Seq<Seq<u8>>, d: Seq<u8>)
    requires
        s.len() == FILTER_CAPACITY,
        !s.contains(d),
    ensures
        spec_accept(s, d).len() == FILTER_CAPACITY,
        spec_accept(s, d).last() == d,
        forall|i: int| 0 <= i < FILTER_CAPACITY - 1 ==> spec_accept(s, d)[i] == s[i + 1],
{
}

/// The insertion-ordered record of recently seen ciphertexts.
pub struct DuplicateFilter {
    seen: Vec<Vec<u8>>,
}

impl View for DuplicateFilter {
    type V = Seq<Seq<u8>>;

    closed spec fn view(&self) -> Seq<Seq<u8>> {
        self.seen@.map_values(|e: Vec<u8>| e@)
    }
}

impl DuplicateFilter {
    /// The filter never retains more entries than its bound.
    pub open spec fn wf(&self) -> bool {
        self@.len() <= FILTER_CAPACITY
    }

    /// An empty filter.
    pub fn new() -> (r: DuplicateFilter)
        ensures
            r@ == Seq::<Seq<u8>>::empty(),
            r.wf(),
    {
        let r = DuplicateFilter { seen: Vec::new() };
        proof {
            assert(r@ =~= Seq::<Seq<u8>>::empty());
        }
        r
    }

    /// Forget everything seen so far.
    pub fn clear(&mut self)
        ensures
            final(self)@ == Seq::<Seq<u8>>::empty(),
            final(self).wf(),
    {
        self.seen.clear();
        proof {
            assert(self@ =~= Seq::<Seq<u8>>::empty());
        }
    }

    /// Whether the exact bytes of `data` are retained.
    pub fn contains(&self, data: &Vec<u8>) -> (r: bool)
        ensures
            r == self@.contains(data@),
    {
        let mut i: usize = 0;
        while i < self.seen.len()
            invariant
                i <= self.seen@.len(),
                self@.len() == self.seen@.len(),
                forall|j: int| 0 <= j < self.seen@.len() ==> self@[j] == self.seen@[j]@,
                forall|j: int| 0 <= j < i ==> self@[j] != data@,
            decreases self.seen@.len() - i,
        {
            if bytes_eq(&self.seen[i], data) {
                proof {
                    assert(self@[i as int] == data@);
                }
                return true;
            }
            i = i + 1;
        }
        false
    }

    /// Accept a datagram: report whether it is fresh, and record it if so,
    /// evicting the oldest entry when the filter is full.
    pub fn accept(&mut self, data: &Vec<u8>) -> (fresh: bool)
        requires
            old(self).wf(),
        ensures
            final(self).wf(),
            fresh == !old(self)@.contains(data@),
            final(self)@ == spec_accept(old(self)@, data@),
    {
        if self.contains(data) {
            return false;
        }
        let entry = clone_bytes(data);
        self.seen.push(entry);
        proof {
            assert(self@ =~= old(self)@.push(data@));
        }
        if self.seen.len() > FILTER_CAPACITY {
            let ghost before = self@;
            let _ = self.seen.remove(0);
            proof {
                assert(self@ =~= before.drop_first());
                assert(self@ =~= old(self)@.drop_first().push(data@));
            }
        }
        true
    }

    /// How many entries are currently retained.
    pub fn len(&self) -> (n: usize)
        ensures
            n == self@.len(),
    {
        self.seen.len()
    }
}

} // verus!
