use vstd::prelude::*;

use crate::coords::ChunkCoordinate;

verus! {

/// The set of currently resident chunk coordinates.
///
/// A coordinate is present exactly while the corresponding chunk exists, and
/// is never inserted twice; the controller inserts a coordinate before the
/// chunk is generated, so overlapping load windows within one tick cannot
/// request the same chunk twice.
///
/// The residents are kept in a duplicate-free vector, scanned linearly: the
/// per-tick eviction pass walks every resident anyway, and the design accepts
/// an O(resident) structure at this scale.
pub struct ChunkRegistry {
    coords: Vec<ChunkCoordinate>,
}

impl View for ChunkRegistry {
    type V = Set<ChunkCoordinate>;

    closed spec fn view(&self) -> Set<ChunkCoordinate> {
        self.coords@.to_set()
    }
}

impl ChunkRegistry {
    /// The backing vector holds each resident exactly once.
    pub closed spec fn wf(self) -> bool {
        self.coords@.no_duplicates()
    }

    /// An empty registry: no chunk is resident.
    pub fn new() -> (r: Self)
        ensures
            r.wf(),
            r@ == Set::<ChunkCoordinate>::empty(),
    {
        let r = ChunkRegistry { coords: Vec::new() };
        proof {
            assert(r.coords@.to_set() =~= Set::<ChunkCoordinate>::empty());
        }
        r
    }

    /// Whether the chunk at `c` is resident.
    pub fn contains(&self, c: ChunkCoordinate) -> (r: bool)
        ensures
            r == self@.contains(c),
    {
        let n = self.coords.len();
        let mut i: usize = 0;
        while i < n
            invariant
                i <= n,
                n == self.coords@.len(),
                forall|j: int| 0 <= j < i ==> self.coords@[j] != c,
            decreases n - i,
        {
            if self.coords[i] == c {
                return true;
            }
            i += 1;
        }
        proof {
            assert(!self.coords@.contains(c));
        }
        false
    }

    /// Number of resident chunks.
    pub fn len(&self) -> (n: usize)
        requires
            self.wf(),
        ensures
            n == self@.len(),
    {
        proof {
            self.coords@.unique_seq_to_set();
        }
        self.coords.len()
    }

    /// Marks the chunk at `c` resident. Requesting a coordinate that is
    /// already resident is a programming error, excluded up front.
    pub fn insert(&mut self, c: ChunkCoordinate)
        requires
            old(self).wf(),
            !old(self)@.contains(c),
        ensures
            final(self).wf(),
            final(self)@ == old(self)@.insert(c),
    {
        proof {
            assert(!old(self).coords@.contains(c));
        }
        self.coords.push(c);
        proof {
            assert(self.coords@.to_set() =~= old(self).coords@.to_set().insert(c)) by {
                old(self).coords@.lemma_push_to_set_commute(c);
            }
        }
    }

    /// Removes the chunk at `c` from the resident set; removing an absent
    /// coordinate leaves the registry unchanged.
    pub fn remove(&mut self, c: ChunkCoordinate)
        requires
            old(self).wf(),
        ensures
            final(self).wf(),
            final(self)@ == old(self)@.remove(c),
    {
        let n = self.coords.len();
        let mut i: usize = 0;
        while i < n
            invariant
                i <= n,
                n == self.coords@.len(),
                self.coords@ == old(self).coords@,
                self.coords@.no_duplicates(),
                forall|j: int| 0 <= j < i ==> self.coords@[j] != c,
            decreases n - i,
        {
            if self.coords[i] == c {
                self.coords.remove(i);
                proof {
                    lemma_dedup_seq_remove_index(old(self).coords@, i as int, c);
                }
                return;
            }
            i += 1;
        }
        proof {
            assert(!self.coords@.contains(c));
            assert(self.coords@.to_set() =~= self.coords@.to_set().remove(c));
        }
    }

    /// The resident coordinates as a vector, each exactly once, in the
    /// registry's own order; a snapshot for scans that mutate the registry.
    pub fn coordinates(&self) -> (v: Vec<ChunkCoordinate>)
        requires
            self.wf(),
        ensures
            v@.no_duplicates(),
            v@.to_set() == self@,
            forall|j: int| 0 <= j < v@.len() ==> self@.contains(#[trigger] v@[j]),
    {
        let n = self.coords.len();
        let mut v: Vec<ChunkCoordinate> = Vec::new();
        let mut i: usize = 0;
        while i < n
            invariant
                i <= n,
                n == self.coords@.len(),
                v@ == self.coords@.subrange(0, i as int),
            decreases n - i,
        {
            v.push(self.coords[i]);
            proof {
                assert(v@ =~= self.coords@.subrange(0, i + 1));
            }
            i += 1;
        }
        proof {
            assert(v@ =~= self.coords@);
            assert(forall|j: int| 0 <= j < v@.len() ==> self@.contains(#[trigger] v@[j])) by {
                assert(forall|j: int|
                    0 <= j < self.coords@.len() ==> self.coords@.contains(#[trigger] self.coords@[j]));
            }
        }
        v
    }
}

/// Removing the only occurrence of `c` (at index `i`) from a duplicate-free
/// sequence removes exactly `c` from the set of its elements, and keeps the
/// sequence duplicate-free.
proof fn lemma_dedup_seq_remove_index(s: Seq<ChunkCoordinate>, i: int, c: ChunkCoordinate)
    requires
        s.no_duplicates(),
        0 <= i < s.len(),
        s[i] == c,
    ensures
        s.remove(i).no_duplicates(),
        s.remove(i).to_set() == s.to_set().remove(c),
{
    s.remove_ensures(i);
    let t = s.remove(i);
    assert forall|a: ChunkCoordinate| t.to_set().contains(a) implies s.to_set().remove(c).contains(
        a,
    ) by {
        let j = choose|j: int| 0 <= j < t.len() && t[j] == a;
        if j < i {
            assert(s[j] == a);
        } else {
            assert(s[j + 1] == a);
        }
        assert(a != c);
    }
    assert forall|a: ChunkCoordinate| s.to_set().remove(c).contains(a) implies t.to_set().contains(
        a,
    ) by {
        let j = choose|j: int| 0 <= j < s.len() && s[j] == a;
        if j < i {
            assert(t[j] == a);
        } else {
            assert(j != i);
            assert(t[j - 1] == a);
        }
    }
    assert(t.to_set() =~= s.to_set().remove(c));
}

} // verus!
