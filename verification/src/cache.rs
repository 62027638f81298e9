//! Bounded recency cache of event identifiers.
//!
//! A FIFO set of the most recently observed event ids, shared by every
//! channel and stream of one client instance. It answers "has this id been
//! seen" and records new ids, evicting the oldest recorded id once the
//! fixed capacity is exceeded.

use vstd::prelude::*;

verus! {

/// Bounded FIFO set of recently observed event identifiers.
///
/// The view is the sequence of recorded ids (as character sequences),
/// oldest first. The capacity is fixed at construction; recording beyond it
/// evicts the oldest id.
pub struct RecencyCache {
    ids: Vec<String>,
    capacity: usize,
}

/// The contents of a recency cache after recording `id`: the id is appended,
/// and the oldest entry is evicted if the capacity is now exceeded.
pub open spec fn record_spec(ids: Seq<Seq<char>>, capacity: nat, id: Seq<char>) -> Seq<Seq<char>> {
    let pushed = ids.push(id);
    if pushed.len() > capacity {
        pushed.drop_first()
    } else {
        pushed
    }
}

impl View for RecencyCache {
    type V = Seq<Seq<char>>;

    closed spec fn view(&self) -> Seq<Seq<char>> {
        self.ids@.map_values(|id: String| id@)
    }
}

impl RecencyCache {
    /// Number of ids the cache retains before evicting the oldest.
    pub closed spec fn spec_capacity(&self) -> nat {
        self.capacity as nat
    }

    /// The cache never holds more ids than its capacity.
    pub open spec fn wf(&self) -> bool {
        self@.len() <= self.spec_capacity()
    }

    /// An empty cache retaining at most `capacity` ids.
    pub fn new(capacity: usize) -> (cache: Self)
        ensures
            cache@ == Seq::<Seq<char>>::empty(),
            cache.spec_capacity() == capacity,
            cache.wf(),
    {
        let cache = RecencyCache { ids: Vec::new(), capacity };
        proof {
            assert(cache@ =~= Seq::<Seq<char>>::empty());
        }
        cache
    }

    /// Whether `id` was recorded and has not been evicted since: the
    /// "seen before" filter of duplicate suppression.
    pub fn contains(&self, id: &String) -> (seen: bool)
        ensures
            seen == self@.contains(id@),
    {
        let mut i: usize = 0;
        while i < self.ids.len()
            invariant
                i <= self.ids.len(),
                forall|j: int| 0 <= j < i ==> self.ids@[j]@ != id@,
            decreases self.ids.len() - i,
        {
            if self.ids[i] == *id {
                assert(self@[i as int] == id@);
                return true;
            }
            i += 1;
        }
        assert forall|j: int| 0 <= j < self@.len() implies self@[j] != id@ by {
            assert(self@[j] == self.ids@[j]@);
        }
        false
    }

    /// Record `id` as seen, evicting the oldest recorded id if the capacity
    /// is now exceeded.
    pub fn record(&mut self, id: String)
        requires
            old(self).wf(),
        ensures
            final(self)@ == record_spec(old(self)@, old(self).spec_capacity(), id@),
            final(self).spec_capacity() == old(self).spec_capacity(),
            final(self).wf(),
    {
        let ghost pre = self.ids@;
        self.ids.push(id);
        proof {
            assert(self.ids@.map_values(|s: String| s@) =~= pre.map_values(|s: String| s@).push(
                self.ids@.last()@,
            ));
        }
        if self.ids.len() > self.capacity {
            self.ids.remove(0);
            proof {
                assert(self.ids@.map_values(|s: String| s@) =~= pre.map_values(
                    |s: String| s@,
                ).push(id@).drop_first());
            }
        }
    }

    /// The capacity chosen at construction.
    pub fn capacity(&self) -> (capacity: usize)
        ensures
            capacity == self.spec_capacity(),
    {
        self.capacity
    }
}

} // verus!
