//! The table of open calls, keyed by request identifier.
//!
//! Both dispatchers keep one: the client for the calls that still wait for an
//! answer, the server for the requests whose handlers still run. The table is
//! a vector ordered by identifier; its model is a finite map.

use crate::context::TraceId;
use vstd::prelude::*;

verus! {

/// What is kept of one open call: when it must be over, and the trace it
/// belongs to.
#[derive(Clone, Copy, Debug, PartialEq, Eq, Structural)]
pub struct Slot {
    pub deadline: u64,
    pub trace: TraceId,
}

#[derive(Clone, Copy, Debug)]
struct Entry {
    id: u64,
    slot: Slot,
}

/// The call `(d1, i1)` is due no later than `(d2, i2)`: by deadline first, by
/// identifier among equal deadlines.
pub open spec fn due_before(d1: u64, i1: u64, d2: u64, i2: u64) -> bool {
    d1 < d2 || (d1 == d2 && i1 <= i2)
}

/// `id` is the call of `calls` that is due first.
pub open spec fn is_earliest(calls: Map<u64, Slot>, id: u64) -> bool {
    &&& calls.contains_key(id)
    &&& forall|other: u64| #[trigger]
        calls.contains_key(other) ==> due_before(
            calls[id].deadline,
            id,
            calls[other].deadline,
            other,
        )
}

/// The call of `calls` that is over at `now` and due first among those, if
/// there is one.
pub open spec fn first_due(calls: Map<u64, Slot>, now: u64) -> Option<u64> {
    if exists|id: u64| is_earliest(calls, id) && calls[id].deadline <= now {
        Some(choose|id: u64| is_earliest(calls, id) && calls[id].deadline <= now)
    } else {
        None
    }
}

/// Among the calls of a map at most one is due first.
pub proof fn lemma_earliest_unique(calls: Map<u64, Slot>, a: u64, b: u64)
    requires
        is_earliest(calls, a),
        is_earliest(calls, b),
    ensures
        a == b,
{
}

/// `first_due` is the call that is due first, where that call is over at
/// `now`; and there is none where the call that is due first is not over yet.
pub proof fn lemma_first_due(calls: Map<u64, Slot>, now: u64, id: u64)
    ensures
        first_due(calls, now) == Some(id) <==> is_earliest(calls, id) && calls[id].deadline <= now,
        first_due(calls, now) is None <==> forall|other: u64| #[trigger]
            calls.contains_key(other) && is_earliest(calls, other) ==> calls[other].deadline > now,
        first_due(calls, now) matches Some(due) ==> calls.contains_key(due),
{
    if is_earliest(calls, id) && calls[id].deadline <= now {
        let chosen = choose|c: u64| is_earliest(calls, c) && calls[c].deadline <= now;
        lemma_earliest_unique(calls, chosen, id);
    }
    if first_due(calls, now) is Some {
        let chosen = first_due(calls, now)->0;
        assert(calls.contains_key(chosen) && is_earliest(calls, chosen));
    }
}

/// `ids` lists the keys of `calls`, each once, in ascending order.
pub open spec fn lists_keys(ids: Seq<u64>, calls: Map<u64, Slot>) -> bool {
    &&& forall|i: int, j: int| 0 <= i < j < ids.len() ==> ids[i] < ids[j]
    &&& forall|i: int| 0 <= i < ids.len() ==> calls.contains_key(#[trigger] ids[i])
    &&& forall|id: u64| #[trigger] calls.contains_key(id) ==> ids.contains(id)
}

spec fn ascending(entries: Seq<Entry>) -> bool {
    forall|i: int, j: int| 0 <= i < j < entries.len() ==> (#[trigger] entries[i]).id < (
    #[trigger] entries[j]).id
}

spec fn mirrors(entries: Seq<Entry>, calls: Map<u64, Slot>) -> bool {
    &&& forall|i: int|
        0 <= i < entries.len() ==> calls.contains_key((#[trigger] entries[i]).id)
            && calls[entries[i].id] == entries[i].slot
    &&& forall|id: u64| #[trigger]
        calls.contains_key(id) ==> exists|i: int|
            0 <= i < entries.len() && (#[trigger] entries[i]).id == id
}

/// A finite map from request identifiers to slots.
pub struct CallTable {
    entries: Vec<Entry>,
    calls: Ghost<Map<u64, Slot>>,
}

impl View for CallTable {
    type V = Map<u64, Slot>;

    closed spec fn view(&self) -> Map<u64, Slot> {
        self.calls@
    }
}

impl CallTable {
    /// The representation is sound: the vector is ordered by identifier and
    /// holds exactly the calls of the model.
    pub closed spec fn wf(&self) -> bool {
        &&& self.calls@.dom().finite()
        &&& self.calls@.dom().len() == self.entries@.len()
        &&& ascending(self.entries@)
        &&& mirrors(self.entries@, self.calls@)
    }

    /// The empty table.
    pub fn new() -> (table: Self)
        ensures
            table.wf(),
            table@ == Map::<u64, Slot>::empty(),
    {
        CallTable { entries: Vec::new(), calls: Ghost(Map::empty()) }
    }

    /// The number of open calls.
    pub fn len(&self) -> (n: usize)
        requires
            self.wf(),
        ensures
            n == self@.len(),
    {
        self.entries.len()
    }

    /// Whether no call is open.
    pub fn is_empty(&self) -> (empty: bool)
        requires
            self.wf(),
        ensures
            empty == (self@.len() == 0),
            empty == (self@ == Map::<u64, Slot>::empty()),
    {
        proof {
            if self.entries@.len() == 0 {
                assert(self@ =~= Map::<u64, Slot>::empty());
            } else {
                assert(self@.contains_key(self.entries@[0].id));
            }
        }
        self.entries.len() == 0
    }

    /// Where `id` stands in the vector, or where it would have to be put.
    fn search(&self, id: u64) -> (found: (bool, usize))
        requires
            self.wf(),
        ensures
            found.0 == self@.contains_key(id),
            found.1 <= self.entries@.len(),
            found.0 ==> found.1 < self.entries@.len() && self.entries@[found.1 as int].id == id,
            !found.0 ==> forall|j: int| 0 <= j < found.1 ==> (#[trigger] self.entries@[j]).id < id,
            !found.0 ==> forall|j: int|
                found.1 <= j < self.entries@.len() ==> (#[trigger] self.entries@[j]).id > id,
    {
        let mut lo: usize = 0;
        let mut hi: usize = self.entries.len();
        while lo < hi
            invariant
                lo <= hi <= self.entries@.len(),
                self.wf(),
                forall|j: int| 0 <= j < lo ==> (#[trigger] self.entries@[j]).id < id,
                forall|j: int| hi <= j < self.entries@.len() ==> (#[trigger] self.entries@[j]).id > id,
            decreases hi - lo,
        {
            let mid: usize = lo + (hi - lo) / 2;
            let probe: u64 = self.entries[mid].id;
            if probe == id {
                return (true, mid);
            }
            if probe < id {
                lo = mid + 1;
            } else {
                hi = mid;
            }
        }
        (false, lo)
    }

    /// Whether the call `id` is open.
    pub fn contains(&self, id: u64) -> (open: bool)
        requires
            self.wf(),
        ensures
            open == self@.contains_key(id),
    {
        self.search(id).0
    }

    /// The slot of the call `id`, if it is open.
    pub fn get(&self, id: u64) -> (slot: Option<Slot>)
        requires
            self.wf(),
        ensures
            slot == if self@.contains_key(id) {
                Some(self@[id])
            } else {
                None
            },
    {
        let (found, at) = self.search(id);
        if found {
            Some(self.entries[at].slot)
        } else {
            None
        }
    }

    /// Opens the call `id`, unless a call of that identifier is open already;
    /// says whether it did.
    pub fn insert(&mut self, id: u64, slot: Slot) -> (fresh: bool)
        requires
            old(self).wf(),
        ensures
            final(self).wf(),
            fresh == !old(self)@.contains_key(id),
            final(self)@ == if fresh {
                old(self)@.insert(id, slot)
            } else {
                old(self)@
            },
    {
        let (found, at) = self.search(id);
        if found {
            return false;
        }
        let ghost before = self.entries@;
        let ghost calls = self.calls@;
        self.entries.insert(at, Entry { id, slot });
        self.calls = Ghost(calls.insert(id, slot));
        proof {
            let after = self.entries@;
            assert(after == before.insert(at as int, Entry { id, slot }));
            assert forall|i: int, j: int| 0 <= i < j < after.len() implies (#[trigger] after[i]).id
                < (#[trigger] after[j]).id by {
                if i < at && j > at {
                    assert(after[i] == before[i]);
                    assert(after[j] == before[j - 1]);
                } else if i > at {
                    assert(after[i] == before[i - 1]);
                    assert(after[j] == before[j - 1]);
                } else if j < at {
                    assert(after[i] == before[i]);
                    assert(after[j] == before[j]);
                } else if i == at {
                    assert(after[j] == before[j - 1]);
                } else {
                    assert(after[i] == before[i]);
                }
            }
            assert forall|i: int| 0 <= i < after.len() implies self.calls@.contains_key(
                (#[trigger] after[i]).id,
            ) && self.calls@[after[i].id] == after[i].slot by {
                if i < at {
                    assert(after[i] == before[i]);
                } else if i > at {
                    assert(after[i] == before[i - 1]);
                }
            }
            assert forall|other: u64| #[trigger] self.calls@.contains_key(other) implies exists|
                i: int,
            |
                0 <= i < after.len() && (#[trigger] after[i]).id == other by {
                if other == id {
                    assert(after[at as int].id == id);
                } else {
                    assert(calls.contains_key(other));
                    let k = choose|k: int| 0 <= k < before.len() && (#[trigger] before[k]).id == other;
                    if k < at {
                        assert(after[k] == before[k]);
                    } else {
                        assert(after[k + 1] == before[k]);
                    }
                }
            }
        }
        true
    }

    /// Closes the call `id` and hands out its slot, if it was open.
    pub fn remove(&mut self, id: u64) -> (slot: Option<Slot>)
        requires
            old(self).wf(),
        ensures
            final(self).wf(),
            slot == if old(self)@.contains_key(id) {
                Some(old(self)@[id])
            } else {
                None
            },
            final(self)@ == old(self)@.remove(id),
    {
        let (found, at) = self.search(id);
        if !found {
            proof {
                assert(self@.remove(id) =~= self@);
            }
            return None;
        }
        let ghost before = self.entries@;
        let ghost calls = self.calls@;
        let entry = self.entries.remove(at);
        self.calls = Ghost(calls.remove(id));
        proof {
            let after = self.entries@;
            assert(after == before.remove(at as int));
            assert forall|i: int, j: int| 0 <= i < j < after.len() implies (#[trigger] after[i]).id
                < (#[trigger] after[j]).id by {
                let oi = if i < at { i } else { i + 1 };
                let oj = if j < at { j } else { j + 1 };
                assert(after[i] == before[oi]);
                assert(after[j] == before[oj]);
            }
            assert forall|i: int| 0 <= i < after.len() implies self.calls@.contains_key(
                (#[trigger] after[i]).id,
            ) && self.calls@[after[i].id] == after[i].slot by {
                let oi = if i < at { i } else { i + 1 };
                assert(after[i] == before[oi]);
                assert(before[oi].id != before[at as int].id);
            }
            assert forall|other: u64| #[trigger] self.calls@.contains_key(other) implies exists|
                i: int,
            |
                0 <= i < after.len() && (#[trigger] after[i]).id == other by {
                assert(calls.contains_key(other));
                let k = choose|k: int| 0 <= k < before.len() && (#[trigger] before[k]).id == other;
                if k < at {
                    assert(after[k] == before[k]);
                } else {
                    assert(after[k - 1] == before[k]);
                }
            }
        }
        Some(entry.slot)
    }

    /// The call that is due first, if any call is open.
    pub fn earliest(&self) -> (first: Option<(u64, Slot)>)
        requires
            self.wf(),
        ensures
            first is None <==> self@ == Map::<u64, Slot>::empty(),
            first matches Some((id, slot)) ==> is_earliest(self@, id) && slot == self@[id],
    {
        if self.entries.len() == 0 {
            proof {
                assert(self@ =~= Map::<u64, Slot>::empty());
            }
            return None;
        }
        let mut best: usize = 0;
        let mut k: usize = 1;
        while k < self.entries.len()
            invariant
                self.wf(),
                0 <= best < k <= self.entries@.len(),
                forall|j: int|
                    0 <= j < k ==> due_before(
                        self.entries@[best as int].slot.deadline,
                        self.entries@[best as int].id,
                        (#[trigger] self.entries@[j]).slot.deadline,
                        self.entries@[j].id,
                    ),
            decreases self.entries@.len() - k,
        {
            let here = self.entries[k];
            let held = self.entries[best];
            if here.slot.deadline < held.slot.deadline {
                best = k;
            }
            k = k + 1;
        }
        let entry = self.entries[best];
        proof {
            assert(self@.contains_key(self.entries@[best as int].id));
            assert forall|other: u64| #[trigger] self@.contains_key(other) implies due_before(
                self@[entry.id].deadline,
                entry.id,
                self@[other].deadline,
                other,
            ) by {
                let j = choose|j: int|
                    0 <= j < self.entries@.len() && (#[trigger] self.entries@[j]).id == other;
                assert(self@[other] == self.entries@[j].slot);
            }
        }
        Some((entry.id, entry.slot))
    }

    /// The identifiers of the open calls, in ascending order.
    pub fn ids(&self) -> (ids: Vec<u64>)
        requires
            self.wf(),
        ensures
            lists_keys(ids@, self@),
            ids@.len() == self@.len(),
    {
        let mut ids: Vec<u64> = Vec::new();
        let mut k: usize = 0;
        while k < self.entries.len()
            invariant
                self.wf(),
                k <= self.entries@.len(),
                ids@.len() == k,
                forall|i: int| 0 <= i < k ==> #[trigger] ids@[i] == self.entries@[i].id,
            decreases self.entries@.len() - k,
        {
            ids.push(self.entries[k].id);
            k = k + 1;
        }
        proof {
            assert forall|i: int, j: int| 0 <= i < j < ids@.len() implies ids@[i] < ids@[j] by {
                assert(self.entries@[i].id < self.entries@[j].id);
            }
            assert forall|i: int| 0 <= i < ids@.len() implies self@.contains_key(
                #[trigger] ids@[i],
            ) by {
                assert(self@.contains_key(self.entries@[i].id));
            }
            assert forall|id: u64| #[trigger] self@.contains_key(id) implies ids@.contains(id) by {
                let j = choose|j: int|
                    0 <= j < self.entries@.len() && (#[trigger] self.entries@[j]).id == id;
                assert(ids@[j] == id);
            }
        }
        ids
    }

    /// Closes every call.
    pub fn clear(&mut self)
        requires
            old(self).wf(),
        ensures
            final(self).wf(),
            final(self)@ == Map::<u64, Slot>::empty(),
    {
        self.entries.clear();
        self.calls = Ghost(Map::empty());
    }
}

} // verus!
