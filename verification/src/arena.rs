//! Generational arena: reusable-slot storage handing out stable identities.
//!
//! A slot is either free (threaded into a last-freed-first free list) or
//! occupied. Each slot carries a generation counter, bumped whenever an
//! occupied slot is freed, so an identity minted earlier can never again
//! resolve once its slot has been freed. A slot whose counter has reached
//! `u32::MAX` is retired rather than recycled, which keeps the guarantee
//! without overflowing the counter.

use vstd::prelude::*;

verus! {

/// A stable identity for one slot of a `GenVec`: it resolves only while the
/// slot's current generation equals `generation`.
#[derive(Clone, Copy, PartialEq, Eq, Structural, Debug)]
pub struct Index {
    pub index: usize,
    pub generation: u32,
}

enum Entry<T> {
    Free { next_free: usize },
    Occupied { value: T },
}

struct GenEntry<T> {
    entry: Entry<T>,
    generation: u32,
}

/// Reusable-slot storage with generational stale-handle detection.
pub struct GenVec<T> {
    data: Vec<GenEntry<T>>,
    free_head: usize,
    len: usize,
    free_list: Ghost<Seq<int>>,
}

spec fn entry_next<T>(e: Entry<T>) -> usize {
    match e {
        Entry::Free { next_free } => next_free,
        Entry::Occupied { .. } => 0,
    }
}

spec fn count_occ<T>(s: Seq<GenEntry<T>>) -> nat
    decreases s.len(),
{
    if s.len() == 0 {
        0
    } else {
        count_occ(s.drop_last()) + (if s.last().entry is Occupied {
            1nat
        } else {
            0nat
        })
    }
}

proof fn lemma_count_le<T>(s: Seq<GenEntry<T>>)
    ensures
        count_occ(s) <= s.len(),
    decreases s.len(),
{
    if s.len() > 0 {
        lemma_count_le(s.drop_last());
    }
}

proof fn lemma_count_update<T>(s: Seq<GenEntry<T>>, i: int, e: GenEntry<T>)
    requires
        0 <= i < s.len(),
    ensures
        count_occ(s.update(i, e)) == count_occ(s) - (if s[i].entry is Occupied {
            1int
        } else {
            0int
        }) + (if e.entry is Occupied {
            1int
        } else {
            0int
        }),
    decreases s.len(),
{
    if i == s.len() - 1 {
        assert(s.update(i, e).drop_last() =~= s.drop_last());
    } else {
        lemma_count_update(s.drop_last(), i, e);
        assert(s.update(i, e).drop_last() =~= s.drop_last().update(i, e));
    }
}

proof fn lemma_count_push<T>(s: Seq<GenEntry<T>>, e: GenEntry<T>)
    ensures
        count_occ(s.push(e)) == count_occ(s) + (if e.entry is Occupied {
            1int
        } else {
            0int
        }),
{
    assert(s.push(e).drop_last() =~= s);
}

impl<T> GenVec<T> {
    /// Number of slots ever allocated, occupied or free.
    pub closed spec fn n_slots(self) -> int {
        self.data@.len() as int
    }

    /// Whether slot `i` currently holds a value.
    pub closed spec fn occupied(self, i: int) -> bool {
        self.data@[i].entry is Occupied
    }

    /// The current generation counter of slot `i`.
    pub closed spec fn generation_of(self, i: int) -> u32 {
        self.data@[i].generation
    }

    /// The value stored in slot `i` (meaningful only while occupied).
    pub closed spec fn value_at(self, i: int) -> T {
        self.data@[i].entry->value
    }

    /// Number of live (occupied) slots.
    pub closed spec fn spec_len(self) -> nat {
        self.len as nat
    }

    /// The slot the next `insert` will reuse, if the free list is non-empty.
    pub closed spec fn reuse_slot(self) -> Option<int> {
        if self.free_list@.len() > 0 {
            Some(self.free_list@[0])
        } else {
            None
        }
    }

    /// An identity resolves exactly while its slot is occupied at the same
    /// generation it was minted with.
    pub open spec fn valid_id(self, id: Index) -> bool {
        &&& 0 <= (id.index as int) < self.n_slots()
        &&& self.occupied(id.index as int)
        &&& self.generation_of(id.index as int) == id.generation
    }

    /// What `get` returns, as a mathematical function of the state.
    pub open spec fn spec_get(self, id: Index) -> Option<T> {
        if self.valid_id(id) {
            Some(self.value_at(id.index as int))
        } else {
            None
        }
    }

    /// Internal well-formedness: the live count is exact and the free list
    /// is a duplicate-free chain of free slots threaded through the data,
    /// terminated by an index one past the end.
    pub closed spec fn wf(self) -> bool {
        let fl = self.free_list@;
        let n = self.data@.len() as int;
        &&& self.len == count_occ(self.data@)
        &&& forall|k: int| 0 <= k < fl.len() ==> 0 <= #[trigger] fl[k] < n
        &&& forall|k: int|
            0 <= k < fl.len() ==> (#[trigger] self.data@[fl[k]].entry) is Free
        &&& forall|k1: int, k2: int| 0 <= k1 < k2 < fl.len() ==> fl[k1] != fl[k2]
        &&& (self.free_head as int) == (if fl.len() > 0 {
            fl[0]
        } else {
            n
        })
        &&& forall|k: int|
            0 <= k < fl.len() - 1 ==> (entry_next(#[trigger] self.data@[fl[k]].entry) as int)
                == fl[k + 1]
        &&& fl.len() > 0 ==> (entry_next(self.data@[fl[fl.len() - 1]].entry) as int) == n
    }

    /// Everything `insert` guarantees, as a relation between the states
    /// before and after the call.
    pub open spec fn insert_post(pre: Self, post: Self, value: T, key: Index) -> bool {
        &&& post.valid_id(key)
        &&& post.spec_get(key) == Some(value)
        &&& post.spec_len() == pre.spec_len() + 1
        &&& forall|j: Index| j != key ==> post.spec_get(j) == pre.spec_get(j)
        &&& forall|i: int| 0 <= i < pre.n_slots() ==> post.generation_of(i) == pre.generation_of(i)
        &&& match pre.reuse_slot() {
            Some(i) => {
                &&& (key.index as int) == i
                &&& key.generation == pre.generation_of(i)
                &&& post.n_slots() == pre.n_slots()
            },
            None => {
                &&& (key.index as int) == pre.n_slots()
                &&& key.generation == 0
                &&& post.n_slots() == pre.n_slots() + 1
            },
        }
    }

    /// Everything `remove` guarantees, as a relation between the states
    /// before and after the call. Removing a stale identity changes nothing.
    pub open spec fn remove_post(pre: Self, post: Self, key: Index) -> bool {
        if pre.valid_id(key) {
            &&& post.n_slots() == pre.n_slots()
            &&& (post.spec_len() as int) == pre.spec_len() - 1
            &&& !post.occupied(key.index as int)
            &&& (key.generation < u32::MAX ==> (post.generation_of(key.index as int) as int)
                == key.generation + 1)
            &&& (key.generation == u32::MAX ==> post.generation_of(key.index as int)
                == key.generation)
            &&& forall|j: Index| j.index == key.index ==> post.spec_get(j) is None
            &&& forall|j: Index| j.index != key.index ==> post.spec_get(j) == pre.spec_get(j)
            &&& forall|i: int|
                0 <= i < pre.n_slots() && i != key.index ==> post.generation_of(i)
                    == pre.generation_of(i) && post.occupied(i) == pre.occupied(i)
            &&& (key.generation < u32::MAX ==> post.reuse_slot() == Some(key.index as int))
        } else {
            post == pre
        }
    }

    /// An empty arena with no slots.
    pub fn new() -> (r: Self)
        ensures
            r.wf(),
            r.spec_len() == 0,
            r.n_slots() == 0,
    {
        Self { data: Vec::new(), free_head: 0, len: 0, free_list: Ghost(Seq::empty()) }
    }

    /// Stores `value`, reusing the most recently freed slot if one exists,
    /// and returns the identity under which it is stored.
    pub fn insert(&mut self, value: T) -> (key: Index)
        requires
            old(self).wf(),
            old(self).n_slots() < usize::MAX,
        ensures
            final(self).wf(),
            Self::insert_post(*old(self), *final(self), value, key),
    {
        proof {
            lemma_count_le(self.data@);
        }
        if self.free_head < self.data.len() {
            let idx = self.free_head;
            proof {
                assert(self.free_list@.len() > 0);
                assert(self.data@[self.free_list@[0]].entry is Free);
            }
            let generation = self.data[idx].generation;
            let next = match &self.data[idx].entry {
                Entry::Free { next_free } => *next_free,
                Entry::Occupied { .. } => {
                    // The free-list head is always a free slot, so this arm
                    // cannot be reached.
                    proof {
                        assert(false);
                    }
                    0
                },
            };
            proof {
                lemma_count_update(
                    self.data@,
                    idx as int,
                    GenEntry { entry: Entry::Occupied { value }, generation },
                );
            }
            self.data[idx] = GenEntry { entry: Entry::Occupied { value }, generation };
            self.free_head = next;
            self.len = self.len + 1;
            let ghost old_fl = self.free_list@;
            self.free_list = Ghost(old_fl.subrange(1, old_fl.len() as int));
            let key = Index { index: idx, generation };
            proof {
                let fl = self.free_list@;
                assert forall|k: int| 0 <= k < fl.len() implies (
                    #[trigger] self.data@[fl[k]].entry) is Free by {
                    assert(fl[k] == old_fl[k + 1]);
                    assert(old_fl[k + 1] != old_fl[0]);
                }
                assert forall|k: int|
                    0 <= k < fl.len() - 1 implies (entry_next(
                    #[trigger] self.data@[fl[k]].entry,
                ) as int) == fl[k + 1] by {
                    assert(fl[k] == old_fl[k + 1]);
                    assert(old_fl[k + 1] != old_fl[0]);
                    assert((entry_next(old(self).data@[old_fl[k + 1]].entry) as int) == old_fl[k
                        + 2]);
                }
                if fl.len() > 0 {
                    assert(fl[fl.len() - 1] == old_fl[old_fl.len() - 1]);
                    assert(old_fl[old_fl.len() - 1] != old_fl[0]);
                }
                assert forall|j: Index| j != key implies self.spec_get(j) == old(self).spec_get(
                    j,
                ) by {
                    if (j.index as int) == idx as int {
                        assert(!old(self).occupied(j.index as int));
                    }
                }
            }
            key
        } else {
            proof {
                if self.free_list@.len() > 0 {
                    assert(0 <= self.free_list@[0] < self.data@.len());
                }
                lemma_count_push(
                    self.data@,
                    GenEntry { entry: Entry::Occupied { value }, generation: 0 },
                );
            }
            let idx = self.data.len();
            self.data.push(GenEntry { entry: Entry::Occupied { value }, generation: 0 });
            self.free_head = idx + 1;
            self.len = self.len + 1;
            let key = Index { index: idx, generation: 0 };
            proof {
                assert forall|j: Index| j != key implies self.spec_get(j) == old(self).spec_get(
                    j,
                ) by {
                    if (j.index as int) == idx as int {
                        assert(!self.valid_id(j));
                    }
                }
            }
            key
        }
    }

    /// Looks a value up by identity; a stale or out-of-range identity is
    /// simply absent, never an error.
    pub fn get(&self, key: &Index) -> (r: Option<&T>)
        ensures
            match r {
                Some(v) => self.spec_get(*key) == Some(*v),
                None => self.spec_get(*key) is None,
            },
    {
        if key.index >= self.data.len() {
            return None;
        }
        let e = &self.data[key.index];
        match &e.entry {
            Entry::Occupied { value } => {
                if e.generation == key.generation {
                    Some(value)
                } else {
                    None
                }
            },
            Entry::Free { .. } => None,
        }
    }

    /// Frees the slot named by `key`; a stale identity makes this a no-op.
    /// On success the slot's generation is bumped (or, at the counter's
    /// ceiling, the slot is retired), so `key` never resolves again.
    pub fn remove(&mut self, key: &Index)
        requires
            old(self).wf(),
        ensures
            final(self).wf(),
            Self::remove_post(*old(self), *final(self), *key),
    {
        if key.index >= self.data.len() {
            return ;
        }
        let generation = self.data[key.index].generation;
        let occupied = match &self.data[key.index].entry {
            Entry::Occupied { .. } => true,
            Entry::Free { .. } => false,
        };
        if !occupied || generation != key.generation {
            return ;
        }
        proof {
            lemma_count_pos(self.data@, key.index as int);
        }
        if generation < u32::MAX {
            let entry = GenEntry {
                entry: Entry::Free { next_free: self.free_head },
                generation: generation + 1,
            };
            proof {
                lemma_count_update(self.data@, key.index as int, entry);
                if self.free_list@.contains(key.index as int) {
                    let k = self.free_list@.index_of(key.index as int);
                    assert(self.data@[self.free_list@[k]].entry is Free);
                }
            }
            self.data[key.index] = entry;
            self.free_head = key.index;
            self.len = self.len - 1;
            let ghost old_fl = self.free_list@;
            self.free_list = Ghost(seq![key.index as int] + old_fl);
            proof {
                let fl = self.free_list@;
                assert forall|k: int| 0 <= k < fl.len() implies (
                    #[trigger] self.data@[fl[k]].entry) is Free by {
                    if k > 0 {
                        assert(fl[k] == old_fl[k - 1]);
                        assert(old_fl[k - 1] != key.index as int);
                    }
                }
                assert forall|k: int|
                    0 <= k < fl.len() - 1 implies (entry_next(
                    #[trigger] self.data@[fl[k]].entry,
                ) as int) == fl[k + 1] by {
                    if k > 0 {
                        assert(fl[k] == old_fl[k - 1]);
                        assert(old_fl[k - 1] != key.index as int);
                    }
                }
                if fl.len() > 1 {
                    assert(fl[fl.len() - 1] == old_fl[old_fl.len() - 1]);
                    assert(old_fl[old_fl.len() - 1] != key.index as int);
                }
                assert forall|j: Index| j.index != key.index implies self.spec_get(j) == old(
                    self,
                ).spec_get(j) by {}
            }
        } else {
            // The counter for this slot is exhausted: retire the slot
            // (free it without putting it back on the free list), so no
            // identity with this slot index is ever minted again.
            let entry = GenEntry { entry: Entry::Free { next_free: usize::MAX }, generation };
            proof {
                lemma_count_update(self.data@, key.index as int, entry);
                if self.free_list@.contains(key.index as int) {
                    let k = self.free_list@.index_of(key.index as int);
                    assert(self.data@[self.free_list@[k]].entry is Free);
                }
            }
            self.data[key.index] = entry;
            self.len = self.len - 1;
            proof {
                let fl = self.free_list@;
                assert forall|k: int| 0 <= k < fl.len() implies (
                    #[trigger] self.data@[fl[k]].entry) is Free by {
                    assert(fl[k] != key.index as int);
                }
                assert forall|k: int|
                    0 <= k < fl.len() - 1 implies (entry_next(
                    #[trigger] self.data@[fl[k]].entry,
                ) as int) == fl[k + 1] by {
                    assert(fl[k] != key.index as int);
                }
                if fl.len() > 0 {
                    assert(fl[fl.len() - 1] != key.index as int);
                }
            }
        }
    }

    /// The slot count of a real arena fits the machine's word.
    pub proof fn lemma_n_slots_bounded(&self)
        ensures
            0 <= self.n_slots() <= usize::MAX,
    {
        broadcast use vstd::std_specs::vec::axiom_spec_len;

        assert(vstd::std_specs::vec::spec_vec_len(&self.data) == self.data@.len());
    }

    /// Number of slots, for ascending-order iteration.
    pub fn slot_count(&self) -> (n: usize)
        ensures
            n as int == self.n_slots(),
    {
        self.data.len()
    }

    /// The identity currently live in slot `i`, if the slot is occupied.
    pub fn id_at(&self, i: usize) -> (r: Option<Index>)
        requires
            (i as int) < self.n_slots(),
        ensures
            match r {
                Some(id) => self.occupied(i as int) && id == (Index {
                    index: i,
                    generation: self.generation_of(i as int),
                }),
                None => !self.occupied(i as int),
            },
    {
        let e = &self.data[i];
        match &e.entry {
            Entry::Occupied { .. } => Some(Index { index: i, generation: e.generation }),
            Entry::Free { .. } => None,
        }
    }

    /// Count of live values.
    pub fn len(&self) -> (n: usize)
        ensures
            n as nat == self.spec_len(),
    {
        self.len
    }
}

/// Number of occupied slots among the first `n` slots of `gv`.
pub open spec fn live_count<T>(gv: GenVec<T>, n: int) -> int
    decreases n,
{
    if n <= 0 {
        0
    } else {
        live_count(gv, n - 1) + (if gv.occupied(n - 1) {
            1int
        } else {
            0int
        })
    }
}

/// An identity that can never resolve again: its slot's generation has moved
/// past the identity's.
pub open spec fn stale<T>(gv: GenVec<T>, id: Index) -> bool {
    &&& 0 <= (id.index as int) < gv.n_slots()
    &&& gv.generation_of(id.index as int) > id.generation
}

proof fn lemma_count_prefix<T>(gv: GenVec<T>, s: Seq<GenEntry<T>>, n: int)
    requires
        0 <= n <= s.len(),
        forall|i: int| 0 <= i < s.len() ==> (gv.occupied(i) <==> (#[trigger] s[i]).entry is Occupied),
    ensures
        live_count(gv, n) == count_occ(s.subrange(0, n)),
    decreases n,
{
    if n > 0 {
        lemma_count_prefix(gv, s, n - 1);
        assert(s.subrange(0, n).drop_last() =~= s.subrange(0, n - 1));
        assert(s.subrange(0, n).last() == s[n - 1]);
    }
}

impl<T> GenVec<T> {
    /// Law: `len()` always equals the number of slot indices `i` for which
    /// some identity (namely the one at the slot's current generation)
    /// resolves through `get`, and a slot contributes exactly when the
    /// identity minted at its current generation resolves.
    pub proof fn lemma_len_counts_live(self)
        requires
            self.wf(),
        ensures
            self.spec_len() == live_count(self, self.n_slots()),
            forall|i: int|
                0 <= i < self.n_slots() ==> ((#[trigger] self.occupied(i)) <==> self.spec_get(
                    Index { index: i as usize, generation: self.generation_of(i) },
                ) is Some),
    {
        lemma_count_prefix(self, self.data@, self.n_slots());
        assert(self.data@.subrange(0, self.n_slots()) =~= self.data@);
    }

    /// Law: a removed identity stops resolving, and inserting right after
    /// removing reuses the same slot under a strictly greater generation,
    /// so the removed identity still does not resolve.
    pub proof fn lemma_insert_after_remove(
        pre: Self,
        mid: Self,
        post: Self,
        removed: Index,
        value: T,
        fresh: Index,
    )
        requires
            pre.valid_id(removed),
            removed.generation < u32::MAX,
            Self::remove_post(pre, mid, removed),
            Self::insert_post(mid, post, value, fresh),
        ensures
            fresh.index == removed.index,
            fresh.generation > removed.generation,
            mid.spec_get(removed) is None,
            post.spec_get(removed) is None,
    {
        assert(mid.spec_get(removed) is None);
        assert(fresh != removed);
    }

    /// A stale identity never resolves.
    pub proof fn lemma_stale_get_none(self, id: Index)
        requires
            stale(self, id),
        ensures
            self.spec_get(id) is None,
    {
    }

    /// Removing a live identity (below the generation ceiling) makes it stale.
    pub proof fn lemma_remove_makes_stale(pre: Self, post: Self, id: Index)
        requires
            pre.valid_id(id),
            id.generation < u32::MAX,
            Self::remove_post(pre, post, id),
        ensures
            stale(post, id),
    {
    }

    /// Law: once stale, an identity stays stale across any later `insert`,
    /// so `get` on it returns nothing forever after.
    pub proof fn lemma_insert_preserves_stale(
        pre: Self,
        post: Self,
        value: T,
        fresh: Index,
        id: Index,
    )
        requires
            stale(pre, id),
            Self::insert_post(pre, post, value, fresh),
        ensures
            stale(post, id),
    {
    }

    /// Law: once stale, an identity stays stale across any later `remove`.
    pub proof fn lemma_remove_preserves_stale(pre: Self, post: Self, key: Index, id: Index)
        requires
            stale(pre, id),
            Self::remove_post(pre, post, key),
        ensures
            stale(post, id),
    {
        if pre.valid_id(key) && key.index == id.index {
            assert(key.generation == pre.generation_of(id.index as int));
        }
    }

    /// Law: removing an already-removed identity changes nothing, so
    /// removing twice is observably the same as removing once.
    pub proof fn lemma_remove_idempotent(pre: Self, mid: Self, post: Self, id: Index)
        requires
            Self::remove_post(pre, mid, id),
            Self::remove_post(mid, post, id),
        ensures
            post == mid,
    {
        if pre.valid_id(id) {
            assert(!mid.valid_id(id));
        } else {
            assert(mid == pre);
        }
    }
}

proof fn lemma_count_pos<T>(s: Seq<GenEntry<T>>, i: int)
    requires
        0 <= i < s.len(),
        s[i].entry is Occupied,
    ensures
        count_occ(s) >= 1,
    decreases s.len(),
{
    if i < s.len() - 1 {
        lemma_count_pos(s.drop_last(), i);
    }
}

} // verus!
