//! Per-kind component tables: values indexed by an entity's slot index with
//! a parallel generation check, so a stale identity simply finds nothing.

use vstd::prelude::*;

verus! {

use crate::arena::Index;

/// One component kind's storage, keyed by `Index`.
pub struct ComponentTable<T> {
    slots: Vec<Option<(u32, T)>>,
}

/// What a lookup finds in a slot sequence: the value stored under the
/// identity's slot, provided the recorded generation matches.
pub open spec fn seq_get<T>(s: Seq<Option<(u32, T)>>, id: Index) -> Option<T> {
    if 0 <= (id.index as int) < s.len() {
        match s[id.index as int] {
            Some(e) => if e.0 == id.generation {
                Some(e.1)
            } else {
                None
            },
            None => None,
        }
    } else {
        None
    }
}

/// A slot sequence after storing `v` under `id`: grown with empty slots as
/// far as needed, then overwritten at the identity's slot.
pub open spec fn seq_insert<T>(s: Seq<Option<(u32, T)>>, id: Index, v: T) -> Seq<Option<(u32, T)>> {
    let grown = if (id.index as int) < s.len() {
        s
    } else {
        s + Seq::new((id.index + 1 - s.len()) as nat, |i: int| None)
    };
    grown.update(id.index as int, Some((id.generation, v)))
}

/// A slot sequence after removing whatever `id` finds (nothing changes when
/// the identity is stale or out of range).
pub open spec fn seq_remove<T>(s: Seq<Option<(u32, T)>>, id: Index) -> Seq<Option<(u32, T)>> {
    if seq_get(s, id) is Some {
        s.update(id.index as int, None)
    } else {
        s
    }
}

impl<T> ComponentTable<T> {
    /// The stored slots, as a sequence of optional (generation, value) pairs.
    pub closed spec fn entries(self) -> Seq<Option<(u32, T)>> {
        self.slots@
    }

    /// What `get` returns for `id`.
    pub open spec fn spec_get(self, id: Index) -> Option<T> {
        seq_get(self.entries(), id)
    }

    /// An empty table.
    pub fn new() -> (t: Self)
        ensures
            t.entries() == Seq::<Option<(u32, T)>>::empty(),
    {
        ComponentTable { slots: Vec::new() }
    }

    /// Number of slots the table has ever touched.
    pub fn slot_count(&self) -> (n: usize)
        ensures
            n as int == self.entries().len(),
    {
        self.slots.len()
    }

    /// The raw slot at index `i`, for joined iteration.
    pub fn slot_at(&self, i: usize) -> (e: &Option<(u32, T)>)
        requires
            (i as int) < self.entries().len(),
        ensures
            *e == self.entries()[i as int],
    {
        &self.slots[i]
    }

    /// Looks the component up by identity; stale identities find nothing.
    pub fn get(&self, id: Index) -> (r: Option<&T>)
        ensures
            match r {
                Some(v) => self.spec_get(id) == Some(*v),
                None => self.spec_get(id) is None,
            },
    {
        if id.index >= self.slots.len() {
            return None;
        }
        match &self.slots[id.index] {
            Some(e) => {
                if e.0 == id.generation {
                    Some(&e.1)
                } else {
                    None
                }
            },
            None => None,
        }
    }

    /// Stores `value` for `id`, overwriting whatever the slot held.
    pub fn insert(&mut self, id: Index, value: T)
        requires
            id.index < usize::MAX,
        ensures
            final(self).entries() == seq_insert(old(self).entries(), id, value),
            final(self).spec_get(id) == Some(value),
            forall|j: Index|
                j.index != id.index ==> final(self).spec_get(j) == old(self).spec_get(j),
    {
        let ghost pre = self.slots@;
        proof {
            assert(self.slots@ =~= pre + Seq::new(0nat, |i: int| None));
        }
        if self.slots.len() <= id.index {
            while self.slots.len() <= id.index
                invariant
                    id.index < usize::MAX,
                    pre.len() <= self.slots@.len() <= id.index + 1,
                    self.slots@ == pre + Seq::new(
                        (self.slots@.len() - pre.len()) as nat,
                        |i: int| None,
                    ),
                decreases id.index + 1 - self.slots.len(),
            {
                self.slots.push(None);
                proof {
                    assert(self.slots@ =~= pre + Seq::new(
                        (self.slots@.len() - pre.len()) as nat,
                        |i: int| None,
                    ));
                }
            }
        }
        self.slots[id.index] = Some((id.generation, value));
        proof {
            if (id.index as int) < pre.len() {
                assert(self.slots@ =~= seq_insert(pre, id, value));
            } else {
                assert(self.slots@ =~= seq_insert(pre, id, value));
            }
        }
    }

    /// Overwrites the raw slot at index `i`, for phase loops that walk the
    /// table in slot order.
    pub fn set_slot(&mut self, i: usize, e: Option<(u32, T)>)
        requires
            (i as int) < old(self).entries().len(),
        ensures
            final(self).entries() == old(self).entries().update(i as int, e),
    {
        self.slots[i] = e;
    }

    /// Removes the component stored for `id`; a stale identity is a no-op.
    pub fn remove(&mut self, id: Index)
        ensures
            final(self).entries() == seq_remove(old(self).entries(), id),
            final(self).spec_get(id) is None,
            forall|j: Index|
                j.index != id.index ==> final(self).spec_get(j) == old(self).spec_get(j),
    {
        if id.index >= self.slots.len() {
            return ;
        }
        let matches_gen = match &self.slots[id.index] {
            Some(e) => e.0 == id.generation,
            None => false,
        };
        if matches_gen {
            self.slots[id.index] = None;
        }
    }
}

/// How a lookup reads through an insertion: the inserted identity finds the
/// new value, an identity at the same slot under another generation finds
/// nothing, and every other slot is untouched.
pub proof fn lemma_seq_insert_get<T>(s: Seq<Option<(u32, T)>>, id: Index, v: T, j: Index)
    ensures
        seq_get(seq_insert(s, id, v), j) == (if j.index == id.index {
            if j.generation == id.generation {
                Some(v)
            } else {
                None::<T>
            }
        } else {
            seq_get(s, j)
        }),
{
    let t = seq_insert(s, id, v);
    if j.index != id.index {
        if (j.index as int) < s.len() {
            assert(t[j.index as int] == s[j.index as int]);
        } else if (j.index as int) < t.len() {
            assert(t[j.index as int] == None::<(u32, T)>);
        }
    }
}

} // verus!
