//! An arena with a fixed capacity that reuses the slots of removed values,
//! most recently freed first.
use vstd::prelude::*;
use std::marker::PhantomData;

use crate::arena::{
    count_none, count_some, entry_view, lemma_count_none_le, lemma_count_none_push,
    lemma_count_none_update, vec_replace, ArenaEntry, ArenaPtr, ArenaValue, SimplePtr,
};

verus! {

/// The capacity of an arena made with `new`: 2^32 slots where a `usize`
/// can count them, and as many as it can count otherwise.
pub const FREE_SIZE: u64 = 0x1_0000_0000;

/// An arena of values of type `T` reached through pointers of type `P`.
/// A new value takes the most recently freed slot if there is one, and a new
/// slot otherwise; the arena never grows past its capacity.
pub struct RawArena<T: ArenaValue<P>, P: ArenaPtr = SimplePtr> {
    entries: Vec<ArenaEntry<T>>,
    free: Vec<usize>,
    capacity: usize,
    _p: PhantomData<P>,
}

impl<T: ArenaValue<P>, P: ArenaPtr> RawArena<T, P> {
    /// What each slot holds.
    pub closed spec fn view(&self) -> Seq<Option<T>> {
        self.entries@.map_values(|e: ArenaEntry<T>| entry_view(e))
    }

    /// The freed slots, the next one to be reused last.
    pub closed spec fn free_list(&self) -> Seq<usize> {
        self.free@
    }

    /// The number of slots the arena may have.
    pub closed spec fn capacity_spec(&self) -> nat {
        self.capacity as nat
    }

    /// The free list names free slots, one per free slot, and the slots fit
    /// the capacity and the pointers.
    pub closed spec fn wf(&self) -> bool {
        &&& forall|j: int|
            0 <= j < self.free@.len() ==> {
                &&& 0 <= #[trigger] self.free@[j] < self.entries@.len()
                &&& self.entries@[self.free@[j] as int] is Free
            }
        &&& self.free@.no_duplicates()
        &&& self.free@.len() == count_none(self.view())
        &&& self.entries@.len() <= self.capacity
        &&& self.entries@.len() <= T::ptr_limit()
    }

    /// What the invariant gives the arena's users.
    pub proof fn lemma_wf(&self)
        requires
            self.wf(),
        ensures
            forall|j: int|
                0 <= j < self.free_list().len() ==> {
                    &&& 0 <= #[trigger] self.free_list()[j] < self.view().len()
                    &&& self.view()[self.free_list()[j] as int] is None
                },
            self.free_list().len() == count_none(self.view()),
            self.view().len() <= self.capacity_spec(),
            self.view().len() <= T::ptr_limit(),
    {
        assert forall|j: int| 0 <= j < self.free_list().len() implies {
            &&& 0 <= #[trigger] self.free_list()[j] < self.view().len()
            &&& self.view()[self.free_list()[j] as int] is None
        } by {
            let k = self.free@[j] as int;
            assert(self.view()[k] == entry_view(self.entries@[k]));
        }
    }

    /// An empty arena with the default capacity.
    pub fn new() -> (r: Self)
        ensures
            r.wf(),
            r.view() == Seq::<Option<T>>::empty(),
            r.free_list() == Seq::<usize>::empty(),
            FREE_SIZE <= usize::MAX ==> r.capacity_spec() == FREE_SIZE,
            FREE_SIZE > usize::MAX ==> r.capacity_spec() == usize::MAX,
    {
        let capacity = if FREE_SIZE <= usize::MAX as u64 {
            FREE_SIZE as usize
        } else {
            usize::MAX
        };
        Self::with_capacity(capacity)
    }

    /// An empty arena for at most `capacity` slots.
    pub fn with_capacity(capacity: usize) -> (r: Self)
        ensures
            r.wf(),
            r.view() == Seq::<Option<T>>::empty(),
            r.free_list() == Seq::<usize>::empty(),
            r.capacity_spec() == capacity,
    {
        let r = Self { entries: Vec::new(), free: Vec::new(), capacity, _p: PhantomData };
        assert(r.view() =~= Seq::<Option<T>>::empty());
        r
    }

    /// The number of values held.
    pub fn len(&self) -> (r: usize)
        requires
            self.wf(),
        ensures
            r == count_some(self.view()),
    {
        proof {
            lemma_count_none_le(self.view());
        }
        self.entries.len() - self.free.len()
    }

    /// The number of free slots.
    pub fn free_count(&self) -> (r: usize)
        ensures
            r == self.free_list().len(),
    {
        self.free.len()
    }

    /// The number of slots, free or not.
    pub fn slots(&self) -> (r: usize)
        ensures
            r == self.view().len(),
    {
        self.entries.len()
    }

    /// The value that `ptr` points to, if its slot holds one.
    pub fn get_checked(&self, ptr: &P) -> (r: Option<&T>)
        ensures
            r matches Some(v) ==> ptr.index_spec() < self.view().len() && self.view()[ptr.index_spec() as int] == Some(*v),
            r is None <==> (ptr.index_spec() >= self.view().len() || self.view()[ptr.index_spec() as int] is None),
    {
        let index = ptr.get_index();
        if index >= self.entries.len() {
            return None;
        }
        match &self.entries[index] {
            ArenaEntry::Occupied(value) => Some(value),
            ArenaEntry::Free(_) => None,
        }
    }

    /// The number of slots the arena may have.
    pub fn capacity(&self) -> (r: usize)
        ensures
            r == self.capacity_spec(),
    {
        self.capacity
    }

    /// Records that slot `index` is free.
    fn push_free_index(&mut self, index: usize)
        ensures
            final(self).free_list() == old(self).free_list().push(index),
            final(self).entries == old(self).entries,
            final(self).capacity == old(self).capacity,
    {
        self.free.push(index);
    }

    /// Takes the most recently freed slot, if any.
    fn pop_free_index(&mut self) -> (r: Option<usize>)
        ensures
            old(self).free_list().len() == 0 ==> r is None && final(self).free_list() == old(
                self,
            ).free_list(),
            old(self).free_list().len() > 0 ==> r == Some(old(self).free_list().last())
                && final(self).free_list() == old(self).free_list().drop_last(),
            final(self).entries == old(self).entries,
            final(self).capacity == old(self).capacity,
    {
        self.free.pop()
    }

    /// Stores `value` in the most recently freed slot, or in a new slot if
    /// none is free, and gives back its pointer. A new slot must fit the
    /// capacity.
    pub fn allocate(&mut self, value: T) -> (r: P)
        requires
            old(self).wf(),
            value.ptr_ready(),
            old(self).free_list().len() > 0 || (old(self).view().len() < old(self).capacity_spec()
                && old(self).view().len() < T::ptr_limit()),
        ensures
            final(self).wf(),
            final(self).capacity_spec() == old(self).capacity_spec(),
            old(self).free_list().len() > 0 ==> {
                &&& r.index_spec() == old(self).free_list().last()
                &&& r.index_spec() < old(self).view().len()
                &&& old(self).view()[r.index_spec() as int] is None
                &&& final(self).view() == old(self).view().update(r.index_spec() as int, Some(value))
                &&& final(self).free_list() == old(self).free_list().drop_last()
            },
            old(self).free_list().len() == 0 ==> {
                &&& r.index_spec() == old(self).view().len()
                &&& final(self).view() == old(self).view().push(Some(value))
                &&& final(self).free_list() == old(self).free_list()
            },
    {
        proof {
            self.lemma_wf();
        }
        let ghost before = self.view();
        let ghost free_before = self.free@;
        match self.pop_free_index() {
            Some(index) => {
                proof {
                    assert(free_before[free_before.len() - 1] == index);
                }
                let ptr = value.to_ptr(index);
                let ignored = vec_replace(&mut self.entries, index, ArenaEntry::Occupied(value));
                proof {
                    lemma_count_none_update(before, index as int, Some(value));
                    assert(self.view() =~= before.update(index as int, Some(value)));
                    assert forall|j: int| 0 <= j < self.free@.len() implies {
                        &&& 0 <= #[trigger] self.free@[j] < self.entries@.len()
                        &&& self.entries@[self.free@[j] as int] is Free
                    } by {
                        assert(self.free@[j] == free_before[j]);
                        assert(free_before[j] != index);
                    }
                }
                ptr
            },
            None => {
                let index = self.entries.len();
                let ptr = value.to_ptr(index);
                self.entries.push(ArenaEntry::Occupied(value));
                proof {
                    lemma_count_none_push(before, Some(value));
                    assert(self.view() =~= before.push(Some(value)));
                }
                ptr
            },
        }
    }

    /// The value that `ptr` points to; its slot must hold one.
    pub fn get(&self, ptr: &P) -> (r: Option<&T>)
        requires
            ptr.index_spec() < self.view().len(),
            self.view()[ptr.index_spec() as int] is Some,
        ensures
            r == Some(&self.view()[ptr.index_spec() as int]->0),
    {
        let index = ptr.get_index();
        match &self.entries[index] {
            ArenaEntry::Occupied(value) => Some(value),
            ArenaEntry::Free(_) => {
                proof {
                    assert(self.view()[index as int] == entry_view(self.entries@[index as int]));
                }
                None
            },
        }
    }

    /// Replaces the value that `ptr` points to with `new_value` and gives
    /// back the old value; its slot must hold one.
    pub fn set(&mut self, ptr: &P, new_value: T) -> (r: T)
        requires
            old(self).wf(),
            ptr.index_spec() < old(self).view().len(),
            old(self).view()[ptr.index_spec() as int] is Some,
        ensures
            final(self).wf(),
            final(self).capacity_spec() == old(self).capacity_spec(),
            final(self).free_list() == old(self).free_list(),
            Some(r) == old(self).view()[ptr.index_spec() as int],
            final(self).view() == old(self).view().update(ptr.index_spec() as int, Some(new_value)),
    {
        let index = ptr.get_index();
        let ghost before = self.view();
        let old_entry = vec_replace(&mut self.entries, index, ArenaEntry::Occupied(new_value));
        proof {
            assert(before[index as int] == entry_view(old_entry));
            lemma_count_none_update(before, index as int, Some(new_value));
            assert(self.view() =~= before.update(index as int, Some(new_value)));
        }
        match old_entry {
            ArenaEntry::Occupied(value) => value,
            ArenaEntry::Free(_) => {
                proof {
                    assert(false);
                }
                vstd::pervasive::unreached()
            },
        }
    }

    /// Removes the value that `ptr` points to and gives it back; its slot
    /// must hold one, and becomes the next slot to be reused.
    pub fn free(&mut self, ptr: P) -> (r: T)
        requires
            old(self).wf(),
            ptr.index_spec() < old(self).view().len(),
            old(self).view()[ptr.index_spec() as int] is Some,
        ensures
            final(self).wf(),
            final(self).capacity_spec() == old(self).capacity_spec(),
            final(self).free_list() == old(self).free_list().push(ptr.index_spec() as usize),
            Some(r) == old(self).view()[ptr.index_spec() as int],
            final(self).view() == old(self).view().update(ptr.index_spec() as int, None),
    {
        let index = ptr.get_index();
        let ghost before = self.view();
        proof {
            self.lemma_wf();
        }
        let old_entry = vec_replace(&mut self.entries, index, ArenaEntry::Free(index));
        proof {
            assert(before[index as int] == entry_view(old_entry));
            lemma_count_none_update(before, index as int, None);
            assert(self.view() =~= before.update(index as int, None));
            assert forall|j: int| 0 <= j < self.free@.len() implies self.free@[j] != index by {
                assert(before[self.free@[j] as int] is None);
            }
        }
        self.push_free_index(index);
        match old_entry {
            ArenaEntry::Occupied(value) => value,
            ArenaEntry::Free(_) => {
                proof {
                    assert(false);
                }
                vstd::pervasive::unreached()
            },
        }
    }
}


/// Freeing a slot and then storing a value puts the value in that very
/// slot: the most recently freed slot is reused first.
pub proof fn law_free_then_allocate_reuses<T>(
    view0: Seq<Option<T>>,
    free0: Seq<usize>,
    view1: Seq<Option<T>>,
    free1: Seq<usize>,
    view2: Seq<Option<T>>,
    free2: Seq<usize>,
    index: usize,
    reused: usize,
    value: T,
)
    requires
        index < view0.len(),
        view0[index as int] is Some,
        view1 == view0.update(index as int, None),
        free1 == free0.push(index),
        free1.len() > 0 ==> {
            &&& reused == free1.last()
            &&& view2 == view1.update(reused as int, Some(value))
            &&& free2 == free1.drop_last()
        },
    ensures
        reused == index,
        view2 == view0.update(index as int, Some(value)),
        free2 == free0,
{
    assert(free1.drop_last() =~= free0);
    assert(view2 =~= view0.update(index as int, Some(value)));
}

} // verus!
