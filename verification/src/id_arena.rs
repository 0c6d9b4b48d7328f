//! An arena of values reached through identifiers that carry a
//! generation, meant to tell a slot's successive values apart.
use vstd::prelude::*;
use std::marker::PhantomData;

verus! {

/// The number of value slots an arena made with `new` has room for.
pub const DEFAULT_ENTRY_CAPACITY: usize = 100;

/// The number of freed identifiers an arena made with `new` has room for.
pub const DEFAULT_FREE_CAPACITY: usize = 20;

/// An identifier of a value of type `T` in an arena: its slot and its
/// generation.
#[derive(Debug)]
pub struct ArenaId<T> {
    pub index: usize,
    pub generation: u64,
    pub _t: PhantomData<T>,
}

impl<T> ArenaId<T> {
    /// The identifier of slot `index` at generation `generation`.
    pub fn new(index: usize, generation: u64) -> (r: Self)
        ensures
            r.index == index,
            r.generation == generation,
    {
        Self { index, generation, _t: PhantomData }
    }

    /// Moves the identifier to the next generation of its slot.
    pub fn next_generation(&mut self)
        requires
            old(self).generation < u64::MAX,
        ensures
            final(self).index == old(self).index,
            final(self).generation == old(self).generation + 1,
    {
        self.generation = self.generation + 1;
    }

    /// Makes this identifier the same as `source`.
    pub fn clone_from(&mut self, source: &Self)
        ensures
            final(self).index == source.index,
            final(self).generation == source.generation,
    {
        self.index = source.index;
        self.generation = source.generation;
    }
}

impl<T> Clone for ArenaId<T> {
    /// The same identifier.
    fn clone(&self) -> (r: Self)
        ensures
            r.index == self.index,
            r.generation == self.generation,
    {
        Self { index: self.index, generation: self.generation, _t: PhantomData }
    }
}

impl<T> Copy for ArenaId<T> {
}

/// A slot of an arena: a value with its generation, or a free slot.
#[derive(Debug)]
pub enum ValueEntry<T> {
    Occupied { value: T, generation: u64 },
    Free { free_index: usize },
}

/// What a slot holds, if anything.
pub open spec fn value_of<T>(e: ValueEntry<T>) -> Option<T> {
    match e {
        ValueEntry::Occupied { value, .. } => Some(value),
        ValueEntry::Free { .. } => None,
    }
}

/// An arena of values of type `T`.
#[derive(Debug)]
pub struct Arena<T> {
    entries: Vec<ValueEntry<T>>,
    free: Vec<ArenaId<T>>,
}

impl<T> Arena<T> {
    /// What each slot holds.
    pub closed spec fn view(&self) -> Seq<Option<T>> {
        self.entries@.map_values(|e: ValueEntry<T>| value_of(e))
    }

    /// The number of recorded free identifiers.
    pub closed spec fn free_len(&self) -> nat {
        self.free@.len()
    }

    /// There are no more recorded free identifiers than slots.
    pub closed spec fn wf(&self) -> bool {
        self.free@.len() <= self.entries@.len()
    }

    /// An empty arena with the default capacities.
    pub fn new() -> (r: Arena<T>)
        ensures
            r.wf(),
            r.view() == Seq::<Option<T>>::empty(),
            r.free_len() == 0,
    {
        Arena::with_capacity(DEFAULT_ENTRY_CAPACITY, DEFAULT_FREE_CAPACITY)
    }

    /// An empty arena with room for `entries_capacity` values and
    /// `free_capacity` freed identifiers.
    pub fn with_capacity(entries_capacity: usize, free_capacity: usize) -> (r: Self)
        ensures
            r.wf(),
            r.view() == Seq::<Option<T>>::empty(),
            r.free_len() == 0,
    {
        let r = Self { entries: Vec::with_capacity(entries_capacity), free: Vec::with_capacity(free_capacity) };
        assert(r.view() =~= Seq::<Option<T>>::empty());
        r
    }

    /// The number of slots less the number of recorded free identifiers.
    pub fn len(&self) -> (r: usize)
        requires
            self.wf(),
        ensures
            r == self.view().len() - self.free_len(),
    {
        self.entries.len() - self.free.len()
    }

    /// Stores `value` in a new slot at generation 0 and gives back its
    /// identifier.
    pub fn allocate(&mut self, value: T) -> (r: ArenaId<T>)
        requires
            old(self).wf(),
        ensures
            final(self).wf(),
            final(self).view() == old(self).view().push(Some(value)),
            final(self).view() == allocated(old(self).view(), seq![value]),
            final(self).free_len() == old(self).free_len(),
            r.index == old(self).view().len(),
            r.generation == 0,
    {
        let index = self.entries.len();
        self.entries.push(ValueEntry::Occupied { value: value, generation: 0 });
        assert(self.view() =~= old(self).view().push(Some(value)));
        assert(seq![value].drop_last() =~= Seq::<T>::empty());
        assert(allocated(old(self).view(), Seq::<T>::empty()) == old(self).view());
        ArenaId::new(index, 0)
    }

    /// Stores the value that `create_fn` makes in a new slot at generation
    /// 0 and gives back its identifier.
    pub fn allocate_with<C: FnOnce() -> T>(&mut self, create_fn: C) -> (r: ArenaId<T>)
        requires
            old(self).wf(),
            create_fn.requires(()),
        ensures
            final(self).wf(),
            final(self).view().len() == old(self).view().len() + 1,
            final(self).view().drop_last() == old(self).view(),
            final(self).view().last() matches Some(v) && create_fn.ensures((), v),
            final(self).free_len() == old(self).free_len(),
            r.index == old(self).view().len(),
            r.generation == 0,
    {
        let index = self.entries.len();
        let value = create_fn();
        self.entries.push(ValueEntry::Occupied { value: value, generation: 0 });
        assert(self.view() =~= old(self).view().push(Some(value)));
        assert(self.view().drop_last() =~= old(self).view());
        ArenaId::new(index, 0)
    }

    /// The value in the slot of `id`, whatever its generation, if the slot
    /// holds one.
    pub fn get(&self, id: &ArenaId<T>) -> (r: Option<&T>)
        ensures
            r matches Some(v) ==> id.index < self.view().len() && self.view()[id.index as int] == Some(*v),
            r is None <==> (id.index >= self.view().len() || self.view()[id.index as int] is None),
    {
        if id.index >= self.entries.len() {
            return None;
        }
        match &self.entries[id.index] {
            ValueEntry::Occupied { value, generation } => Some(value),
            ValueEntry::Free { free_index } => None,
        }
    }

    /// Takes the value out of the slot of `id`, leaving it free, if it
    /// holds one. The freed slot is not recorded among the free
    /// identifiers.
    pub fn remove(&mut self, id: &ArenaId<T>) -> (r: Option<T>)
        requires
            old(self).wf(),
        ensures
            final(self).wf(),
            final(self).free_len() == old(self).free_len(),
            r is None <==> (id.index >= old(self).view().len() || old(self).view()[id.index as int] is None),
            r is None ==> final(self).view() == old(self).view(),
            r matches Some(v) ==> old(self).view()[id.index as int] == Some(v) && final(self).view()
                == old(self).view().update(id.index as int, None),
    {
        if id.index >= self.entries.len() {
            return None;
        }
        match &self.entries[id.index] {
            ValueEntry::Free { free_index } => {
                return None;
            },
            _ => {},
        }
        let free_index = self.free.len();
        let old_entry = crate::arena::vec_replace(&mut self.entries, id.index, ValueEntry::Free { free_index });
        assert(self.view() =~= old(self).view().update(id.index as int, None));
        match old_entry {
            ValueEntry::Occupied { value, .. } => Some(value),
            ValueEntry::Free { .. } => None,
        }
    }
}

/// The slots of an arena whose slots were `slots` after allocating
/// `values` in turn: allocation only appends.
pub open spec fn allocated<T>(slots: Seq<Option<T>>, values: Seq<T>) -> Seq<Option<T>>
    decreases values.len(),
{
    if values.len() == 0 {
        slots
    } else {
        allocated(slots, values.drop_last()).push(Some(values.last()))
    }
}

/// Deletion without the ABA problem: a slot emptied by `remove` stays
/// empty through any number of later allocations, so an identifier of a
/// removed value never reaches a value allocated after it.
pub proof fn law_removed_slot_stays_empty<T>(slots: Seq<Option<T>>, index: int, values: Seq<T>)
    requires
        0 <= index < slots.len(),
        slots[index] is None,
    ensures
        allocated(slots, values).len() == slots.len() + values.len(),
        allocated(slots, values)[index] is None,
    decreases values.len(),
{
    if values.len() > 0 {
        law_removed_slot_stays_empty(slots, index, values.drop_last());
    }
}

} // verus!
