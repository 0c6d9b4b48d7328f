//! An arena: values live in slots, are reached through typed pointers that
//! carry the slot's index, and leave a free slot behind when removed.
use vstd::prelude::*;
use std::marker::PhantomData;

verus! {

/// Pointers into an arena.
pub trait ArenaPtr {
    /// The index of the slot the pointer refers to.
    spec fn index_spec(&self) -> nat;

    fn get_index(&self) -> (r: usize)
        ensures
            r == self.index_spec(),
    ;
}

/// A pointer that is only an index.
pub struct SimplePtr {
    pub index: usize,
}

impl ArenaPtr for SimplePtr {
    open spec fn index_spec(&self) -> nat {
        self.index as nat
    }

    fn get_index(&self) -> (r: usize) {
        self.index
    }
}

/// Values that an arena holds: a value makes the pointer to its slot.
pub trait ArenaValue<P: ArenaPtr> {
    /// The slot indexes that a pointer can carry are below this limit.
    spec fn ptr_limit() -> nat;

    /// The value can make a pointer.
    spec fn ptr_ready(&self) -> bool;

    fn to_ptr(&self, index: usize) -> (r: P)
        requires
            index < Self::ptr_limit(),
            self.ptr_ready(),
        ensures
            r.index_spec() == index,
    ;
}

impl ArenaValue<SimplePtr> for usize {
    open spec fn ptr_limit() -> nat {
        usize::MAX as nat + 1
    }

    open spec fn ptr_ready(&self) -> bool {
        true
    }

    fn to_ptr(&self, index: usize) -> (r: SimplePtr) {
        SimplePtr { index }
    }
}

/// A slot: it holds a value, or it is free.
pub enum ArenaEntry<T> {
    Occupied(T),
    Free(usize),
}

/// What a slot holds.
pub open spec fn entry_view<T>(e: ArenaEntry<T>) -> Option<T> {
    match e {
        ArenaEntry::Occupied(v) => Some(v),
        ArenaEntry::Free(_) => None,
    }
}

/// The number of empty slots among `s`.
pub open spec fn count_none<T>(s: Seq<Option<T>>) -> nat
    decreases s.len(),
{
    if s.len() == 0 {
        0
    } else {
        count_none(s.drop_last()) + if s.last() is None {
            1nat
        } else {
            0nat
        }
    }
}

/// The number of values among `s`.
pub open spec fn count_some<T>(s: Seq<Option<T>>) -> nat {
    (s.len() - count_none(s)) as nat
}

/// There are never more empty slots than slots.
pub proof fn lemma_count_none_le<T>(s: Seq<Option<T>>)
    ensures
        count_none(s) <= s.len(),
    decreases s.len(),
{
    if s.len() > 0 {
        lemma_count_none_le(s.drop_last());
    }
}

/// Adding a slot adds one empty slot if the new slot is empty.
pub proof fn lemma_count_none_push<T>(s: Seq<Option<T>>, x: Option<T>)
    ensures
        count_none(s.push(x)) == count_none(s) + if x is None {
            1nat
        } else {
            0nat
        },
{
    assert(s.push(x).drop_last() =~= s);
}

/// Changing one slot changes the number of empty slots by what it loses and
/// gains.
pub proof fn lemma_count_none_update<T>(s: Seq<Option<T>>, i: int, x: Option<T>)
    requires
        0 <= i < s.len(),
    ensures
        count_none(s.update(i, x)) + (if s[i] is None {
            1nat
        } else {
            0nat
        }) == count_none(s) + (if x is None {
            1nat
        } else {
            0nat
        }),
    decreases s.len(),
{
    if i == s.len() - 1 {
        assert(s.update(i, x).drop_last() =~= s.drop_last());
    } else {
        lemma_count_none_update(s.drop_last(), i, x);
        assert(s.update(i, x).drop_last() =~= s.drop_last().update(i, x));
    }
}

/// Slots that all hold nothing.
pub proof fn lemma_count_none_all<T>(s: Seq<Option<T>>)
    requires
        forall|i: int| 0 <= i < s.len() ==> s[i] is None,
    ensures
        count_none(s) == s.len(),
    decreases s.len(),
{
    if s.len() > 0 {
        lemma_count_none_all(s.drop_last());
    }
}

/// Puts `value` in slot `i` of `v` and gives back what was there.
pub fn vec_replace<T>(v: &mut Vec<T>, i: usize, value: T) -> (r: T)
    requires
        i < old(v)@.len(),
    ensures
        final(v)@ == old(v)@.update(i as int, value),
        r == old(v)@[i as int],
{
    let mut x = value;
    v.set_and_swap(i, &mut x);
    x
}

/// An arena of values of type `T` reached through pointers of type `P`.
/// A new value always takes a new slot; removing a value frees its slot.
pub struct Arena<T: ArenaValue<P>, P: ArenaPtr> {
    entries: Vec<ArenaEntry<T>>,
    free: Vec<usize>,
    _p: PhantomData<P>,
}

impl<T: ArenaValue<P>, P: ArenaPtr> Arena<T, P> {
    /// What each slot holds.
    pub closed spec fn view(&self) -> Seq<Option<T>> {
        self.entries@.map_values(|e: ArenaEntry<T>| entry_view(e))
    }

    /// The free list names free slots, one per free slot.
    pub closed spec fn wf(&self) -> bool {
        &&& forall|j: int|
            0 <= j < self.free@.len() ==> {
                &&& 0 <= #[trigger] self.free@[j] < self.entries@.len()
                &&& self.entries@[self.free@[j] as int] is Free
            }
        &&& self.free@.len() == count_none(self.view())
    }

    /// An empty arena.
    pub fn new() -> (r: Self)
        ensures
            r.wf(),
            r.view() == Seq::<Option<T>>::empty(),
    {
        let r = Self { entries: Vec::new(), free: Vec::new(), _p: PhantomData };
        assert(r.view() =~= Seq::<Option<T>>::empty());
        r
    }

    /// An empty arena with room for `capacity` slots.
    pub fn with_capacity(capacity: usize) -> (r: Self)
        ensures
            r.wf(),
            r.view() == Seq::<Option<T>>::empty(),
    {
        let r = Self { entries: Vec::with_capacity(capacity), free: Vec::new(), _p: PhantomData };
        assert(r.view() =~= Seq::<Option<T>>::empty());
        r
    }

    /// The number of values held.
    pub fn len(&self) -> (r: usize)
        requires
            self.wf(),
        ensures
            r == count_some(self.view()),
    {
        proof {
            lemma_count_none_le(self.view());
        }
        self.entries.len() - self.free.len()
    }

    /// The number of slots, free or not.
    pub fn slots(&self) -> (r: usize)
        ensures
            r == self.view().len(),
    {
        self.entries.len()
    }

    /// An iterator over the pointers to the held values.
    pub fn iter(&self) -> (r: ArenaPtrIter<'_, T, P>)
        ensures
            r.index == 0,
            r.arena == self,
    {
        ArenaPtrIter::new(&self)
    }

    /// An iterator over the held values.
    pub fn values_iter(&self) -> (r: ArenaValueIter<'_, T, P>)
        ensures
            r.iter.index == 0,
            r.iter.arena == self,
    {
        ArenaValueIter::new(self.iter())
    }

    /// Removes every held value and gives them back in slot order; every
    /// slot is free afterwards.
    pub fn drain_values(&mut self) -> (r: Vec<T>)
        requires
            old(self).wf(),
        ensures
            final(self).wf(),
            final(self).view().len() == old(self).view().len(),
            forall|i: int| 0 <= i < final(self).view().len() ==> final(self).view()[i] is None,
            r@ == values_of(old(self).view()),
    {
        let mut out: Vec<T> = Vec::new();
        let mut i: usize = 0;
        let ghost start = self.view();
        while i < self.entries.len()
            invariant
                self.wf(),
                i <= self.entries@.len(),
                self.view().len() == start.len(),
                forall|k: int| 0 <= k < i ==> self.view()[k] is None,
                forall|k: int| i <= k < start.len() ==> self.view()[k] == start[k],
                out@ == values_of(start.take(i as int)),
            decreases self.entries@.len() - i,
        {
            proof {
                assert(start.take(i + 1).drop_last() =~= start.take(i as int));
            }
            let free_index = self.free.len();
            let ghost before = self.view();
            let entry = vec_replace(&mut self.entries, i, ArenaEntry::Free(free_index));
            match entry {
                ArenaEntry::Occupied(v) => {
                    proof {
                        lemma_count_none_update(before, i as int, None);
                        assert(self.view() =~= before.update(i as int, None));
                    }
                    self.free.push(i);
                    out.push(v);
                },
                ArenaEntry::Free(k) => {
                    let ignored = vec_replace(&mut self.entries, i, ArenaEntry::Free(k));
                    assert(self.view() =~= before);
                },
            }
            i = i + 1;
        }
        assert(start.take(start.len() as int) =~= start);
        out
    }

    /// The value that `ptr` points to, if its slot holds one.
    pub fn get(&self, ptr: P) -> (r: Option<&T>)
        ensures
            r matches Some(v) ==> ptr.index_spec() < self.view().len() && self.view()[ptr.index_spec() as int] == Some(*v),
            r is None <==> (ptr.index_spec() >= self.view().len() || self.view()[ptr.index_spec() as int] is None),
    {
        let index = ptr.get_index();
        if index >= self.entries.len() {
            return None;
        }
        match &self.entries[index] {
            ArenaEntry::Occupied(value) => Some(value),
            ArenaEntry::Free(_) => None,
        }
    }

    /// Replaces the value that `ptr` points to with `new_value`, giving back
    /// the old value; a free or missing slot is left alone.
    pub fn update(&mut self, ptr: P, new_value: T) -> (r: Option<T>)
        requires
            old(self).wf(),
        ensures
            final(self).wf(),
            r is None <==> (ptr.index_spec() >= old(self).view().len() || old(self).view()[ptr.index_spec() as int] is None),
            r is None ==> final(self).view() == old(self).view(),
            r matches Some(v) ==> old(self).view()[ptr.index_spec() as int] == Some(v)
                && final(self).view() == old(self).view().update(
                ptr.index_spec() as int,
                Some(new_value),
            ),
    {
        let index = ptr.get_index();
        if index >= self.entries.len() {
            return None;
        }
        let ghost before = self.view();
        let old_entry = vec_replace(&mut self.entries, index, ArenaEntry::Occupied(new_value));
        match old_entry {
            ArenaEntry::Occupied(value) => {
                proof {
                    lemma_count_none_update(before, index as int, Some(new_value));
                    assert(self.view() =~= before.update(index as int, Some(new_value)));
                }
                Some(value)
            },
            ArenaEntry::Free(k) => {
                let ignored = vec_replace(&mut self.entries, index, ArenaEntry::Free(k));
                assert(self.view() =~= before);
                None
            },
        }
    }

    /// Stores `value` in a new slot and gives back its pointer.
    pub fn allocate(&mut self, value: T) -> (r: P)
        requires
            old(self).wf(),
            old(self).view().len() < T::ptr_limit(),
            value.ptr_ready(),
        ensures
            final(self).wf(),
            final(self).view() == old(self).view().push(Some(value)),
            r.index_spec() == old(self).view().len(),
    {
        let index = self.entries.len();
        let ptr = value.to_ptr(index);
        let ghost before = self.view();
        self.entries.push(ArenaEntry::Occupied(value));
        proof {
            lemma_count_none_push(before, Some(value));
            assert(self.view() =~= before.push(Some(value)));
        }
        ptr
    }

    /// Removes the value that `ptr` points to and gives it back; a free or
    /// missing slot gives nothing.
    pub fn free(&mut self, ptr: P) -> (r: Option<T>)
        requires
            old(self).wf(),
        ensures
            final(self).wf(),
            r is None <==> (ptr.index_spec() >= old(self).view().len() || old(self).view()[ptr.index_spec() as int] is None),
            r is None ==> final(self).view() == old(self).view(),
            r matches Some(v) ==> old(self).view()[ptr.index_spec() as int] == Some(v)
                && final(self).view() == old(self).view().update(ptr.index_spec() as int, None),
    {
        let index = ptr.get_index();
        if index >= self.entries.len() {
            return None;
        }
        let ghost before = self.view();
        let free_index = self.free.len();
        let old_entry = vec_replace(&mut self.entries, index, ArenaEntry::Free(free_index));
        match old_entry {
            ArenaEntry::Occupied(value) => {
                proof {
                    lemma_count_none_update(before, index as int, None);
                    assert(self.view() =~= before.update(index as int, None));
                }
                self.free.push(index);
                Some(value)
            },
            ArenaEntry::Free(k) => {
                let ignored = vec_replace(&mut self.entries, index, ArenaEntry::Free(k));
                assert(self.view() =~= before);
                None
            },
        }
    }
}

/// The held values of `s`, in slot order.
pub open spec fn values_of<T>(s: Seq<Option<T>>) -> Seq<T>
    decreases s.len(),
{
    if s.len() == 0 {
        seq![]
    } else {
        match s.last() {
            Some(v) => values_of(s.drop_last()).push(v),
            None => values_of(s.drop_last()),
        }
    }
}

/// The first slot at or after `start` that holds a value.
pub open spec fn next_occupied<T>(s: Seq<Option<T>>, start: int) -> Option<int>
    decreases s.len() - start,
{
    if start < 0 || start >= s.len() {
        None
    } else if s[start] is Some {
        Some(start)
    } else {
        next_occupied(s, start + 1)
    }
}

/// Walks an arena's pointers. The position advances by one per pointer
/// given out, and the pointer is made with that position.
pub struct ArenaPtrIter<'a, T: ArenaValue<P>, P: ArenaPtr> {
    pub index: usize,
    pub arena: &'a Arena<T, P>,
}

impl<'a, T: ArenaValue<P>, P: ArenaPtr> ArenaPtrIter<'a, T, P> {
    /// An iterator at the start of `arena`.
    pub fn new(arena: &'a Arena<T, P>) -> (r: Self)
        ensures
            r.index == 0,
            r.arena == arena,
    {
        Self { index: 0, arena }
    }

    /// The next held value at or after the position makes a pointer with
    /// the position, and the position moves on by one; at the end, nothing.
    pub fn next(&mut self) -> (r: Option<P>)
        requires
            (old(self).index as int) < T::ptr_limit(),
            forall|k: int|
                0 <= k < old(self).arena.view().len() && #[trigger] old(self).arena.view()[k] is Some
                    ==> old(self).arena.view()[k]->0.ptr_ready(),
        ensures
            final(self).arena == old(self).arena,
            r is None <==> next_occupied(old(self).arena.view(), old(self).index as int) is None,
            r is None ==> final(self).index == old(self).index,
            r matches Some(p) ==> p.index_spec() == old(self).index && final(self).index
                == old(self).index + 1,
    {
        let mut i = self.index;
        let len = self.arena.entries.len();
        while i < len
            invariant
                self.index == old(self).index,
                self.arena == old(self).arena,
                (self.index as int) < T::ptr_limit(),
                len == self.arena.view().len(),
                self.index <= i <= len || (i == self.index && i > len),
                next_occupied(self.arena.view(), self.index as int) == next_occupied(
                    self.arena.view(),
                    i as int,
                ),
                forall|k: int|
                    0 <= k < self.arena.view().len() && #[trigger] self.arena.view()[k] is Some
                        ==> self.arena.view()[k]->0.ptr_ready(),
            decreases len - i,
        {
            match &self.arena.entries[i] {
                ArenaEntry::Occupied(value) => {
                    assert(self.arena.view()[i as int] == entry_view(self.arena.entries@[i as int]));
                    let ptr = value.to_ptr(self.index);
                    self.index = self.index + 1;
                    return Some(ptr);
                },
                ArenaEntry::Free(_) => {},
            }
            i = i + 1;
        }
        None
    }
}

/// Walks an arena's values through its pointers.
pub struct ArenaValueIter<'a, T: ArenaValue<P>, P: ArenaPtr> {
    pub iter: ArenaPtrIter<'a, T, P>,
}

impl<'a, T: ArenaValue<P>, P: ArenaPtr> ArenaValueIter<'a, T, P> {
    /// The value iterator over `iter`.
    pub fn new(iter: ArenaPtrIter<'a, T, P>) -> (r: Self)
        ensures
            r.iter == iter,
    {
        Self { iter }
    }

    /// The value in the slot of the next pointer; there must be a next
    /// pointer.
    pub fn next(&mut self) -> (r: Option<&'a T>)
        requires
            (old(self).iter.index as int) < T::ptr_limit(),
            forall|k: int|
                0 <= k < old(self).iter.arena.view().len() && #[trigger] old(self).iter.arena.view()[k] is Some
                    ==> old(self).iter.arena.view()[k]->0.ptr_ready(),
            next_occupied(old(self).iter.arena.view(), old(self).iter.index as int) is Some,
        ensures
            final(self).iter.arena == old(self).iter.arena,
            final(self).iter.index == old(self).iter.index + 1,
            r matches Some(v) ==> old(self).iter.arena.view()[old(self).iter.index as int]
                == Some(*v),
            r is None <==> old(self).iter.arena.view()[old(self).iter.index as int] is None,
    {
        let ptr = self.iter.next();
        match ptr {
            Some(p) => self.iter.arena.get(p),
            None => None,
        }
    }
}


/// A value just stored is read back from its slot, and no other slot
/// changes.
pub proof fn law_get_after_allocate<T>(before: Seq<Option<T>>, after: Seq<Option<T>>, value: T, index: nat)
    requires
        after == before.push(Some(value)),
        index == before.len(),
    ensures
        index < after.len(),
        after[index as int] == Some(value),
        forall|i: int| 0 <= i < before.len() ==> #[trigger] after[i] == before[i],
        count_some(after) == count_some(before) + 1,
{
    lemma_count_none_push(before, Some(value));
    lemma_count_none_le(before);
}

/// A value just freed is no longer read, and the number of held values
/// drops by one.
pub proof fn law_get_after_free<T>(before: Seq<Option<T>>, after: Seq<Option<T>>, index: nat)
    requires
        index < before.len(),
        before[index as int] is Some,
        after == before.update(index as int, None),
    ensures
        after[index as int] is None,
        forall|i: int| 0 <= i < before.len() && i != index ==> #[trigger] after[i] == before[i],
        count_some(after) + 1 == count_some(before),
{
    lemma_count_none_update(before, index as int, None);
    lemma_count_none_le(before);
    lemma_count_none_le(after);
}

/// Replacing a held value changes nothing but that slot, and the number of
/// held values stays.
pub proof fn law_get_after_update<T>(before: Seq<Option<T>>, after: Seq<Option<T>>, index: nat, value: T)
    requires
        index < before.len(),
        before[index as int] is Some,
        after == before.update(index as int, Some(value)),
    ensures
        after[index as int] == Some(value),
        count_some(after) == count_some(before),
{
    lemma_count_none_update(before, index as int, Some(value));
}

} // verus!
