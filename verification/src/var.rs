//! Variables: wires between two ports. A variable has two ends of opposite
//! polarity; a polarized end is packed into a word with the variable.
use vstd::prelude::*;
use vstd::string::StringExecFns;

use crate::arena::{Arena, ArenaPtr, ArenaValue};
use crate::bitset::{lemma_and_le_u32, BitSet32};
use crate::term::TermFamily;
use crate::text;
use crate::{polarity_code, polarity_of_code, Polarity};

verus! {

/// The largest variable index that a pointer can be given.
pub const VAR_INDEX_LIMIT: usize = 0x7fffff;

/// One end of a variable: the variable (bits 0 to 22) and the polarity of
/// the end (bit 23).
#[derive(Clone, Copy, PartialEq, Eq, Structural, Debug)]
pub struct PVarPtr(pub u32);

/// Facts about the fields of a variable end and of a variable pointer.
pub proof fn lemma_var_bits(raw: u32, v: u32)
    by (bit_vector)
    ensures
        (1u32 << 23u8) == 0x800000u32,
        (0x7fffffu32 << 0u8) == 0x7fffffu32,
        ({
            let r = (raw & !(1u32 << 23u8)) | ((v & 1u32) << 23u8);
            &&& (r >> 0u8) & 0x7fffff == (raw >> 0u8) & 0x7fffff
            &&& (r >> 23u8) & 1 == v & 1
            &&& r >> 24u8 == raw >> 24u8
        }),
        ({
            let r = (raw & !(0x7fffffu32 << 0u8)) | ((v & 0x7fffffu32) << 0u8);
            &&& (r >> 0u8) & 0x7fffff == v & 0x7fffff
            &&& r >> 23u8 == raw >> 23u8
        }),
        (raw >> 0u8) & 0xffffff == ((raw >> 0u8) & 0x7fffff) | (((raw >> 23u8) & 1) << 23u8),
        v <= 1 ==> v & 1 == v,
        v < 0x7fffff ==> v & 0x7fffff == v,
        raw >> 23u8 == 0 ==> (raw >> 0u8) & 0x7fffff == raw,
        raw >> 23u8 == 0 ==> raw >> 24u8 == 0,
        ((raw >> 0u8) & 0x7fffff) >> 23u8 == 0,
        (0u32 >> 23u8) == 0,
        (0u32 >> 24u8) == 0,
        raw >> 24u8 == 0 && (raw >> 0u8) & 0x7fffff < 0x7fffff ==> (raw >> 0u8) & 0xffffff
            < 0xffffff,
{
}

impl PVarPtr {
    pub open spec fn var_bits(self) -> u32 {
        (self.0 >> 0u8) & 0x7fffff
    }

    pub open spec fn polarity_bits(self) -> u32 {
        (self.0 >> 23u8) & 1
    }

    pub open spec fn ptr_bits(self) -> u32 {
        (self.0 >> 0u8) & 0xffffff
    }

    /// The index of the variable.
    pub open spec fn index_of(self) -> nat {
        self.var_bits() as nat
    }

    /// The polarity of the end.
    pub open spec fn polarity_of(self) -> Polarity {
        polarity_of_code(self.polarity_bits() as int)
    }

    /// The end of polarity `polarity` of the variable at `index`, nothing
    /// else set.
    pub open spec fn made(self, index: nat, polarity: Polarity) -> bool {
        &&& self.index_of() == index
        &&& self.polarity_of() == polarity
        &&& self.polarity_bits() == polarity_code(polarity)
        &&& self.0 >> 24u8 == 0
        &&& index < VAR_INDEX_LIMIT
    }

    fn polarity_field() -> (r: BitSet32<1>)
        ensures
            r.spec_mask() == 1,
            r.spec_offset() == 23,
    {
        BitSet32::new(1, 23)
    }

    fn var_field() -> (r: BitSet32<23>)
        ensures
            r.spec_mask() == 0x7fffff,
            r.spec_offset() == 0,
    {
        BitSet32::new(0x7fffff, 0)
    }

    fn ptr_field() -> (r: BitSet32<24>)
        ensures
            r.spec_mask() == 0xffffff,
            r.spec_offset() == 0,
    {
        BitSet32::new(0xffffff, 0)
    }

    /// The end of polarity `polarity` of `var_ptr`.
    pub fn new(var_ptr: VarPtr, polarity: Polarity) -> (r: PVarPtr)
        requires
            var_ptr.wf(),
        ensures
            r.made(var_ptr.index_of(), polarity),
            r.ptr_bits() < 0xffffff,
    {
        let mut pvar_ptr = Self(var_ptr.get_ptr());
        proof {
            lemma_var_bits(var_ptr.0, 0);
            assert(pvar_ptr.0 == var_ptr.0);
            lemma_var_bits(pvar_ptr.0, 0);
            assert(pvar_ptr.var_bits() == var_ptr.index_bits());
            assert(pvar_ptr.0 >> 24u8 == 0);
        }
        pvar_ptr.set_polarity(polarity);
        proof {
            lemma_var_bits(pvar_ptr.0, 0);
            assert(pvar_ptr.var_bits() == var_ptr.index_bits());
            assert(pvar_ptr.0 >> 24u8 == 0);
            assert(pvar_ptr.var_bits() < 0x7fffff);
        }
        pvar_ptr
    }

    /// The negative and the positive end of `var_ptr`.
    pub fn wire(var_ptr: VarPtr) -> (r: (PVarPtr, PVarPtr))
        requires
            var_ptr.wf(),
        ensures
            r.0.made(var_ptr.index_of(), Polarity::Neg),
            r.1.made(var_ptr.index_of(), Polarity::Pos),
            r.0.ptr_bits() < 0xffffff,
            r.1.ptr_bits() < 0xffffff,
    {
        let in_ptr = Self::new(var_ptr, Polarity::Neg);
        let out_ptr = Self::new(var_ptr, Polarity::Pos);
        (in_ptr, out_ptr)
    }

    /// The polarity of the end.
    pub fn get_polarity(&self) -> (r: Polarity)
        ensures
            r == self.polarity_of(),
    {
        proof {
            lemma_and_le_u32(self.0 >> 23u8, 1);
        }
        Polarity::from_u32(Self::polarity_field().get(self.0))
    }

    /// Gives the end the polarity `polarity`, keeping the variable.
    pub fn set_polarity(&mut self, polarity: Polarity)
        ensures
            final(self).polarity_of() == polarity,
            final(self).polarity_bits() == polarity_code(polarity),
            final(self).var_bits() == old(self).var_bits(),
            final(self).0 >> 24u8 == old(self).0 >> 24u8,
    {
        let field = Self::polarity_field();
        let v = polarity.code() as u32;
        proof {
            lemma_var_bits(self.0, v);
        }
        self.0 = field.set(field.clear(self.0), v);
    }

    /// The variable of this end.
    pub fn get_fvar_ptr(&self) -> (r: VarPtr)
        ensures
            r.0 == self.var_bits(),
            r.index_of() == self.index_of(),
            self.index_of() < VAR_INDEX_LIMIT ==> r.wf(),
    {
        let r = VarPtr(Self::var_field().get(self.0));
        proof {
            lemma_var_bits(r.0, 0);
            lemma_and_le_u32(self.0 >> 0u8, 0x7fffff);
            let x = r.0;
            assert(x <= 0x7fffff ==> x >> 23u8 == 0) by (bit_vector);
        }
        r
    }

    /// The variable and the polarity together.
    pub fn get_ptr(&self) -> (r: u32)
        ensures
            r == self.ptr_bits(),
    {
        Self::ptr_field().get(self.0)
    }

    /// The term of this end.
    pub fn into_term(self) -> (r: crate::term::TermPtr)
        requires
            self.ptr_bits() < 0xffffff,
        ensures
            r.is_pvar(self),
            r.ptr_bits() < 0x1ffffff,
            r.polarity_of() == self.polarity_of(),
    {
        let t = crate::term::TermPtr::new_pvar(self);
        proof {
            let w = t.0;
            assert(((w >> 0u8) & 0xffffff) < 0xffffff && (w >> 25u8) == 0 ==> (w >> 0u8) & 0x1ffffff < 0x1ffffff) by (bit_vector);
            let b = self.0;
            assert((w >> 0u8) & 0xffffff == (b >> 0u8) & 0xffffff ==> (w >> 23u8) & 1 == (b >> 23u8) & 1) by (bit_vector);
        }
        t
    }

    /// The end whose word is `value`.
    pub fn from_u32(value: u32) -> (r: PVarPtr)
        ensures
            r.0 == value,
    {
        PVarPtr(value)
    }
}

/// A fixed buffer of up to ten fresh variables, one per bound variable of
/// a rule.
pub struct PVarPtrBuffer {
    buffer: Vec<VarPtr>,
    len: u8,
}

impl PVarPtrBuffer {
    /// The number of slots a buffer has.
    pub const MAX_BUFFER_LEN: usize = 10;

    /// The variables in the buffer, slot by slot.
    pub closed spec fn view(&self) -> Seq<VarPtr> {
        self.buffer@
    }

    /// The number of slots in use.
    pub closed spec fn len_spec(&self) -> nat {
        self.len as nat
    }

    pub closed spec fn wf(&self) -> bool {
        &&& self.buffer@.len() == Self::MAX_BUFFER_LEN
        &&& self.len < Self::MAX_BUFFER_LEN
    }

    /// A buffer with `len` slots in use, each holding variable 0.
    pub fn new(len: u8) -> (r: Self)
        requires
            (len as usize) < Self::MAX_BUFFER_LEN,
        ensures
            r.wf(),
            r.len_spec() == len,
            r.view().len() == Self::MAX_BUFFER_LEN,
            forall|i: int| 0 <= i < r.view().len() ==> r.view()[i] == VarPtr(0),
    {
        let mut buffer: Vec<VarPtr> = Vec::new();
        let mut i: usize = 0;
        while i < Self::MAX_BUFFER_LEN
            invariant
                i <= Self::MAX_BUFFER_LEN,
                buffer@.len() == i,
                forall|k: int| 0 <= k < i ==> buffer@[k] == VarPtr(0),
            decreases Self::MAX_BUFFER_LEN - i,
        {
            buffer.push(VarPtr(0));
            i = i + 1;
        }
        Self { len, buffer }
    }

    /// The number of slots in use.
    pub fn len(&self) -> (r: u8)
        ensures
            r == self.len_spec(),
    {
        self.len
    }

    /// Puts `var_ptr` in slot `index`, which must be in use.
    pub fn set(&mut self, index: u8, var_ptr: VarPtr)
        requires
            old(self).wf(),
            index < old(self).len_spec(),
        ensures
            final(self).wf(),
            final(self).len_spec() == old(self).len_spec(),
            final(self).view() == old(self).view().update(index as int, var_ptr),
    {
        self.buffer.set(index as usize, var_ptr);
    }

    /// The negative end of the variable in slot `index`, which must be in use.
    pub fn get_neg_var(&self, index: u8) -> (r: PVarPtr)
        requires
            self.wf(),
            index < self.len_spec(),
            self.view()[index as int].wf(),
        ensures
            r.made(self.view()[index as int].index_of(), Polarity::Neg),
            r.ptr_bits() < 0xffffff,
    {
        PVarPtr::new(self.buffer[index as usize], Polarity::Neg)
    }

    /// The positive end of the variable in slot `index`, which must be in use.
    pub fn get_pos_var(&self, index: u8) -> (r: PVarPtr)
        requires
            self.wf(),
            index < self.len_spec(),
            self.view()[index as int].wf(),
        ensures
            r.made(self.view()[index as int].index_of(), Polarity::Pos),
            r.ptr_bits() < 0xffffff,
    {
        PVarPtr::new(self.buffer[index as usize], Polarity::Pos)
    }
}

/// A variable: its index (bits 0 to 22).
#[derive(Clone, Copy, PartialEq, Eq, Structural, Debug)]
pub struct VarPtr(pub u32);

impl VarPtr {
    pub open spec fn index_bits(self) -> u32 {
        (self.0 >> 0u8) & 0x7fffff
    }

    pub open spec fn ptr_bits(self) -> u32 {
        (self.0 >> 0u8) & 0x7fffff
    }

    /// The index of the variable.
    pub open spec fn index_of(self) -> nat {
        self.index_bits() as nat
    }

    /// Only the index is set, and it fits.
    pub open spec fn wf(self) -> bool {
        &&& self.0 >> 23u8 == 0
        &&& self.index_of() < VAR_INDEX_LIMIT
    }

    fn index_field() -> (r: BitSet32<23>)
        ensures
            r.spec_mask() == 0x7fffff,
            r.spec_offset() == 0,
    {
        BitSet32::new(0x7fffff, 0)
    }

    /// The variable at `index`.
    pub fn new(index: usize) -> (r: Self)
        requires
            index < VAR_INDEX_LIMIT,
        ensures
            r.index_of() == index,
            r.wf(),
    {
        let mut var = Self(0);
        proof {
            lemma_var_bits(0, 0);
        }
        var.set_index(index);
        var
    }

    /// The index of the variable.
    pub fn get_ptr(&self) -> (r: u32)
        ensures
            r == self.ptr_bits(),
    {
        Self::index_field().get(self.0)
    }

    /// The index of the variable.
    pub fn get_index(&self) -> (r: usize)
        ensures
            r == self.index_of(),
    {
        Self::index_field().get(self.0) as usize
    }

    /// Gives the variable the index `index`, keeping the other bits.
    pub fn set_index(&mut self, index: usize)
        requires
            index < VAR_INDEX_LIMIT,
        ensures
            final(self).index_of() == index,
            final(self).0 >> 23u8 == old(self).0 >> 23u8,
    {
        let field = Self::index_field();
        let v = index as u32;
        proof {
            lemma_var_bits(self.0, v);
        }
        self.0 = field.set(field.clear(self.0), v);
    }

    /// The variable whose word is `raw`.
    pub fn from_u32(raw: u32) -> (r: Self)
        ensures
            r.0 == raw,
    {
        Self(raw)
    }
}

/// The debug text of a variable pointer: its word in binary and its
/// index.
pub open spec fn var_ptr_debug_text(v: VarPtr) -> Seq<char> {
    "VarPtr("@ + text::binary(v.0 as nat) + ") { index: "@ + text::decimal(v.index_of()) + " }"@
}

impl VarPtr {
    /// `VarPtr(` and the word in binary, `) { index: `, the index and ` }`.
    pub fn debug_string(&self) -> (r: String)
        ensures
            r@ == var_ptr_debug_text(*self),
    {
        proof {
            reveal_strlit("VarPtr(");
            reveal_strlit(") { index: ");
            reveal_strlit(" }");
        }
        let mut s = text::lit("VarPtr(");
        text::push_binary(&mut s, self.0 as u64);
        s.append(") { index: ");
        text::push_decimal(&mut s, self.get_index() as u64);
        s.append(" }");
        assert(s@ =~= var_ptr_debug_text(*self));
        s
    }

    /// The word in binary.
    pub fn binary_string(&self) -> (r: String)
        ensures
            r@ == text::binary(self.0 as nat),
    {
        let mut s = String::new();
        text::push_binary(&mut s, self.0 as u64);
        assert(s@ =~= text::binary(self.0 as nat));
        s
    }
}

impl ArenaPtr for VarPtr {
    open spec fn index_spec(&self) -> nat {
        self.index_of()
    }

    fn get_index(&self) -> (r: usize) {
        VarPtr::get_index(self)
    }
}

/// A variable of a net or a rule: bound variables are internal wires, free
/// variables are the interface.
pub enum Var<T: TermFamily> {
    Bound(T::BoundStore),
    Free(T::FreeStore),
}

impl<T: TermFamily> Var<T> {
    /// A bound variable with store `store`.
    pub fn bvar(store: T::BoundStore) -> (r: Self)
        ensures
            r == Var::<T>::Bound(store),
    {
        Self::Bound(store)
    }

    /// A free variable with store `store`.
    pub fn fvar(store: T::FreeStore) -> (r: Self)
        ensures
            r == Var::<T>::Free(store),
    {
        Self::Free(store)
    }

    /// Whether the variable is bound.
    pub fn is_bound(&self) -> (r: bool)
        ensures
            r == (*self is Bound),
    {
        match self {
            Var::Bound(_) => true,
            _ => false,
        }
    }

    /// Whether the variable is free.
    pub fn is_free(&self) -> (r: bool)
        ensures
            r == (*self is Free),
    {
        match self {
            Var::Free(_) => true,
            _ => false,
        }
    }

    /// The pointer to this variable at `index`.
    pub fn to_ptr(&self, index: usize) -> (r: VarPtr)
        requires
            index < VAR_INDEX_LIMIT,
        ensures
            r.index_of() == index,
            r.wf(),
    {
        VarPtr::new(index)
    }
}

impl<T: TermFamily> ArenaValue<VarPtr> for Var<T> {
    open spec fn ptr_limit() -> nat {
        VAR_INDEX_LIMIT as nat
    }

    open spec fn ptr_ready(&self) -> bool {
        true
    }

    fn to_ptr(&self, index: usize) -> (r: VarPtr) {
        VarPtr::new(index)
    }
}

/// The arena of the variables of a heap.
pub type Vars<T> = Arena<Var<T>, VarPtr>;

} // verus!
