//! Terms: a port holds either a cell or a variable end, packed into a word.
use vstd::prelude::*;
use vstd::string::StringExecFns;

use crate::bitset::{lemma_and_le_u32, BitSet32};
use crate::cell::{cell_ptr_debug_text, CellPtr};
use crate::text;
use crate::heap::Heap;
use crate::symbol::SymbolBook;
use crate::var::{var_ptr_debug_text, PVarPtr, Var, VarPtr};
use crate::{polarity_of_code, Polarity};

verus! {

/// The families of terms: nets hold variables that carry values, rules
/// hold variables that name ports and fresh wires.
pub trait TermFamily: Sized {
    /// What a bound variable holds.
    type BoundStore;

    /// What a free variable holds.
    type FreeStore;

    /// The store of a fresh bound variable.
    spec fn bound_default() -> Self::BoundStore;

    /// The store of a fresh free variable.
    spec fn free_default() -> Self::FreeStore;

    /// The store of a fresh bound variable.
    fn default_bound() -> (r: Self::BoundStore)
        ensures
            r == Self::bound_default(),
    ;

    /// The store of a fresh free variable.
    fn default_free() -> (r: Self::FreeStore)
        ensures
            r == Self::free_default(),
    ;

    /// How a variable of this family at `index` is shown.
    spec fn store_text(var: Var<Self>, index: nat) -> Seq<char>;

    /// Shows the variable `var` at `index`.
    fn display_store(
        symbols: &SymbolBook,
        heap: &Heap<Self>,
        var: &Var<Self>,
        index: usize,
    ) -> (r: String)
        ensures
            r@ == Self::store_text(*var, index as nat),
    ;
}

/// What a term points to.
#[derive(Debug, PartialEq, Eq, Structural, Clone, Copy)]
pub enum TermKind {
    Cell,
    Var,
}

/// The numeric code of a term kind.
pub open spec fn term_kind_code(k: TermKind) -> int {
    match k {
        TermKind::Cell => 0,
        TermKind::Var => 1,
    }
}

impl TermKind {
    /// The kind with code `value`; only 0 and 1 are codes.
    pub fn from_u64(value: u64) -> (r: TermKind)
        requires
            value <= 1,
        ensures
            term_kind_code(r) == value,
    {
        if value == 0 {
            TermKind::Cell
        } else {
            TermKind::Var
        }
    }

    /// The kind with code `value`; only 0 and 1 are codes.
    pub fn from_u32(value: u32) -> (r: TermKind)
        requires
            value <= 1,
        ensures
            term_kind_code(r) == value,
    {
        if value == 0 {
            TermKind::Cell
        } else {
            TermKind::Var
        }
    }

    /// The numeric code of the kind.
    pub fn code(&self) -> (r: u32)
        ensures
            r == term_kind_code(*self),
    {
        match self {
            TermKind::Cell => 0,
            TermKind::Var => 1,
        }
    }
}

/// A term: the 24-bit word of a cell or of a polarized variable end
/// (bits 0 to 23) and its kind (bit 24, 1 for a variable).
#[derive(Clone, Copy, PartialEq, Eq, Structural, Debug)]
pub struct TermPtr(pub u32);

/// Facts about the fields of a term.
pub proof fn lemma_term_bits(raw: u32, v: u32)
    by (bit_vector)
    ensures
        (0xffffffu32 << 0u8) == 0xffffffu32,
        (1u32 << 24u8) == 0x1000000u32,
        ({
            let r = (raw & !(0xffffffu32 << 0u8)) | ((v & 0xffffffu32) << 0u8);
            &&& (r >> 0u8) & 0xffffff == v & 0xffffff
            &&& (r >> 24u8) & 1 == (raw >> 24u8) & 1
            &&& r >> 25u8 == raw >> 25u8
        }),
        ({
            let r = (raw & !(1u32 << 24u8)) | ((v & 1u32) << 24u8);
            &&& (r >> 0u8) & 0xffffff == (raw >> 0u8) & 0xffffff
            &&& (r >> 24u8) & 1 == v & 1
            &&& r >> 25u8 == raw >> 25u8
        }),
        (raw >> 0u8) & 0x1ffffff == ((raw >> 0u8) & 0xffffff) | (((raw >> 24u8) & 1) << 24u8),
        v <= 1 ==> v & 1 == v,
        v <= 0xffffff ==> v & 0xffffff == v,
        ((raw >> 0u8) & 0xffffff) >> 23u8 == (raw >> 23u8) & 1,
        (0u32 >> 25u8) == 0,
        raw >> 25u8 == 0 ==> raw == (raw >> 0u8) & 0x1ffffff,
{
}

/// A word whose target field is not all ones is not all ones in its
/// target and kind fields together.
pub proof fn lemma_port_word_fits(w: u32)
    requires
        (w >> 0u8) & 0xffffff < 0xffffff,
    ensures
        (w >> 0u8) & 0x1ffffff < 0x1ffffff,
{
    assert((w >> 0u8) & 0xffffff < 0xffffff ==> (w >> 0u8) & 0x1ffffff < 0x1ffffff) by (bit_vector);
}

impl TermPtr {
    pub open spec fn term_bits(self) -> u32 {
        (self.0 >> 0u8) & 0xffffff
    }

    pub open spec fn kind_bits(self) -> u32 {
        (self.0 >> 24u8) & 1
    }

    pub open spec fn ptr_bits(self) -> u32 {
        (self.0 >> 0u8) & 0x1ffffff
    }

    /// What the term points to.
    pub open spec fn kind_of(self) -> TermKind {
        if self.kind_bits() == 0 {
            TermKind::Cell
        } else {
            TermKind::Var
        }
    }

    /// The polarity bit of the cell or variable end that the term points to.
    pub open spec fn polarity_of(self) -> Polarity {
        polarity_of_code(((self.0 >> 23u8) & 1) as int)
    }

    /// The term points to the cell `c`.
    pub open spec fn is_cell(self, c: CellPtr) -> bool {
        &&& self.kind_of() == TermKind::Cell
        &&& self.term_bits() == c.ptr_bits()
        &&& self.0 >> 25u8 == 0
    }

    /// The term points to the variable end `v`.
    pub open spec fn is_pvar(self, v: PVarPtr) -> bool {
        &&& self.kind_of() == TermKind::Var
        &&& self.term_bits() == v.ptr_bits()
        &&& self.0 >> 25u8 == 0
    }

    fn term_field() -> (r: BitSet32<24>)
        ensures
            r.spec_mask() == 0xffffff,
            r.spec_offset() == 0,
    {
        BitSet32::new(0xffffff, 0)
    }

    fn kind_field() -> (r: BitSet32<1>)
        ensures
            r.spec_mask() == 1,
            r.spec_offset() == 24,
    {
        BitSet32::new(1, 24)
    }

    fn ptr_field() -> (r: BitSet32<25>)
        ensures
            r.spec_mask() == 0x1ffffff,
            r.spec_offset() == 0,
    {
        BitSet32::new(0x1ffffff, 0)
    }

    /// The term of the unpolarized variable `var_ptr`.
    pub fn new_var(var_ptr: VarPtr) -> (r: Self)
        requires
            var_ptr.ptr_bits() < 0xffffff,
        ensures
            r.kind_of() == TermKind::Var,
            r.term_bits() == var_ptr.ptr_bits(),
            r.0 >> 25u8 == 0,
    {
        let mut this = Self(0);
        proof {
            lemma_term_bits(0, 0);
        }
        this.set_kind(TermKind::Var);
        this.set_term(var_ptr.get_ptr());
        this
    }

    /// The term of the variable end `pvar_ptr`.
    pub fn new_pvar(pvar_ptr: PVarPtr) -> (r: Self)
        requires
            pvar_ptr.ptr_bits() < 0xffffff,
        ensures
            r.is_pvar(pvar_ptr),
            r.ptr_bits() < 0x1ffffff,
            pvar_ptr.0 >> 24u8 == 0 ==> PVarPtr(r.term_bits()) == pvar_ptr,
    {
        let mut this = Self(0);
        proof {
            lemma_term_bits(0, 0);
        }
        this.set_kind(TermKind::Var);
        this.set_term(pvar_ptr.get_ptr());
        proof {
            lemma_port_word_fits(this.0);
            crate::rule::lemma_pointer_word(pvar_ptr.0);
        }
        this
    }

    /// The term of the cell `cell_ptr`.
    pub fn new_cell(cell_ptr: CellPtr) -> (r: Self)
        requires
            cell_ptr.ptr_bits() < 0xffffff,
        ensures
            r.is_cell(cell_ptr),
            r.ptr_bits() < 0x1ffffff,
            cell_ptr.0 >> 24u8 == 0 ==> CellPtr(r.term_bits()) == cell_ptr,
    {
        let mut this = Self(0);
        proof {
            lemma_term_bits(0, 0);
        }
        this.set_kind(TermKind::Cell);
        this.set_term(cell_ptr.get_ptr());
        proof {
            lemma_port_word_fits(this.0);
            crate::rule::lemma_pointer_word(cell_ptr.0);
        }
        this
    }

    /// Gives the term the kind `kind`, keeping the other bits.
    pub fn set_kind(&mut self, kind: TermKind)
        ensures
            final(self).kind_of() == kind,
            final(self).term_bits() == old(self).term_bits(),
            final(self).0 >> 25u8 == old(self).0 >> 25u8,
    {
        let field = Self::kind_field();
        let v = kind.code();
        proof {
            lemma_term_bits(self.0, v);
        }
        self.0 = field.set(field.clear(self.0), v);
    }

    /// What the term points to.
    pub fn get_kind(&self) -> (r: TermKind)
        ensures
            r == self.kind_of(),
    {
        proof {
            lemma_and_le_u32(self.0 >> 24u8, 1);
        }
        TermKind::from_u32(Self::kind_field().get(self.0))
    }

    /// The unpolarized variable that the term points to.
    pub fn get_var_ptr(&self) -> (r: VarPtr)
        requires
            self.kind_of() == TermKind::Var,
        ensures
            r.0 == self.term_bits(),
    {
        VarPtr::from_u32(self.get_term())
    }

    /// The variable end that the term points to.
    pub fn get_pvar_ptr(&self) -> (r: PVarPtr)
        requires
            self.kind_of() == TermKind::Var,
        ensures
            r.0 == self.term_bits(),
    {
        PVarPtr::from_u32(self.get_term())
    }

    /// The cell that the term points to.
    pub fn get_cell_ptr(&self) -> (r: CellPtr)
        requires
            self.kind_of() == TermKind::Cell,
        ensures
            r.0 == self.term_bits(),
    {
        CellPtr::from_u32(self.get_term())
    }

    /// The polarity bit of the cell or variable end that the term points to.
    pub fn get_polarity(&self) -> (r: Polarity)
        ensures
            r == self.polarity_of(),
    {
        proof {
            lemma_and_le_u32(self.0 >> 23u8, 1);
        }
        Polarity::from_u32((self.0 >> 23u8) & 1)
    }

    /// The word of the cell or variable end.
    pub fn get_term(&self) -> (r: u32)
        ensures
            r == self.term_bits(),
            r <= 0xffffff,
    {
        proof {
            lemma_and_le_u32(self.0 >> 0u8, 0xffffff);
        }
        Self::term_field().get(self.0)
    }

    /// Gives the term the word `word`, keeping the kind.
    pub fn set_term(&mut self, word: u32)
        requires
            word < 0xffffff,
        ensures
            final(self).term_bits() == word,
            final(self).kind_bits() == old(self).kind_bits(),
            final(self).0 >> 25u8 == old(self).0 >> 25u8,
    {
        let field = Self::term_field();
        proof {
            lemma_term_bits(self.0, word);
        }
        self.0 = field.set(field.clear(self.0), word);
    }

    /// The kind and the word together.
    pub fn get_ptr(&self) -> (r: u32)
        ensures
            r == self.ptr_bits(),
    {
        Self::ptr_field().get(self.0)
    }

    /// The term whose word is `value`, which cannot pass bit 25.
    pub fn from_u32(value: u32) -> (r: TermPtr)
        requires
            value <= 0x2000000,
        ensures
            r.0 == value,
    {
        Self(value)
    }

    /// The term whose word is `value`, which cannot pass bit 25.
    pub fn from_u64(value: u64) -> (r: TermPtr)
        requires
            value <= 0x2000000,
        ensures
            r.0 == value as u32,
    {
        Self(value as u32)
    }

    /// The unused bits (7), the kind (1) and the word (24) in binary.
    pub fn binary_string(&self) -> (r: String)
        ensures
            r@ == text::binary_padded(((self.0 >> 25u8) & 0xfe) as nat, 7) + seq!['_']
                + text::binary_padded(self.kind_bits() as nat, 1) + seq!['_']
                + text::binary_padded(self.term_bits() as nat, 24),
    {
        proof {
            reveal_strlit("_");
            lemma_and_le_u32(self.0 >> 24u8, 1);
        }
        let mut s = String::new();
        text::push_binary_padded(&mut s, ((self.0 >> 25u8) & 0xfe) as u64, 7);
        s.append("_");
        text::push_binary_padded(&mut s, self.get_kind().code() as u64, 1);
        s.append("_");
        text::push_binary_padded(&mut s, self.get_term() as u64, 24);
        assert(s@ =~= text::binary_padded(((self.0 >> 25u8) & 0xfe) as nat, 7) + seq!['_']
                + text::binary_padded(self.kind_bits() as nat, 1) + seq!['_']
                + text::binary_padded(self.term_bits() as nat, 24));
        s
    }
}


/// The debug text of a term: its word in 32 binary digits, its kind and
/// the debug text of the cell or variable it points to.
pub open spec fn term_ptr_debug_text(t: TermPtr) -> Seq<char> {
    "TermPtr("@ + text::binary_padded(t.0 as nat, 32) + match t.kind_of() {
        TermKind::Cell => ") { kind: Cell, cell: "@ + cell_ptr_debug_text(CellPtr(t.term_bits())),
        TermKind::Var => ") { kind: Var, var: "@ + var_ptr_debug_text(VarPtr(t.term_bits())),
    } + " }"@
}

impl TermPtr {
    /// `TermPtr(` and the word in 32 binary digits, `) { kind: `, the kind,
    /// the cell or the variable pointed to, and ` }`.
    pub fn debug_string(&self) -> (r: String)
        ensures
            r@ == term_ptr_debug_text(*self),
    {
        proof {
            reveal_strlit("TermPtr(");
            reveal_strlit(") { kind: Cell, cell: ");
            reveal_strlit(") { kind: Var, var: ");
            reveal_strlit(" }");
        }
        let mut s = text::lit("TermPtr(");
        text::push_binary_padded(&mut s, self.0 as u64, 32);
        let ghost before = s@;
        match self.get_kind() {
            TermKind::Cell => {
                s.append(") { kind: Cell, cell: ");
                let c = self.get_cell_ptr().debug_string();
                s.append(c.as_str());
            },
            TermKind::Var => {
                s.append(") { kind: Var, var: ");
                let v = self.get_var_ptr().debug_string();
                s.append(v.as_str());
            },
        }
        s.append(" }");
        assert(s@ =~= term_ptr_debug_text(*self));
        s
    }
}

} // verus!
