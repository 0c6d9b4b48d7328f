//! Cells: an occurrence of a symbol with its ports, packed into a word, and
//! the pointers that reach them.
use vstd::prelude::*;
use vstd::string::StringExecFns;
use std::marker::PhantomData;

use crate::arena::{ArenaPtr, ArenaValue};
use crate::arenaraw::RawArena;
use crate::bitset::{lemma_and_le_u32, lemma_and_le_u64, BitSet32, BitSet64};
use crate::rule::{port_valid, PortNum};
use crate::symbol::{arity_code, symbol_ptr_debug_text, SymbolArity, SymbolPtr};
use crate::term::{term_ptr_debug_text, TermFamily, TermPtr};
use crate::text;
use crate::{polarity_code, polarity_of_code, Polarity};

verus! {

/// The largest cell index that a pointer can be given.
pub const CELL_INDEX_LIMIT: usize = 0x7fffff;

/// A reference to a cell: its index (bits 0 to 22) and the polarity of its
/// symbol (bit 23).
#[derive(PartialEq, Eq, Structural, Clone, Copy, Debug)]
pub struct CellPtr(pub u32);

/// Facts about the fields of a cell pointer.
pub proof fn lemma_cell_ptr_bits(raw: u32, v: u32)
    by (bit_vector)
    ensures
        (0x7fffffu32 << 0u8) == 0x7fffffu32,
        (1u32 << 23u8) == 0x800000u32,
        ({
            let r = (raw & !(0x7fffffu32 << 0u8)) | ((v & 0x7fffffu32) << 0u8);
            &&& (r >> 0u8) & 0x7fffff == v & 0x7fffff
            &&& (r >> 23u8) & 1 == (raw >> 23u8) & 1
            &&& r >> 24u8 == raw >> 24u8
        }),
        ({
            let r = (raw & !(1u32 << 23u8)) | ((v & 1u32) << 23u8);
            &&& (r >> 0u8) & 0x7fffff == (raw >> 0u8) & 0x7fffff
            &&& (r >> 23u8) & 1 == v & 1
            &&& r >> 24u8 == raw >> 24u8
        }),
        v <= 1 ==> v & 1 == v,
        v < 0x7fffff ==> v & 0x7fffff == v,
        (0u32 >> 24u8) == 0,
        raw >> 24u8 == 0 ==> (raw >> 0u8) & 0xffffff == raw,
        raw >> 24u8 == 0 && (raw >> 0u8) & 0x7fffff < 0x7fffff ==> (raw >> 0u8) & 0xffffff
            < 0xffffff,
        ((raw >> 0u8) & 0xffffff) >> 24u8 == 0,
        (((raw >> 0u8) & 0xffffff) >> 0u8) & 0x7fffff == (raw >> 0u8) & 0x7fffff,
        (((raw >> 0u8) & 0xffffff) >> 23u8) & 1 == (raw >> 23u8) & 1,
{
}

impl CellPtr {
    pub open spec fn index_bits(self) -> u32 {
        (self.0 >> 0u8) & 0x7fffff
    }

    pub open spec fn polarity_bits(self) -> u32 {
        (self.0 >> 23u8) & 1
    }

    pub open spec fn ptr_bits(self) -> u32 {
        (self.0 >> 0u8) & 0xffffff
    }

    /// The index of the cell.
    pub open spec fn index_of(self) -> nat {
        self.index_bits() as nat
    }

    /// The polarity of the cell's symbol.
    pub open spec fn polarity_of(self) -> Polarity {
        polarity_of_code(self.polarity_bits() as int)
    }

    /// Only the index and the polarity are set, and the index fits.
    pub open spec fn wf(self) -> bool {
        &&& self.0 >> 24u8 == 0
        &&& self.index_of() < CELL_INDEX_LIMIT
    }

    fn index_field() -> (r: BitSet32<23>)
        ensures
            r.spec_mask() == 0x7fffff,
            r.spec_offset() == 0,
    {
        BitSet32::new(0x7fffff, 0)
    }

    fn polarity_field() -> (r: BitSet32<1>)
        ensures
            r.spec_mask() == 1,
            r.spec_offset() == 23,
    {
        BitSet32::new(1, 23)
    }

    fn ptr_field() -> (r: BitSet32<24>)
        ensures
            r.spec_mask() == 0xffffff,
            r.spec_offset() == 0,
    {
        BitSet32::new(0xffffff, 0)
    }

    /// The pointer to the cell at `index` whose symbol has polarity `polarity`.
    pub fn new(index: usize, polarity: Polarity) -> (r: Self)
        requires
            index < CELL_INDEX_LIMIT,
        ensures
            r.index_of() == index,
            r.polarity_of() == polarity,
            r.wf(),
            r.ptr_bits() < 0xffffff,
    {
        let mut new = Self(0);
        proof {
            lemma_cell_ptr_bits(0, 0);
        }
        new.set_polarity(polarity);
        new.set_index(index);
        proof {
            lemma_cell_ptr_bits(new.0, 0);
        }
        new
    }

    /// The index and the polarity together.
    pub fn get_ptr(&self) -> (r: u32)
        ensures
            r == self.ptr_bits(),
    {
        Self::ptr_field().get(self.0)
    }

    /// The polarity of the cell's symbol.
    pub fn get_polarity(&self) -> (r: Polarity)
        ensures
            r == self.polarity_of(),
    {
        proof {
            lemma_and_le_u32(self.0 >> 23u8, 1);
        }
        Polarity::from_u32(Self::polarity_field().get(self.0))
    }

    /// Gives the pointer the polarity `polarity`, keeping the index.
    pub fn set_polarity(&mut self, polarity: Polarity)
        ensures
            final(self).polarity_of() == polarity,
            final(self).polarity_bits() == polarity_code(polarity),
            final(self).index_bits() == old(self).index_bits(),
            final(self).0 >> 24u8 == old(self).0 >> 24u8,
    {
        let field = Self::polarity_field();
        let v = polarity.code() as u32;
        proof {
            lemma_cell_ptr_bits(self.0, v);
        }
        self.0 = field.set(field.clear(self.0), v);
    }

    /// The index of the cell.
    pub fn get_index(&self) -> (r: usize)
        ensures
            r == self.index_of(),
    {
        Self::index_field().get(self.0) as usize
    }

    /// Gives the pointer the index `index`, keeping the polarity.
    pub fn set_index(&mut self, index: usize)
        requires
            index < CELL_INDEX_LIMIT,
        ensures
            final(self).index_of() == index,
            final(self).polarity_bits() == old(self).polarity_bits(),
            final(self).0 >> 24u8 == old(self).0 >> 24u8,
    {
        let field = Self::index_field();
        let v = index as u32;
        proof {
            lemma_cell_ptr_bits(self.0, v);
        }
        self.0 = field.set(field.clear(self.0), v);
    }

    /// The pointer whose word is `raw`.
    pub fn from_u32(raw: u32) -> (r: Self)
        ensures
            r.0 == raw,
    {
        Self(raw)
    }

    /// The pointer to the cell that `value` points to.
    pub fn from_term(value: TermPtr) -> (r: Self)
        ensures
            r.0 == value.term_bits(),
    {
        CellPtr(value.get_term())
    }

    /// The term of this cell.
    pub fn into_term(self) -> (r: TermPtr)
        requires
            self.ptr_bits() < 0xffffff,
        ensures
            r.is_cell(self),
            r.ptr_bits() < 0x1ffffff,
            r.polarity_of() == self.polarity_of(),
    {
        let t = TermPtr::new_cell(self);
        proof {
            let w = t.0;
            assert(((w >> 0u8) & 0xffffff) < 0xffffff && (w >> 25u8) == 0 ==> (w >> 0u8) & 0x1ffffff < 0x1ffffff) by (bit_vector);
            let b = self.0;
            assert((w >> 0u8) & 0xffffff == (b >> 0u8) & 0xffffff ==> (w >> 23u8) & 1 == (b >> 23u8) & 1) by (bit_vector);
        }
        t
    }

    /// The unused bits (9 digits), the polarity (1) and the index (23) in
    /// binary, separated by underscores.
    pub fn binary_string(&self) -> (r: String)
        ensures
            r@ == text::binary_padded(((self.0 >> 24u8) & 0xff) as nat, 9) + seq!['_']
                + text::binary_padded(self.polarity_bits() as nat, 1) + seq!['_']
                + text::binary_padded(self.index_of(), 23),
    {
        proof {
            reveal_strlit("_");
            lemma_and_le_u32(self.0 >> 23u8, 1);
        }
        let mut s = String::new();
        text::push_binary_padded(&mut s, ((self.0 >> 24u8) & 0xff) as u64, 9);
        s.append("_");
        text::push_binary_padded(&mut s, self.get_polarity().code() as u64, 1);
        s.append("_");
        text::push_binary_padded(&mut s, self.get_index() as u64, 23);
        assert(s@ =~= text::binary_padded(((self.0 >> 24u8) & 0xff) as nat, 9) + seq!['_']
                + text::binary_padded(self.polarity_bits() as nat, 1) + seq!['_']
                + text::binary_padded(self.index_of(), 23));
        s
    }
}

/// The debug text of a cell pointer: its word in 32 binary digits, its
/// polarity and its index.
pub open spec fn cell_ptr_debug_text(c: CellPtr) -> Seq<char> {
    "CellPtr("@ + text::binary_padded(c.0 as nat, 32) + ") { polarity: "@ + text::polarity_name(
        c.polarity_of(),
    ) + ", index: "@ + text::decimal(c.index_of()) + " }"@
}

impl CellPtr {
    /// `CellPtr(` and the word in 32 binary digits, `) { polarity: `, the
    /// polarity, `, index: `, the index and ` }`.
    pub fn debug_string(&self) -> (r: String)
        ensures
            r@ == cell_ptr_debug_text(*self),
    {
        proof {
            reveal_strlit("CellPtr(");
            reveal_strlit(") { polarity: ");
            reveal_strlit(", index: ");
            reveal_strlit(" }");
        }
        let mut s = text::lit("CellPtr(");
        text::push_binary_padded(&mut s, self.0 as u64, 32);
        s.append(") { polarity: ");
        s.append(text::polarity_name_str(self.get_polarity()));
        s.append(", index: ");
        text::push_decimal(&mut s, self.get_index() as u64);
        s.append(" }");
        assert(s@ =~= cell_ptr_debug_text(*self));
        s
    }
}

impl ArenaPtr for CellPtr {
    open spec fn index_spec(&self) -> nat {
        self.index_of()
    }

    fn get_index(&self) -> (r: usize) {
        CellPtr::get_index(self)
    }
}

/// A cell: its symbol pointer (bits 50 to 63), its left (or only) port
/// (bits 25 to 49) and its right port (bits 0 to 24).
pub struct Cell<T: TermFamily>(pub u64, pub PhantomData<T>);

impl<T: TermFamily> Clone for Cell<T> {
    fn clone(&self) -> (r: Self)
        ensures
            r == *self,
    {
        *self
    }
}

impl<T: TermFamily> Copy for Cell<T> {

}

/// Facts about the fields of a cell.
pub proof fn lemma_cell_bits(raw: u64, v: u64)
    by (bit_vector)
    ensures
        (0x3fffu64 << 50u8) == 0xfffc000000000000u64,
        (0x1ffffffu64 << 25u8) == 0x3fffffe000000u64,
        (0x1ffffffu64 << 0u8) == 0x1ffffffu64,
        ({
            let r = (raw & !(0x3fffu64 << 50u8)) | ((v & 0x3fffu64) << 50u8);
            &&& (r >> 50u8) & 0x3fff == v & 0x3fff
            &&& (r >> 25u8) & 0x1ffffff == (raw >> 25u8) & 0x1ffffff
            &&& (r >> 0u8) & 0x1ffffff == (raw >> 0u8) & 0x1ffffff
        }),
        ({
            let r = (raw & !(0x1ffffffu64 << 25u8)) | ((v & 0x1ffffffu64) << 25u8);
            &&& (r >> 50u8) & 0x3fff == (raw >> 50u8) & 0x3fff
            &&& (r >> 25u8) & 0x1ffffff == v & 0x1ffffff
            &&& (r >> 0u8) & 0x1ffffff == (raw >> 0u8) & 0x1ffffff
        }),
        ({
            let r = (raw & !(0x1ffffffu64 << 0u8)) | ((v & 0x1ffffffu64) << 0u8);
            &&& (r >> 50u8) & 0x3fff == (raw >> 50u8) & 0x3fff
            &&& (r >> 25u8) & 0x1ffffff == (raw >> 25u8) & 0x1ffffff
            &&& (r >> 0u8) & 0x1ffffff == v & 0x1ffffff
        }),
        v <= 0x3fff ==> v & 0x3fff == v,
        v < 0x1ffffff ==> v & 0x1ffffff == v,
        (0u64 >> 50u8) & 0x3fff == 0,
        (0u64 >> 25u8) & 0x1ffffff == 0,
        (0u64 >> 0u8) & 0x1ffffff == 0,
{
}

impl<T: TermFamily> Cell<T> {
    pub open spec fn symbol_bits(self) -> u64 {
        (self.0 >> 50u8) & 0x3fff
    }

    pub open spec fn left_bits(self) -> u64 {
        (self.0 >> 25u8) & 0x1ffffff
    }

    pub open spec fn right_bits(self) -> u64 {
        (self.0 >> 0u8) & 0x1ffffff
    }

    /// The pointer to the cell's symbol.
    pub open spec fn symbol_of(self) -> SymbolPtr {
        SymbolPtr(self.symbol_bits() as u16)
    }

    /// The term in the left (or only) port.
    pub open spec fn left_of(self) -> TermPtr {
        TermPtr(self.left_bits() as u32)
    }

    /// The term in the right port.
    pub open spec fn right_of(self) -> TermPtr {
        TermPtr(self.right_bits() as u32)
    }

    /// The term in port `port_num`.
    pub open spec fn port_of(self, port_num: PortNum) -> TermPtr {
        match port_num {
            PortNum::Zero => self.left_of(),
            PortNum::One => self.right_of(),
        }
    }

    /// The symbol pointer holds an arity.
    pub open spec fn wf(self) -> bool {
        self.symbol_of().wf()
    }

    fn right_port_field() -> (r: BitSet64<25>)
        ensures
            r.spec_mask() == 0x1ffffff,
            r.spec_offset() == 0,
    {
        BitSet64::new(0x1ffffff, 0)
    }

    fn left_port_field() -> (r: BitSet64<25>)
        ensures
            r.spec_mask() == 0x1ffffff,
            r.spec_offset() == 25,
    {
        BitSet64::new(0x1ffffff, 25)
    }

    fn symbol_field() -> (r: BitSet64<14>)
        ensures
            r.spec_mask() == 0x3fff,
            r.spec_offset() == 50,
    {
        BitSet64::new(0x3fff, 50)
    }

    /// A cell of `symbol_ptr` without ports.
    pub fn new0(symbol_ptr: SymbolPtr) -> (r: Self)
        requires
            symbol_ptr.wf(),
            symbol_ptr.0 >> 14u8 == 0,
        ensures
            r.symbol_of() == symbol_ptr,
            r.left_bits() == 0,
            r.right_bits() == 0,
            r.wf(),
    {
        let mut cell = Self(0, PhantomData);
        proof {
            lemma_cell_bits(0, 0);
        }
        cell.set_symbol_ptr(symbol_ptr);
        cell
    }

    /// A cell of `symbol_ptr` with `port` in its only port.
    pub fn new1(symbol_ptr: SymbolPtr, port: TermPtr) -> (r: Self)
        requires
            symbol_ptr.wf(),
            symbol_ptr.0 >> 14u8 == 0,
            symbol_ptr.arity_of() == SymbolArity::One || symbol_ptr.arity_of() == SymbolArity::Two,
            port.0 >> 25u8 == 0,
            port.ptr_bits() < 0x1ffffff,
        ensures
            r.symbol_of() == symbol_ptr,
            r.left_of() == port,
            r.right_bits() == 0,
            r.wf(),
    {
        let mut cell = Self(0, PhantomData);
        proof {
            lemma_cell_bits(0, 0);
        }
        cell.set_symbol_ptr(symbol_ptr);
        cell.set_port(PortNum::Zero, port);
        cell
    }

    /// A cell of `symbol_ptr` with `left_port` and `right_port`.
    pub fn new2(symbol_ptr: SymbolPtr, left_port: TermPtr, right_port: TermPtr) -> (r: Self)
        requires
            symbol_ptr.wf(),
            symbol_ptr.0 >> 14u8 == 0,
            symbol_ptr.arity_of() == SymbolArity::Two,
            left_port.0 >> 25u8 == 0,
            left_port.ptr_bits() < 0x1ffffff,
            right_port.0 >> 25u8 == 0,
            right_port.ptr_bits() < 0x1ffffff,
        ensures
            r.symbol_of() == symbol_ptr,
            r.left_of() == left_port,
            r.right_of() == right_port,
            r.wf(),
    {
        let mut cell = Self(0, PhantomData);
        proof {
            lemma_cell_bits(0, 0);
        }
        cell.set_symbol_ptr(symbol_ptr);
        cell.set_port(PortNum::Zero, left_port);
        cell.set_port(PortNum::One, right_port);
        cell
    }

    /// The pointer to the cell's symbol.
    pub fn get_symbol_ptr(&self) -> (r: SymbolPtr)
        ensures
            r == self.symbol_of(),
    {
        SymbolPtr::from_u64(Self::symbol_field().get(self.0))
    }

    /// Gives the cell the symbol `symbol_ptr`, keeping the ports.
    pub fn set_symbol_ptr(&mut self, symbol_ptr: SymbolPtr)
        requires
            symbol_ptr.0 >> 14u8 == 0,
        ensures
            final(self).symbol_of() == symbol_ptr,
            final(self).left_bits() == old(self).left_bits(),
            final(self).right_bits() == old(self).right_bits(),
    {
        let field = Self::symbol_field();
        let v = symbol_ptr.into_u64();
        proof {
            lemma_cell_bits(self.0, v);
            let w = symbol_ptr.0;
            assert(w >> 14u8 == 0 ==> (w >> 0u8) & 0x3fff == w) by (bit_vector);
            assert(v == w as u64);
            assert(w >> 14u8 == 0 ==> w <= 0x3fff) by (bit_vector);
        }
        self.0 = field.set(field.clear(self.0), v);
        proof {
            let b = self.symbol_bits();
            let w = symbol_ptr.0;
            assert(b == w as u64);
            assert(b == w as u64 ==> b as u16 == w) by (bit_vector);
            assert(self.symbol_of().0 == symbol_ptr.0);
        }
    }

    /// The term in port `port_num`, which the symbol must have.
    pub fn get_port(&self, port_num: PortNum) -> (r: TermPtr)
        requires
            self.wf(),
            port_valid(port_num, self.symbol_of().arity_of()),
        ensures
            r == self.port_of(port_num),
    {
        let bits = match port_num {
            PortNum::Zero => self.get_left_port_bits(),
            PortNum::One => self.get_right_port_bits(),
        };
        TermPtr::from_u32(bits)
    }

    /// The term in the left (or only) port, which the symbol must have.
    pub fn get_left_port(&self) -> (r: TermPtr)
        requires
            self.wf(),
            port_valid(PortNum::Zero, self.symbol_of().arity_of()),
        ensures
            r == self.left_of(),
    {
        self.get_port(PortNum::Zero)
    }

    /// The term in the right port, which the symbol must have.
    pub fn get_right_port(&self) -> (r: TermPtr)
        requires
            self.wf(),
            port_valid(PortNum::One, self.symbol_of().arity_of()),
        ensures
            r == self.right_of(),
    {
        self.get_port(PortNum::One)
    }

    /// Puts `port` in port `port_num`, which the symbol must have.
    pub fn set_port(&mut self, port_num: PortNum, port: TermPtr)
        requires
            old(self).wf(),
            port_valid(port_num, old(self).symbol_of().arity_of()),
            port.0 >> 25u8 == 0,
            port.ptr_bits() < 0x1ffffff,
        ensures
            final(self).symbol_of() == old(self).symbol_of(),
            final(self).port_of(port_num) == port,
            port_num == PortNum::Zero ==> final(self).right_bits() == old(self).right_bits(),
            port_num == PortNum::One ==> final(self).left_bits() == old(self).left_bits(),
    {
        let ptr = port.get_ptr();
        proof {
            let w = port.0;
            assert(w >> 25u8 == 0 ==> (w >> 0u8) & 0x1ffffff == w) by (bit_vector);
        }
        match port_num {
            PortNum::Zero => self.set_left_port_bits(ptr),
            PortNum::One => self.set_right_port_bits(ptr),
        }
    }

    /// The word in the left port.
    pub fn get_left_port_bits(&self) -> (r: u32)
        ensures
            r == self.left_bits(),
            r as u64 == self.left_bits(),
            r <= 0x1ffffff,
    {
        proof {
            lemma_and_le_u64(self.0 >> 25u8, 0x1ffffff);
        }
        Self::left_port_field().get(self.0) as u32
    }

    /// Puts the word `port_bits` in the left port.
    pub fn set_left_port_bits(&mut self, port_bits: u32)
        requires
            port_bits < 0x1ffffff,
        ensures
            final(self).left_bits() == port_bits,
            final(self).symbol_bits() == old(self).symbol_bits(),
            final(self).right_bits() == old(self).right_bits(),
    {
        let field = Self::left_port_field();
        proof {
            lemma_cell_bits(self.0, port_bits as u64);
        }
        self.0 = field.set(field.clear(self.0), port_bits as u64);
    }

    /// The word in the right port.
    pub fn get_right_port_bits(&self) -> (r: u32)
        ensures
            r == self.right_bits(),
            r as u64 == self.right_bits(),
            r <= 0x1ffffff,
    {
        proof {
            lemma_and_le_u64(self.0 >> 0u8, 0x1ffffff);
        }
        Self::right_port_field().get(self.0) as u32
    }

    /// Puts the word `port_bits` in the right port.
    pub fn set_right_port_bits(&mut self, port_bits: u32)
        requires
            port_bits < 0x1ffffff,
        ensures
            final(self).right_bits() == port_bits,
            final(self).symbol_bits() == old(self).symbol_bits(),
            final(self).left_bits() == old(self).left_bits(),
    {
        let field = Self::right_port_field();
        proof {
            lemma_cell_bits(self.0, port_bits as u64);
        }
        self.0 = field.set(field.clear(self.0), port_bits as u64);
    }

    /// The pointer to this cell at `index`.
    pub fn to_ptr(&self, index: usize) -> (r: CellPtr)
        requires
            index < CELL_INDEX_LIMIT,
        ensures
            r.index_of() == index,
            r.polarity_of() == self.symbol_of().polarity_of(),
            r.wf(),
            r.ptr_bits() < 0xffffff,
    {
        CellPtr::new(index, self.get_symbol_ptr().get_polarity())
    }

    /// The symbol word (14 digits) and the two ports (25 digits each) in
    /// binary, separated by underscores.
    pub fn binary_string(&self) -> (r: String)
        ensures
            r@ == text::binary_padded(self.symbol_bits() as nat, 14) + seq!['_']
                + text::binary_padded(self.left_bits() as nat, 25) + seq!['_']
                + text::binary_padded(self.right_bits() as nat, 25),
    {
        proof {
            reveal_strlit("_");
        }
        let mut s = String::new();
        let sym = self.get_symbol_ptr();
        proof {
            lemma_and_le_u64(self.0 >> 50u8, 0x3fff);
            let b = self.symbol_bits();
            assert(b <= 0x3fff ==> (b as u16) as u64 == b) by (bit_vector);
        }
        text::push_binary_padded(&mut s, sym.get_raw() as u64, 14);
        s.append("_");
        text::push_binary_padded(&mut s, self.get_left_port_bits() as u64, 25);
        s.append("_");
        text::push_binary_padded(&mut s, self.get_right_port_bits() as u64, 25);
        assert(s@ =~= text::binary_padded(self.symbol_bits() as nat, 14) + seq!['_']
                + text::binary_padded(self.left_bits() as nat, 25) + seq!['_']
                + text::binary_padded(self.right_bits() as nat, 25));
        s
    }
}

impl<T: TermFamily> ArenaValue<CellPtr> for Cell<T> {
    open spec fn ptr_limit() -> nat {
        CELL_INDEX_LIMIT as nat
    }

    open spec fn ptr_ready(&self) -> bool {
        true
    }

    fn to_ptr(&self, index: usize) -> (r: CellPtr) {
        CellPtr::new(index, self.get_symbol_ptr().get_polarity())
    }
}

/// The cells of a net or of a rule set.
/// The debug text of a cell: its arity and its word in 64 binary digits,
/// then its symbol and the terms in its ports.
pub open spec fn cell_debug_text<T: TermFamily>(c: Cell<T>) -> Seq<char> {
    "Cell"@ + text::decimal(arity_code(c.symbol_of().arity_of()) as nat) + "("@ + text::binary_padded(c.0 as nat, 64)
        + ") { symbol: "@ + symbol_ptr_debug_text(c.symbol_of()) + match c.symbol_of().arity_of() {
        SymbolArity::Zero => Seq::<char>::empty(),
        SymbolArity::One => ", port: "@ + term_ptr_debug_text(c.left_of()),
        SymbolArity::Two => ", left: "@ + term_ptr_debug_text(c.left_of()) + ", right: "@
            + term_ptr_debug_text(c.right_of()),
    } + " }"@
}

impl<T: TermFamily> Cell<T> {
    /// `Cell`, the arity, `(`, the word in 64 binary digits, `) { symbol: `,
    /// the symbol pointer, the terms in the ports and ` }`; the symbol
    /// pointer must hold an arity.
    pub fn debug_string(&self) -> (r: String)
        requires
            self.wf(),
        ensures
            r@ == cell_debug_text(*self),
    {
        proof {
            reveal_strlit("Cell");
            reveal_strlit("(");
            reveal_strlit(") { symbol: ");
            reveal_strlit(", port: ");
            reveal_strlit(", left: ");
            reveal_strlit(", right: ");
            reveal_strlit(" }");
        }
        let symbol_ptr = self.get_symbol_ptr();
        let arity = symbol_ptr.get_arity();
        let mut s = text::lit("Cell");
        text::push_decimal(&mut s, arity.code() as u64);
        s.append("(");
        text::push_binary_padded(&mut s, self.0, 64);
        s.append(") { symbol: ");
        let sp = symbol_ptr.debug_string();
        s.append(sp.as_str());
        match arity {
            SymbolArity::Zero => {},
            SymbolArity::One => {
                s.append(", port: ");
                let t = self.get_port(PortNum::Zero).debug_string();
                s.append(t.as_str());
            },
            SymbolArity::Two => {
                s.append(", left: ");
                let l = self.get_port(PortNum::Zero).debug_string();
                s.append(l.as_str());
                s.append(", right: ");
                let r = self.get_port(PortNum::One).debug_string();
                s.append(r.as_str());
            },
        }
        s.append(" }");
        assert(s@ =~= cell_debug_text(*self));
        s
    }
}

pub type Cells<T> = RawArena<Cell<T>, CellPtr>;

} // verus!
