//! Symbols: the names of cells, with their polarity and the polarities of
//! their ports, packed into a byte, and the book that declares them.
use vstd::prelude::*;
use vstd::string::StringExecFns;

use crate::bitset::{lemma_and_le_u16, lemma_and_le_u8, BitSet16, BitSet8};
use crate::text;
use crate::{flip_spec, polarity_code, polarity_of_code, Polarity};

verus! {

/// The name of a symbol.
#[derive(Debug, Hash, PartialEq, Eq, Clone, Copy)]
pub struct SymbolName(pub &'static str);

impl SymbolName {
    /// The name `value`.
    pub fn from(value: &'static str) -> (r: SymbolName)
        ensures
            r.0@ == value@,
    {
        SymbolName(value)
    }

    /// Whether two names hold the same characters.
    pub fn same(&self, other: &SymbolName) -> (r: bool)
        ensures
            r == (self.0@ == other.0@),
    {
        text::str_eq(self.0, other.0)
    }

    /// The characters of the name.
    pub fn to_string(&self) -> (r: String)
        ensures
            r@ == self.0@,
    {
        text::lit(self.0)
    }
}

/// The number of ports of a symbol.
#[derive(Debug, PartialEq, Eq, Structural, Clone, Copy)]
pub enum SymbolArity {
    Zero,
    One,
    Two,
}

/// The numeric code of an arity.
pub open spec fn arity_code(a: SymbolArity) -> int {
    match a {
        SymbolArity::Zero => 0,
        SymbolArity::One => 1,
        SymbolArity::Two => 2,
    }
}

/// The arity that a code below 3 stands for.
pub open spec fn arity_of_code(code: int) -> SymbolArity {
    if code == 0 {
        SymbolArity::Zero
    } else if code == 1 {
        SymbolArity::One
    } else {
        SymbolArity::Two
    }
}

impl SymbolArity {
    /// The arity with code `value`; only 0, 1 and 2 are codes.
    pub fn from_u64(value: u64) -> (r: SymbolArity)
        requires
            value <= 2,
        ensures
            r == arity_of_code(value as int),
            arity_code(r) == value,
    {
        if value == 0 {
            SymbolArity::Zero
        } else if value == 1 {
            SymbolArity::One
        } else {
            SymbolArity::Two
        }
    }

    /// The arity with code `value`; only 0, 1 and 2 are codes.
    pub fn from_u16(value: u16) -> (r: SymbolArity)
        requires
            value <= 2,
        ensures
            r == arity_of_code(value as int),
            arity_code(r) == value,
    {
        if value == 0 {
            SymbolArity::Zero
        } else if value == 1 {
            SymbolArity::One
        } else {
            SymbolArity::Two
        }
    }

    /// The arity with code `value`; only 0, 1 and 2 are codes.
    pub fn from_u8(value: u8) -> (r: SymbolArity)
        requires
            value <= 2,
        ensures
            r == arity_of_code(value as int),
            arity_code(r) == value,
    {
        if value == 0 {
            SymbolArity::Zero
        } else if value == 1 {
            SymbolArity::One
        } else {
            SymbolArity::Two
        }
    }

    /// The numeric code of this arity.
    pub fn code(&self) -> (r: u8)
        ensures
            r == arity_code(*self),
    {
        match self {
            SymbolArity::Zero => 0,
            SymbolArity::One => 1,
            SymbolArity::Two => 2,
        }
    }

    /// The name of the arity.
    pub fn debug_string(&self) -> (r: String)
        ensures
            r@ == arity_name(*self),
    {
        proof {
            reveal_strlit("Zero");
            reveal_strlit("One");
            reveal_strlit("Two");
        }
        match self {
            SymbolArity::Zero => text::lit("Zero"),
            SymbolArity::One => text::lit("One"),
            SymbolArity::Two => text::lit("Two"),
        }
    }
}

/// The name of an arity, as `Debug` writes it.
pub open spec fn arity_name(a: SymbolArity) -> Seq<char> {
    match a {
        SymbolArity::Zero => "Zero"@,
        SymbolArity::One => "One"@,
        SymbolArity::Two => "Two"@,
    }
}

/// The largest symbol index that a pointer can be given.
pub const SYMBOL_INDEX_LIMIT: usize = 0x7ff;

/// A reference to a declared symbol: its index (bits 0 to 10), its
/// polarity (bit 11) and its arity (bits 12 and 13).
#[derive(Clone, Copy, PartialEq, Eq, Structural, Debug)]
pub struct SymbolPtr(pub u16);

/// Facts about the fields of a symbol pointer.
pub proof fn lemma_symbol_ptr_bits(raw: u16, v: u16)
    by (bit_vector)
    ensures
        (0x7ffu16 << 0u8) == 0x7ffu16,
        (1u16 << 11u8) == 0x800u16,
        (3u16 << 12u8) == 0x3000u16,
        ({
            let r = (raw & !(0x7ffu16 << 0u8)) | ((v & 0x7ffu16) << 0u8);
            &&& (r >> 0u8) & 0x7ff == v & 0x7ff
            &&& (r >> 11u8) & 1 == (raw >> 11u8) & 1
            &&& (r >> 12u8) & 3 == (raw >> 12u8) & 3
            &&& r >> 14u8 == raw >> 14u8
        }),
        ({
            let r = (raw & !(1u16 << 11u8)) | ((v & 1u16) << 11u8);
            &&& (r >> 0u8) & 0x7ff == (raw >> 0u8) & 0x7ff
            &&& (r >> 11u8) & 1 == v & 1
            &&& (r >> 12u8) & 3 == (raw >> 12u8) & 3
            &&& r >> 14u8 == raw >> 14u8
        }),
        ({
            let r = (raw & !(3u16 << 12u8)) | ((v & 3u16) << 12u8);
            &&& (r >> 0u8) & 0x7ff == (raw >> 0u8) & 0x7ff
            &&& (r >> 11u8) & 1 == (raw >> 11u8) & 1
            &&& (r >> 12u8) & 3 == v & 3
            &&& r >> 14u8 == raw >> 14u8
        }),
        (raw >> 0u8) & 0x3fff == ((raw >> 0u8) & 0x7ff) | (((raw >> 11u8) & 1) << 11u8) | (((
            raw >> 12u8) & 3) << 12u8),
        (0u16 >> 14u8) == 0,
        (0u16 >> 0u8) & 0x7ff == 0,
        (0u16 >> 11u8) & 1 == 0,
        (0u16 >> 12u8) & 3 == 0,
{
}

impl SymbolPtr {
    pub open spec fn index_bits(self) -> u16 {
        (self.0 >> 0u8) & 0x7ff
    }

    pub open spec fn polarity_bits(self) -> u16 {
        (self.0 >> 11u8) & 1
    }

    pub open spec fn arity_bits(self) -> u16 {
        (self.0 >> 12u8) & 3
    }

    pub open spec fn ptr_bits(self) -> u16 {
        (self.0 >> 0u8) & 0x3fff
    }

    /// The symbol's index in its book.
    pub open spec fn index_of(self) -> nat {
        self.index_bits() as nat
    }

    /// The polarity of the symbol.
    pub open spec fn polarity_of(self) -> Polarity {
        polarity_of_code(self.polarity_bits() as int)
    }

    /// The arity of the symbol.
    pub open spec fn arity_of(self) -> SymbolArity {
        arity_of_code(self.arity_bits() as int)
    }

    /// The arity field holds an arity.
    pub open spec fn wf(self) -> bool {
        self.arity_bits() <= 2
    }

    /// The pointer with the given fields and nothing else set.
    pub open spec fn made(self, index: nat, arity: SymbolArity, polarity: Polarity) -> bool {
        &&& self.index_of() == index
        &&& self.arity_of() == arity
        &&& self.arity_bits() == arity_code(arity)
        &&& self.polarity_of() == polarity
        &&& self.polarity_bits() == polarity_code(polarity)
        &&& self.0 >> 14u8 == 0
        &&& self.wf()
    }

    fn index_field() -> (r: BitSet16<11>)
        ensures
            r.spec_mask() == 0x7ff,
            r.spec_offset() == 0,
    {
        BitSet16::new(0x7ff, 0)
    }

    fn polarity_field() -> (r: BitSet16<1>)
        ensures
            r.spec_mask() == 1,
            r.spec_offset() == 11,
    {
        BitSet16::new(1, 11)
    }

    fn arity_field() -> (r: BitSet16<2>)
        ensures
            r.spec_mask() == 3,
            r.spec_offset() == 12,
    {
        BitSet16::new(3, 12)
    }

    fn ptr_field() -> (r: BitSet16<14>)
        ensures
            r.spec_mask() == 0x3fff,
            r.spec_offset() == 0,
    {
        BitSet16::new(0x3fff, 0)
    }

    /// The pointer to the symbol at `index` with the given arity and polarity.
    pub fn new(index: usize, arity: SymbolArity, polarity: Polarity) -> (r: Self)
        requires
            index < SYMBOL_INDEX_LIMIT,
        ensures
            r.made(index as nat, arity, polarity),
    {
        let mut new = Self(0);
        proof {
            lemma_symbol_ptr_bits(0, 0);
        }
        new.set_index(index);
        new.set_polarity(polarity);
        new.set_arity(arity);
        new
    }

    /// The polarity of the symbol.
    pub fn get_polarity(self) -> (r: Polarity)
        ensures
            r == self.polarity_of(),
    {
        let bits = Self::polarity_field().get(self.0);
        proof {
            lemma_and_le_u16(self.0 >> 11u8, 1);
        }
        Polarity::from_u16(bits)
    }

    /// Gives the pointer the polarity `polarity`, keeping the other fields.
    pub fn set_polarity(&mut self, polarity: Polarity)
        ensures
            final(self).polarity_of() == polarity,
            final(self).polarity_bits() == polarity_code(polarity),
            final(self).index_bits() == old(self).index_bits(),
            final(self).arity_bits() == old(self).arity_bits(),
            final(self).0 >> 14u8 == old(self).0 >> 14u8,
    {
        let field = Self::polarity_field();
        let v = polarity.code() as u16;
        proof {
            lemma_symbol_ptr_bits(self.0, v);
            assert(v & 1 == v) by (bit_vector)
                requires
                    v <= 1,
            ;
        }
        self.0 = field.set(field.clear(self.0), v);
    }

    /// The symbol's index in its book.
    pub fn get_index(&self) -> (r: usize)
        ensures
            r == self.index_of(),
            r <= 0x7ff,
    {
        proof {
            lemma_and_le_u16(self.0 >> 0u8, 0x7ff);
        }
        Self::index_field().get(self.0) as usize
    }

    /// Gives the pointer the index `index`, keeping the other fields.
    pub fn set_index(&mut self, index: usize)
        requires
            index < SYMBOL_INDEX_LIMIT,
        ensures
            final(self).index_of() == index,
            final(self).polarity_bits() == old(self).polarity_bits(),
            final(self).arity_bits() == old(self).arity_bits(),
            final(self).0 >> 14u8 == old(self).0 >> 14u8,
    {
        let field = Self::index_field();
        let v = index as u16;
        proof {
            lemma_symbol_ptr_bits(self.0, v);
            assert(v & 0x7ff == v) by (bit_vector)
                requires
                    v < 0x7ff,
            ;
        }
        self.0 = field.set(field.clear(self.0), v);
    }

    /// The arity of the symbol.
    pub fn get_arity(&self) -> (r: SymbolArity)
        requires
            self.wf(),
        ensures
            r == self.arity_of(),
    {
        SymbolArity::from_u16(Self::arity_field().get(self.0))
    }

    /// Gives the pointer the arity `arity`, keeping the other fields.
    pub fn set_arity(&mut self, arity: SymbolArity)
        ensures
            final(self).arity_of() == arity,
            final(self).arity_bits() == arity_code(arity),
            final(self).index_bits() == old(self).index_bits(),
            final(self).polarity_bits() == old(self).polarity_bits(),
            final(self).0 >> 14u8 == old(self).0 >> 14u8,
    {
        let field = Self::arity_field();
        let v = arity.code() as u16;
        proof {
            lemma_symbol_ptr_bits(self.0, v);
            assert(v & 3 == v) by (bit_vector)
                requires
                    v <= 2,
            ;
        }
        self.0 = field.set(field.clear(self.0), v);
    }

    /// The index, polarity and arity fields together.
    pub fn get_ptr(&self) -> (r: u16)
        ensures
            r == self.ptr_bits(),
    {
        Self::ptr_field().get(self.0)
    }

    /// The whole word.
    pub fn get_raw(&self) -> (r: u16)
        ensures
            r == self.0,
    {
        self.0
    }

    /// The pointer whose word is the low 16 bits of `value`.
    pub fn from_u64(value: u64) -> (r: SymbolPtr)
        ensures
            r.0 == value as u16,
    {
        SymbolPtr(value as u16)
    }

    /// The index, polarity and arity fields as a wide word.
    pub fn into_u64(self) -> (r: u64)
        ensures
            r == self.ptr_bits(),
    {
        self.get_ptr() as u64
    }

    /// The fields in binary: arity (2 digits), polarity (1) and index (13),
    /// separated by underscores.
    pub fn binary_string(&self) -> (r: String)
        requires
            self.wf(),
        ensures
            r@ == text::binary_padded(self.arity_bits() as nat, 2) + seq!['_']
                + text::binary_padded(self.polarity_bits() as nat, 1) + seq!['_']
                + text::binary_padded(self.index_of(), 13),
    {
        proof {
            reveal_strlit("_");
            lemma_and_le_u16(self.0 >> 11u8, 1);
        }
        let mut s = String::new();
        text::push_binary_padded(&mut s, self.get_arity().code() as u64, 2);
        s.append("_");
        text::push_binary_padded(&mut s, self.get_polarity().code() as u64, 1);
        s.append("_");
        text::push_binary_padded(&mut s, self.get_index() as u64, 13);
        assert(s@ =~= text::binary_padded(self.arity_bits() as nat, 2) + seq!['_']
                + text::binary_padded(self.polarity_bits() as nat, 1) + seq!['_']
                + text::binary_padded(self.index_of(), 13));
        s
    }
}

/// A symbol: its arity (bits 6 and 7), its polarity (bit 5) and the
/// polarities of its left (bit 4) and right (bit 3) ports.
#[derive(Clone, Copy, PartialEq, Eq, Structural, Debug)]
pub struct Symbol(pub u8);

/// Facts about the fields of a symbol.
pub proof fn lemma_symbol_bits(raw: u8, v: u8)
    by (bit_vector)
    ensures
        (3u8 << 6u8) == 0xc0u8,
        (1u8 << 5u8) == 0x20u8,
        (1u8 << 4u8) == 0x10u8,
        (1u8 << 3u8) == 0x08u8,
        ({
            let r = (raw & !(3u8 << 6u8)) | ((v & 3u8) << 6u8);
            &&& (r >> 6u8) & 3 == v & 3
            &&& (r >> 5u8) & 1 == (raw >> 5u8) & 1
            &&& (r >> 4u8) & 1 == (raw >> 4u8) & 1
            &&& (r >> 3u8) & 1 == (raw >> 3u8) & 1
        }),
        ({
            let r = (raw & !(1u8 << 5u8)) | ((v & 1u8) << 5u8);
            &&& (r >> 6u8) & 3 == (raw >> 6u8) & 3
            &&& (r >> 5u8) & 1 == v & 1
            &&& (r >> 4u8) & 1 == (raw >> 4u8) & 1
            &&& (r >> 3u8) & 1 == (raw >> 3u8) & 1
        }),
        ({
            let r = (raw & !(1u8 << 4u8)) | ((v & 1u8) << 4u8);
            &&& (r >> 6u8) & 3 == (raw >> 6u8) & 3
            &&& (r >> 5u8) & 1 == (raw >> 5u8) & 1
            &&& (r >> 4u8) & 1 == v & 1
            &&& (r >> 3u8) & 1 == (raw >> 3u8) & 1
        }),
        ({
            let r = (raw & !(1u8 << 3u8)) | ((v & 1u8) << 3u8);
            &&& (r >> 6u8) & 3 == (raw >> 6u8) & 3
            &&& (r >> 5u8) & 1 == (raw >> 5u8) & 1
            &&& (r >> 4u8) & 1 == (raw >> 4u8) & 1
            &&& (r >> 3u8) & 1 == v & 1
        }),
        (0u8 >> 6u8) & 3 == 0,
        (0u8 >> 5u8) & 1 == 0,
        (0u8 >> 4u8) & 1 == 0,
        (0u8 >> 3u8) & 1 == 0,
        v <= 1 ==> v & 1 == v,
        v <= 2 ==> v & 3 == v,
{
}

impl Symbol {
    pub open spec fn arity_bits(self) -> u8 {
        (self.0 >> 6u8) & 3
    }

    pub open spec fn polarity_bits(self) -> u8 {
        (self.0 >> 5u8) & 1
    }

    pub open spec fn left_bits(self) -> u8 {
        (self.0 >> 4u8) & 1
    }

    pub open spec fn right_bits(self) -> u8 {
        (self.0 >> 3u8) & 1
    }

    /// The arity of the symbol.
    pub open spec fn arity_of(self) -> SymbolArity {
        arity_of_code(self.arity_bits() as int)
    }

    /// The polarity of the symbol.
    pub open spec fn polarity_of(self) -> Polarity {
        polarity_of_code(self.polarity_bits() as int)
    }

    /// The polarity of the left (or only) port.
    pub open spec fn left_of(self) -> Polarity {
        polarity_of_code(self.left_bits() as int)
    }

    /// The polarity of the right port.
    pub open spec fn right_of(self) -> Polarity {
        polarity_of_code(self.right_bits() as int)
    }

    /// The arity field holds an arity.
    pub open spec fn wf(self) -> bool {
        self.arity_bits() <= 2
    }

    /// A symbol without ports and with polarity `polarity`.
    pub open spec fn made0(self, polarity: Polarity) -> bool {
        &&& self.wf()
        &&& self.arity_of() == SymbolArity::Zero
        &&& self.polarity_of() == polarity
    }

    /// A symbol with one port of polarity `port`.
    pub open spec fn made1(self, polarity: Polarity, port: Polarity) -> bool {
        &&& self.wf()
        &&& self.arity_of() == SymbolArity::One
        &&& self.polarity_of() == polarity
        &&& self.left_of() == port
    }

    /// A symbol with two ports.
    pub open spec fn made2(self, polarity: Polarity, left: Polarity, right: Polarity) -> bool {
        &&& self.wf()
        &&& self.arity_of() == SymbolArity::Two
        &&& self.polarity_of() == polarity
        &&& self.left_of() == left
        &&& self.right_of() == right
    }

    fn arity_field() -> (r: BitSet8<2>)
        ensures
            r.spec_mask() == 3,
            r.spec_offset() == 6,
    {
        BitSet8::new(3, 6)
    }

    fn polarity_field() -> (r: BitSet8<1>)
        ensures
            r.spec_mask() == 1,
            r.spec_offset() == 5,
    {
        BitSet8::new(1, 5)
    }

    fn left_polarity_field() -> (r: BitSet8<1>)
        ensures
            r.spec_mask() == 1,
            r.spec_offset() == 4,
    {
        BitSet8::new(1, 4)
    }

    fn right_polarity_field() -> (r: BitSet8<1>)
        ensures
            r.spec_mask() == 1,
            r.spec_offset() == 3,
    {
        BitSet8::new(1, 3)
    }

    /// A symbol without ports.
    pub fn new0(polarity: Polarity) -> (r: Self)
        ensures
            r.wf(),
            r.arity_of() == SymbolArity::Zero,
            r.polarity_of() == polarity,
            r.left_bits() == 0,
            r.right_bits() == 0,
    {
        let mut sym = Self(0);
        proof {
            lemma_symbol_bits(0, 0);
        }
        sym.set_arity(SymbolArity::Zero);
        sym.set_polarity(polarity);
        sym
    }

    /// A symbol with one port of polarity `port_polarity`.
    pub fn new1(polarity: Polarity, port_polarity: Polarity) -> (r: Self)
        ensures
            r.wf(),
            r.arity_of() == SymbolArity::One,
            r.polarity_of() == polarity,
            r.left_of() == port_polarity,
            r.right_bits() == 0,
    {
        let mut sym = Self(0);
        proof {
            lemma_symbol_bits(0, 0);
        }
        sym.set_arity(SymbolArity::One);
        sym.set_polarity(polarity);
        sym.set_left_polarity(port_polarity);
        sym
    }

    /// A symbol with two ports.
    pub fn new2(polarity: Polarity, left_polarity: Polarity, right_polarity: Polarity) -> (r:
        Self)
        ensures
            r.wf(),
            r.arity_of() == SymbolArity::Two,
            r.polarity_of() == polarity,
            r.left_of() == left_polarity,
            r.right_of() == right_polarity,
    {
        let mut sym = Self(0);
        proof {
            lemma_symbol_bits(0, 0);
        }
        sym.set_arity(SymbolArity::Two);
        sym.set_polarity(polarity);
        sym.set_left_polarity(left_polarity);
        sym.set_right_polarity(right_polarity);
        sym
    }

    /// The arity of the symbol.
    pub fn get_arity(&self) -> (r: SymbolArity)
        requires
            self.wf(),
        ensures
            r == self.arity_of(),
    {
        SymbolArity::from_u8(Self::arity_field().get(self.0))
    }

    /// Gives the symbol the arity `arity`, keeping the other fields.
    pub fn set_arity(&mut self, arity: SymbolArity)
        ensures
            final(self).arity_of() == arity,
            final(self).arity_bits() == arity_code(arity),
            final(self).polarity_bits() == old(self).polarity_bits(),
            final(self).left_bits() == old(self).left_bits(),
            final(self).right_bits() == old(self).right_bits(),
    {
        let field = Self::arity_field();
        let v = arity.code();
        proof {
            lemma_symbol_bits(self.0, v);
        }
        self.0 = field.set(field.clear(self.0), v);
    }

    /// The polarity of the symbol.
    pub fn get_polarity(&self) -> (r: Polarity)
        ensures
            r == self.polarity_of(),
    {
        proof {
            lemma_and_le_u8(self.0 >> 5u8, 1);
        }
        Polarity::from_u8(Self::polarity_field().get(self.0))
    }

    /// Gives the symbol the polarity `polarity`, keeping the other fields.
    pub fn set_polarity(&mut self, polarity: Polarity)
        ensures
            final(self).polarity_of() == polarity,
            final(self).arity_bits() == old(self).arity_bits(),
            final(self).left_bits() == old(self).left_bits(),
            final(self).right_bits() == old(self).right_bits(),
    {
        let field = Self::polarity_field();
        let v = polarity.code();
        proof {
            lemma_symbol_bits(self.0, v);
        }
        self.0 = field.set(field.clear(self.0), v);
    }

    /// The polarity of the left (or only) port; the symbol must have a port.
    pub fn get_left_polarity(&self) -> (r: Polarity)
        requires
            self.arity_bits() == 1 || self.arity_bits() == 2,
        ensures
            r == self.left_of(),
    {
        proof {
            lemma_and_le_u8(self.0 >> 4u8, 1);
        }
        Polarity::from_u8(Self::left_polarity_field().get(self.0))
    }

    /// Gives the left (or only) port the polarity `polarity`; the symbol
    /// must have a port.
    pub fn set_left_polarity(&mut self, polarity: Polarity)
        requires
            old(self).wf(),
            old(self).arity_of() == SymbolArity::One || old(self).arity_of() == SymbolArity::Two,
        ensures
            final(self).left_of() == polarity,
            final(self).arity_bits() == old(self).arity_bits(),
            final(self).polarity_bits() == old(self).polarity_bits(),
            final(self).right_bits() == old(self).right_bits(),
    {
        let field = Self::left_polarity_field();
        let v = polarity.code();
        proof {
            lemma_symbol_bits(self.0, v);
        }
        self.0 = field.set(field.clear(self.0), v);
    }

    /// The polarity of the right port; the symbol must have two ports.
    pub fn get_right_polarity(&self) -> (r: Polarity)
        requires
            self.arity_bits() == 2,
        ensures
            r == self.right_of(),
    {
        proof {
            lemma_and_le_u8(self.0 >> 3u8, 1);
        }
        Polarity::from_u8(Self::right_polarity_field().get(self.0))
    }

    /// Gives the right port the polarity `polarity`; the symbol must have
    /// two ports.
    pub fn set_right_polarity(&mut self, polarity: Polarity)
        requires
            old(self).wf(),
            old(self).arity_of() == SymbolArity::Two,
        ensures
            final(self).right_of() == polarity,
            final(self).arity_bits() == old(self).arity_bits(),
            final(self).polarity_bits() == old(self).polarity_bits(),
            final(self).left_bits() == old(self).left_bits(),
    {
        let field = Self::right_polarity_field();
        let v = polarity.code();
        proof {
            lemma_symbol_bits(self.0, v);
        }
        self.0 = field.set(field.clear(self.0), v);
    }

    /// The pointer to this symbol at `index` of its book.
    pub fn to_ptr(&self, index: usize) -> (r: SymbolPtr)
        requires
            self.wf(),
            index < SYMBOL_INDEX_LIMIT,
        ensures
            r.made(index as nat, self.arity_of(), self.polarity_of()),
    {
        SymbolPtr::new(index, self.get_arity(), self.get_polarity())
    }
}

/// The debug text of a symbol pointer: its word in 16 binary digits, its
/// polarity and its index.
pub open spec fn symbol_ptr_debug_text(p: SymbolPtr) -> Seq<char> {
    "SymbolPtr("@ + text::binary_padded(p.0 as nat, 16) + ") { polarity: "@ + text::polarity_name(
        p.polarity_of(),
    ) + ", index: "@ + text::decimal(p.index_of()) + " }"@
}

/// The debug text of a symbol: its byte in 8 binary digits, its arity, its
/// polarity and the polarities of its ports.
pub open spec fn symbol_debug_text(s: Symbol) -> Seq<char> {
    "Symbol("@ + text::binary_padded(s.0 as nat, 8) + ") { arity: "@ + arity_name(s.arity_of())
        + ", polarity: "@ + text::polarity_name(s.polarity_of()) + match s.arity_of() {
        SymbolArity::Zero => Seq::<char>::empty(),
        SymbolArity::One => ", port: "@ + text::polarity_name(s.left_of()),
        SymbolArity::Two => ", left: "@ + text::polarity_name(s.left_of()) + ", right: "@
            + text::polarity_name(s.right_of()),
    } + " }"@
}

impl SymbolPtr {
    /// `SymbolPtr(` and the word in 16 binary digits, `) { polarity: `, the
    /// polarity, `, index: `, the index and ` }`.
    pub fn debug_string(&self) -> (r: String)
        ensures
            r@ == symbol_ptr_debug_text(*self),
    {
        proof {
            reveal_strlit("SymbolPtr(");
            reveal_strlit(") { polarity: ");
            reveal_strlit(", index: ");
            reveal_strlit(" }");
        }
        let mut s = text::lit("SymbolPtr(");
        text::push_binary_padded(&mut s, self.0 as u64, 16);
        s.append(") { polarity: ");
        s.append(text::polarity_name_str(self.get_polarity()));
        s.append(", index: ");
        text::push_decimal(&mut s, self.get_index() as u64);
        s.append(" }");
        assert(s@ =~= symbol_ptr_debug_text(*self));
        s
    }
}

impl Symbol {
    /// `Symbol(` and the byte in 8 binary digits, `) { arity: `, the arity,
    /// `, polarity: `, the polarity, the ports' polarities and ` }`; the
    /// arity field must hold an arity.
    pub fn debug_string(&self) -> (r: String)
        requires
            self.wf(),
        ensures
            r@ == symbol_debug_text(*self),
    {
        proof {
            reveal_strlit("Symbol(");
            reveal_strlit(") { arity: ");
            reveal_strlit(", polarity: ");
            reveal_strlit(", port: ");
            reveal_strlit(", left: ");
            reveal_strlit(", right: ");
            reveal_strlit(" }");
        }
        let mut s = text::lit("Symbol(");
        text::push_binary_padded(&mut s, self.0 as u64, 8);
        s.append(") { arity: ");
        let arity = self.get_arity();
        let a = arity.debug_string();
        s.append(a.as_str());
        s.append(", polarity: ");
        s.append(text::polarity_name_str(self.get_polarity()));
        match arity {
            SymbolArity::Zero => {},
            SymbolArity::One => {
                s.append(", port: ");
                s.append(text::polarity_name_str(self.get_left_polarity()));
            },
            SymbolArity::Two => {
                s.append(", left: ");
                s.append(text::polarity_name_str(self.get_left_polarity()));
                s.append(", right: ");
                s.append(text::polarity_name_str(self.get_right_polarity()));
            },
        }
        s.append(" }");
        assert(s@ =~= symbol_debug_text(*self));
        s
    }
}

/// A symbol with its index and name, as the book lists it.
pub struct NamedSymbol<'a> {
    pub index: usize,
    pub name: SymbolName,
    pub symbol: &'a Symbol,
}

/// The text of a symbol by its name: `name`, `(name p)` or `(name l r)`
/// with the polarities of its ports.
pub open spec fn symbol_item_text(name: Seq<char>, symbol: Symbol) -> Seq<char> {
    match symbol.arity_of() {
        SymbolArity::Zero => name,
        SymbolArity::One => seq!['('] + name + seq![' '] + crate::text::polarity_text(
            symbol.left_of(),
        ) + seq![')'],
        SymbolArity::Two => seq!['('] + name + seq![' '] + crate::text::polarity_text(
            symbol.left_of(),
        ) + seq![' '] + crate::text::polarity_text(symbol.right_of()) + seq![')'],
    }
}

/// The text of a declared symbol: `Symbol[i]: ` then its polarity and
/// its text by name.
pub open spec fn named_symbol_text(index: nat, name: Seq<char>, symbol: Symbol) -> Seq<char> {
    "Symbol["@ + crate::text::decimal(index) + "]: "@ + crate::text::polarity_text(
        symbol.polarity_of(),
    ) + symbol_item_text(name, symbol)
}

/// Appends the text of `symbol` by name `name` to `s`.
fn push_symbol_item(s: &mut String, name: &SymbolName, symbol: Symbol)
    requires
        symbol.wf(),
    ensures
        final(s)@ == old(s)@ + symbol_item_text(name.0@, symbol),
{
    proof {
        reveal_strlit("(");
        reveal_strlit(")");
        reveal_strlit(" ");
    }
    match symbol.get_arity() {
        SymbolArity::Zero => {
            s.append(name.0);
        },
        SymbolArity::One => {
            s.append("(");
            s.append(name.0);
            s.append(" ");
            let p = symbol.get_left_polarity().to_string();
            s.append(p.as_str());
            s.append(")");
            assert(final(s)@ =~= old(s)@ + symbol_item_text(name.0@, symbol));
        },
        SymbolArity::Two => {
            s.append("(");
            s.append(name.0);
            s.append(" ");
            let p = symbol.get_left_polarity().to_string();
            s.append(p.as_str());
            s.append(" ");
            let q = symbol.get_right_polarity().to_string();
            s.append(q.as_str());
            s.append(")");
            assert(final(s)@ =~= old(s)@ + symbol_item_text(name.0@, symbol));
        },
    }
}

impl<'a> NamedSymbol<'a> {
    /// `Symbol[i]: ` then the polarity and the text of the symbol by name.
    pub fn to_string(&self) -> (r: String)
        requires
            self.symbol.wf(),
        ensures
            r@ == named_symbol_text(self.index as nat, self.name.0@, *self.symbol),
    {
        proof {
            reveal_strlit("Symbol[");
            reveal_strlit("]: ");
        }
        let mut s = text::lit("Symbol[");
        text::push_decimal(&mut s, self.index as u64);
        s.append("]: ");
        let p = self.symbol.get_polarity().to_string();
        s.append(p.as_str());
        push_symbol_item(&mut s, &self.name, *self.symbol);
        assert(s@ =~= named_symbol_text(self.index as nat, self.name.0@, *self.symbol));
        s
    }
}

/// The last position of `name` in `names`, if any.
pub open spec fn last_index_of(names: Seq<Seq<char>>, name: Seq<char>) -> Option<nat>
    decreases names.len(),
{
    if names.len() == 0 {
        None
    } else if names.last() == name {
        Some((names.len() - 1) as nat)
    } else {
        last_index_of(names.drop_last(), name)
    }
}

/// The last position of a name is a position that holds it, and no later
/// position holds it; there is none exactly when no position holds it.
pub proof fn lemma_last_index_of(names: Seq<Seq<char>>, name: Seq<char>)
    ensures
        last_index_of(names, name) is None <==> (forall|i: int|
            0 <= i < names.len() ==> names[i] != name),
        last_index_of(names, name) matches Some(i) ==> (i < names.len() && names[i as int]
            == name && forall|j: int| i < j < names.len() ==> names[j] != name),
    decreases names.len(),
{
    if names.len() > 0 && names.last() != name {
        lemma_last_index_of(names.drop_last(), name);
        if last_index_of(names, name) is None {
            assert forall|i: int| 0 <= i < names.len() implies names[i] != name by {
                if i < names.len() - 1 {
                    assert(names.drop_last()[i] == names[i]);
                }
            }
        }
        if let Some(i) = last_index_of(names, name) {
            assert(names.drop_last()[i as int] == names[i as int]);
            assert forall|j: int| i < j < names.len() implies names[j] != name by {
                if j < names.len() - 1 {
                    assert(names.drop_last()[j] == names[j]);
                }
            }
        } else {
            assert forall|i: int| 0 <= i < names.len() implies names[i] != name by {
                if i < names.len() - 1 {
                    assert(names.drop_last()[i] == names[i]);
                }
            }
        }
    }
}

/// The symbols of a net and their names. A symbol's index is its position
/// in the book; a name that is declared again refers to the later symbol.
pub struct SymbolBook {
    symbols: Vec<Symbol>,
    names: Vec<SymbolName>,
}

impl SymbolBook {
    /// The declared symbols, in order.
    pub closed spec fn symbols_view(&self) -> Seq<Symbol> {
        self.symbols@
    }

    /// The names of the declared symbols, in order.
    pub closed spec fn names_view(&self) -> Seq<Seq<char>> {
        self.names@.map_values(|n: SymbolName| n.0@)
    }

    /// Every symbol holds an arity, every symbol has a name and every index
    /// fits a symbol pointer.
    pub closed spec fn wf(&self) -> bool {
        &&& self.names@.len() == self.symbols@.len()
        &&& self.symbols@.len() <= SYMBOL_INDEX_LIMIT
        &&& forall|i: int| 0 <= i < self.symbols@.len() ==> (#[trigger] self.symbols@[i]).wf()
    }

    /// What the book's invariant gives its users.
    pub proof fn lemma_wf(&self)
        requires
            self.wf(),
        ensures
            self.names_view().len() == self.symbols_view().len(),
            self.symbols_view().len() <= SYMBOL_INDEX_LIMIT,
            forall|i: int|
                0 <= i < self.symbols_view().len() ==> (#[trigger] self.symbols_view()[i]).wf(),
    {
    }

    /// The pointer to the symbol at `index` of this book.
    pub open spec fn ptr_at(&self, p: SymbolPtr, index: nat) -> bool {
        &&& index < self.symbols_view().len()
        &&& p.made(index, self.symbols_view()[index as int].arity_of(), self.symbols_view()[index as int].polarity_of())
    }

    /// An empty book.
    pub fn new() -> (r: Self)
        ensures
            r.wf(),
            r.symbols_view() == Seq::<Symbol>::empty(),
            r.names_view() == Seq::<Seq<char>>::empty(),
    {
        let r = Self { symbols: Vec::new(), names: Vec::new() };
        assert(r.names_view() =~= Seq::<Seq<char>>::empty());
        r
    }

    /// The number of declared symbols.
    pub fn len(&self) -> (r: usize)
        ensures
            r == self.symbols_view().len(),
    {
        self.symbols.len()
    }

    /// Declares a constructor (positive symbol) without ports.
    pub fn ctr0(&mut self, name: &SymbolName) -> (r: SymbolPtr)
        requires
            old(self).wf(),
            old(self).symbols_view().len() < SYMBOL_INDEX_LIMIT,
        ensures
            final(self).wf(),
            final(self).symbols_view().drop_last() == old(self).symbols_view(),
            final(self).symbols_view().len() == old(self).symbols_view().len() + 1,
            final(self).symbols_view().last().made0(Polarity::Pos),
            final(self).names_view() == old(self).names_view().push(name.0@),
            final(self).ptr_at(r, old(self).symbols_view().len()),
            last_index_of(final(self).names_view(), name.0@) == Some(old(self).symbols_view().len()),
    {
        self.declare0(name, Polarity::Pos)
    }

    /// Declares a constructor (positive symbol) with one port.
    pub fn ctr1(&mut self, name: &SymbolName, port_polarity: Polarity) -> (r: SymbolPtr)
        requires
            old(self).wf(),
            old(self).symbols_view().len() < SYMBOL_INDEX_LIMIT,
        ensures
            final(self).wf(),
            final(self).symbols_view().drop_last() == old(self).symbols_view(),
            final(self).symbols_view().len() == old(self).symbols_view().len() + 1,
            final(self).symbols_view().last().made1(Polarity::Pos, port_polarity),
            final(self).names_view() == old(self).names_view().push(name.0@),
            final(self).ptr_at(r, old(self).symbols_view().len()),
            last_index_of(final(self).names_view(), name.0@) == Some(old(self).symbols_view().len()),
    {
        self.declare1(name, Polarity::Pos, port_polarity)
    }

    /// Declares a constructor (positive symbol) with two ports.
    pub fn ctr2(&mut self, name: &SymbolName, left_polarity: Polarity, right_polarity: Polarity) -> (r: SymbolPtr)
        requires
            old(self).wf(),
            old(self).symbols_view().len() < SYMBOL_INDEX_LIMIT,
        ensures
            final(self).wf(),
            final(self).symbols_view().drop_last() == old(self).symbols_view(),
            final(self).symbols_view().len() == old(self).symbols_view().len() + 1,
            final(self).symbols_view().last().made2(Polarity::Pos, left_polarity, right_polarity),
            final(self).names_view() == old(self).names_view().push(name.0@),
            final(self).ptr_at(r, old(self).symbols_view().len()),
            last_index_of(final(self).names_view(), name.0@) == Some(old(self).symbols_view().len()),
    {
        self.declare2(name, Polarity::Pos, left_polarity, right_polarity)
    }

    /// Declares a function (negative symbol) without ports.
    pub fn fun0(&mut self, name: &SymbolName) -> (r: SymbolPtr)
        requires
            old(self).wf(),
            old(self).symbols_view().len() < SYMBOL_INDEX_LIMIT,
        ensures
            final(self).wf(),
            final(self).symbols_view().drop_last() == old(self).symbols_view(),
            final(self).symbols_view().len() == old(self).symbols_view().len() + 1,
            final(self).symbols_view().last().made0(Polarity::Neg),
            final(self).names_view() == old(self).names_view().push(name.0@),
            final(self).ptr_at(r, old(self).symbols_view().len()),
            last_index_of(final(self).names_view(), name.0@) == Some(old(self).symbols_view().len()),
    {
        self.declare0(name, Polarity::Neg)
    }

    /// Declares a function (negative symbol) with one port.
    pub fn fun1(&mut self, name: &SymbolName, port_polarity: Polarity) -> (r: SymbolPtr)
        requires
            old(self).wf(),
            old(self).symbols_view().len() < SYMBOL_INDEX_LIMIT,
        ensures
            final(self).wf(),
            final(self).symbols_view().drop_last() == old(self).symbols_view(),
            final(self).symbols_view().len() == old(self).symbols_view().len() + 1,
            final(self).symbols_view().last().made1(Polarity::Neg, port_polarity),
            final(self).names_view() == old(self).names_view().push(name.0@),
            final(self).ptr_at(r, old(self).symbols_view().len()),
            last_index_of(final(self).names_view(), name.0@) == Some(old(self).symbols_view().len()),
    {
        self.declare1(name, Polarity::Neg, port_polarity)
    }

    /// Declares a function (negative symbol) with two ports.
    pub fn fun2(&mut self, name: &SymbolName, left_polarity: Polarity, right_polarity: Polarity) -> (r: SymbolPtr)
        requires
            old(self).wf(),
            old(self).symbols_view().len() < SYMBOL_INDEX_LIMIT,
        ensures
            final(self).wf(),
            final(self).symbols_view().drop_last() == old(self).symbols_view(),
            final(self).symbols_view().len() == old(self).symbols_view().len() + 1,
            final(self).symbols_view().last().made2(Polarity::Neg, left_polarity, right_polarity),
            final(self).names_view() == old(self).names_view().push(name.0@),
            final(self).ptr_at(r, old(self).symbols_view().len()),
            last_index_of(final(self).names_view(), name.0@) == Some(old(self).symbols_view().len()),
    {
        self.declare2(name, Polarity::Neg, left_polarity, right_polarity)
    }

    fn declare(&mut self, name: &SymbolName, symbol: Symbol) -> (r: SymbolPtr)
        requires
            old(self).wf(),
            old(self).symbols_view().len() < SYMBOL_INDEX_LIMIT,
            symbol.wf(),
        ensures
            final(self).wf(),
            final(self).symbols_view() == old(self).symbols_view().push(symbol),
            final(self).names_view() == old(self).names_view().push(name.0@),
            final(self).ptr_at(r, old(self).symbols_view().len()),
            last_index_of(final(self).names_view(), name.0@) == Some(old(self).symbols_view().len()),
    {
        let ptr = self.add_symbol(symbol);
        self.names.push(*name);
        assert(self.names_view() =~= old(self).names_view().push(name.0@));
        ptr
    }

    fn declare0(&mut self, name: &SymbolName, polarity: Polarity) -> (r: SymbolPtr)
        requires
            old(self).wf(),
            old(self).symbols_view().len() < SYMBOL_INDEX_LIMIT,
        ensures
            final(self).wf(),
            final(self).symbols_view().drop_last() == old(self).symbols_view(),
            final(self).symbols_view().len() == old(self).symbols_view().len() + 1,
            final(self).symbols_view().last().made0(polarity),
            final(self).names_view() == old(self).names_view().push(name.0@),
            final(self).ptr_at(r, old(self).symbols_view().len()),
            last_index_of(final(self).names_view(), name.0@) == Some(old(self).symbols_view().len()),
    {
        let s = Symbol::new0(polarity);
        let r = self.declare(name, s);
        assert(self.symbols_view().drop_last() =~= old(self).symbols_view());
        proof {
            law_declared_name_is_found(old(self).names_view(), name.0@);
        }
        r
    }

    fn declare1(&mut self, name: &SymbolName, polarity: Polarity, left_port_polarity: Polarity) -> (r: SymbolPtr)
        requires
            old(self).wf(),
            old(self).symbols_view().len() < SYMBOL_INDEX_LIMIT,
        ensures
            final(self).wf(),
            final(self).symbols_view().drop_last() == old(self).symbols_view(),
            final(self).symbols_view().len() == old(self).symbols_view().len() + 1,
            final(self).symbols_view().last().made1(polarity, left_port_polarity),
            final(self).names_view() == old(self).names_view().push(name.0@),
            final(self).ptr_at(r, old(self).symbols_view().len()),
            last_index_of(final(self).names_view(), name.0@) == Some(old(self).symbols_view().len()),
    {
        let s = Symbol::new1(polarity, left_port_polarity);
        let r = self.declare(name, s);
        assert(self.symbols_view().drop_last() =~= old(self).symbols_view());
        proof {
            law_declared_name_is_found(old(self).names_view(), name.0@);
        }
        r
    }

    fn declare2(&mut self, name: &SymbolName, polarity: Polarity, left_port_polarity: Polarity, right_port_polarity: Polarity) -> (r: SymbolPtr)
        requires
            old(self).wf(),
            old(self).symbols_view().len() < SYMBOL_INDEX_LIMIT,
        ensures
            final(self).wf(),
            final(self).symbols_view().drop_last() == old(self).symbols_view(),
            final(self).symbols_view().len() == old(self).symbols_view().len() + 1,
            final(self).symbols_view().last().made2(polarity, left_port_polarity, right_port_polarity),
            final(self).names_view() == old(self).names_view().push(name.0@),
            final(self).ptr_at(r, old(self).symbols_view().len()),
            last_index_of(final(self).names_view(), name.0@) == Some(old(self).symbols_view().len()),
    {
        let s = Symbol::new2(polarity, left_port_polarity, right_port_polarity);
        let r = self.declare(name, s);
        assert(self.symbols_view().drop_last() =~= old(self).symbols_view());
        proof {
            law_declared_name_is_found(old(self).names_view(), name.0@);
        }
        r
    }

    /// The symbol that `symbol_ptr` points to.
    pub fn get(&self, symbol_ptr: SymbolPtr) -> (r: Symbol)
        requires
            symbol_ptr.index_of() < self.symbols_view().len(),
        ensures
            r == self.symbols_view()[symbol_ptr.index_of() as int],
    {
        self.symbols[symbol_ptr.get_index()]
    }

    /// The pointer to the symbol last declared with `name`, if any.
    pub fn get_by_name(&self, name: &SymbolName) -> (r: Option<SymbolPtr>)
        requires
            self.wf(),
        ensures
            r is None <==> last_index_of(self.names_view(), name.0@) is None,
            r matches Some(p) ==> last_index_of(self.names_view(), name.0@) == Some(p.index_of())
                && self.ptr_at(p, p.index_of()),
    {
        let mut i = self.names.len();
        assert(self.names_view().take(i as int) =~= self.names_view());
        while i > 0
            invariant
                i <= self.names@.len(),
                self.wf(),
                last_index_of(self.names_view(), name.0@) == last_index_of(self.names_view().take(i as int), name.0@),
            decreases i,
        {
            proof {
                let t = self.names_view().take(i as int);
                assert(t.drop_last() =~= self.names_view().take(i - 1));
                assert(t.last() == self.names@[i - 1].0@);
            }
            if self.names[i - 1].same(name) {
                let symbol = self.symbols[i - 1];
                return Some(symbol.to_ptr(i - 1));
            }
            i = i - 1;
        }
        assert(self.names_view().take(0) =~= Seq::<Seq<char>>::empty());
        None
    }

    fn add_symbol(&mut self, symbol: Symbol) -> (r: SymbolPtr)
        requires
            old(self).wf(),
            old(self).symbols_view().len() < SYMBOL_INDEX_LIMIT,
            symbol.wf(),
        ensures
            final(self).symbols_view() == old(self).symbols_view().push(symbol),
            final(self).names@ == old(self).names@,
            final(self).symbols@.len() <= SYMBOL_INDEX_LIMIT,
            forall|i: int| 0 <= i < final(self).symbols@.len() ==> (#[trigger] final(self).symbols@[i]).wf(),
            r.made(old(self).symbols_view().len(), symbol.arity_of(), symbol.polarity_of()),
    {
        let index = self.symbols.len();
        let ptr = symbol.to_ptr(index);
        self.symbols.push(symbol);
        ptr
    }

    /// The name of the symbol that `symbol` points to, if it is declared.
    pub fn get_name(&self, symbol: SymbolPtr) -> (r: Option<SymbolName>)
        requires
            self.wf(),
        ensures
            r is Some <==> symbol.index_of() < self.symbols_view().len(),
            r matches Some(n) ==> n.0@ == self.names_view()[symbol.index_of() as int],
    {
        let index = symbol.get_index();
        if index < self.names.len() {
            Some(self.names[index])
        } else {
            None
        }
    }

    /// The declared symbols with their indexes and names, in order.
    pub fn iter(&self) -> (r: Vec<NamedSymbol<'_>>)
        requires
            self.wf(),
        ensures
            r@.len() == self.symbols_view().len(),
            forall|i: int|
                0 <= i < r@.len() ==> {
                    &&& (#[trigger] r@[i]).index == i
                    &&& r@[i].name.0@ == self.names_view()[i]
                    &&& *r@[i].symbol == self.symbols_view()[i]
                },
    {
        let mut out: Vec<NamedSymbol<'_>> = Vec::new();
        let mut index: usize = 0;
        while index < self.symbols.len()
            invariant
                self.wf(),
                index <= self.symbols@.len(),
                out@.len() == index,
                forall|i: int|
                    0 <= i < index ==> {
                        &&& (#[trigger] out@[i]).index == i
                        &&& out@[i].name.0@ == self.names_view()[i]
                        &&& *out@[i].symbol == self.symbols_view()[i]
                    },
            decreases self.symbols@.len() - index,
        {
            out.push(NamedSymbol { index, name: self.names[index], symbol: &self.symbols[index] });
            index = index + 1;
        }
        out
    }

    /// The symbol that `symbol_ptr` points to, ready to be shown by name.
    pub fn display_symbol<'a>(&'a self, symbol_ptr: SymbolPtr) -> (r: SymbolItem<'a>)
        ensures
            r.symbol_ptr == symbol_ptr,
            r.symbols == self,
    {
        SymbolItem { symbol_ptr, symbols: self }
    }

    /// One line per declared symbol, each as `NamedSymbol` shows it.
    pub fn to_string(&self) -> (r: String)
        requires
            self.wf(),
        ensures
            r@ == book_text(self.names_view(), self.symbols_view(), self.symbols_view().len()),
    {
        proof {
            reveal_strlit("\n");
        }
        let items = self.iter();
        let mut s = String::new();
        let mut i: usize = 0;
        while i < items.len()
            invariant
                self.wf(),
                items@.len() == self.symbols_view().len(),
                forall|k: int|
                    0 <= k < items@.len() ==> {
                        &&& (#[trigger] items@[k]).index == k
                        &&& items@[k].name.0@ == self.names_view()[k]
                        &&& *items@[k].symbol == self.symbols_view()[k]
                    },
                i <= items@.len(),
                s@ == book_text(self.names_view(), self.symbols_view(), i as nat),
            decreases items@.len() - i,
        {
            let line = items[i].to_string();
            let ghost before = s@;
            s.append(line.as_str());
            s.append("\n");
            proof {
                let k = i as int;
                assert(items@[k].index == k);
                assert(book_text(self.names_view(), self.symbols_view(), (i + 1) as nat)
                    == book_text(self.names_view(), self.symbols_view(), i as nat) + named_symbol_text(
                    i as nat, self.names_view()[k], self.symbols_view()[k]) + seq!['\n']);
                reveal_strlit("\n");
                assert("\n"@ =~= seq!['\n']);
                assert(s@ =~= before + line@ + seq!['\n']);
            }
            i = i + 1;
        }
        s
    }
}

/// The first `n` lines of the book's text.
pub open spec fn book_text(names: Seq<Seq<char>>, symbols: Seq<Symbol>, n: nat) -> Seq<char>
    decreases n,
{
    if n == 0 {
        seq![]
    } else {
        book_text(names, symbols, (n - 1) as nat) + named_symbol_text(
            (n - 1) as nat,
            names[n - 1],
            symbols[n - 1],
        ) + seq!['\n']
    }
}

/// A symbol pointer with the book that declares it, shown by name.
pub struct SymbolItem<'a> {
    pub symbol_ptr: SymbolPtr,
    pub symbols: &'a SymbolBook,
}

impl<'a> SymbolItem<'a> {
    /// `name`, `(name p)` or `(name l r)` with the polarities of the ports.
    pub fn to_string(&self) -> (r: String)
        requires
            self.symbols.wf(),
            self.symbol_ptr.index_of() < self.symbols.symbols_view().len(),
        ensures
            r@ == symbol_item_text(
                self.symbols.names_view()[self.symbol_ptr.index_of() as int],
                self.symbols.symbols_view()[self.symbol_ptr.index_of() as int],
            ),
    {
        let name = self.symbols.get_name(self.symbol_ptr);
        let symbol = self.symbols.get(self.symbol_ptr);
        let mut s = String::new();
        match name {
            Some(n) => {
                push_symbol_item(&mut s, &n, symbol);
            },
            None => {},
        }
        assert(s@ =~= symbol_item_text(
            self.symbols.names_view()[self.symbol_ptr.index_of() as int],
            self.symbols.symbols_view()[self.symbol_ptr.index_of() as int],
        ));
        s
    }
}


/// A name just declared is found at the new symbol: the latest
/// declaration of a name wins.
pub proof fn law_declared_name_is_found(names: Seq<Seq<char>>, name: Seq<char>)
    ensures
        last_index_of(names.push(name), name) == Some(names.len()),
{
    assert(names.push(name).last() == name);
}

/// Declaring a name leaves where every other name is found.
pub proof fn law_declaring_keeps_other_names(names: Seq<Seq<char>>, name: Seq<char>, other: Seq<char>)
    requires
        other != name,
    ensures
        last_index_of(names.push(name), other) == last_index_of(names, other),
{
    assert(names.push(name).drop_last() =~= names);
}


/// The sign that shows a polarity.
pub open spec fn polarity_sign(p: Polarity) -> char {
    if p == Polarity::Pos {
        '+'
    } else {
        '-'
    }
}

/// A symbol is shown by its name, alone when it has no port, else in
/// parentheses followed by the signs of its ports' polarities, left port
/// first: a symbol declared with ports of polarities `left` and `right`
/// shows those two signs in that order.
pub proof fn law_symbol_text_shows_its_ports(name: Seq<char>, symbol: Symbol, polarity: Polarity, left: Polarity, right: Polarity)
    ensures
        symbol.made0(polarity) ==> symbol_item_text(name, symbol) == name,
        symbol.made1(polarity, left) ==> {
            let t = symbol_item_text(name, symbol);
            &&& t.len() == name.len() + 4
            &&& t[0] == '('
            &&& t.subrange(1, name.len() + 1int) == name
            &&& t[name.len() as int + 1] == ' '
            &&& t[name.len() as int + 2] == polarity_sign(left)
            &&& t[name.len() as int + 3] == ')'
        },
        symbol.made2(polarity, left, right) ==> {
            let t = symbol_item_text(name, symbol);
            &&& t.len() == name.len() + 6
            &&& t[0] == '('
            &&& t.subrange(1, name.len() + 1int) == name
            &&& t[name.len() as int + 1] == ' '
            &&& t[name.len() as int + 2] == polarity_sign(left)
            &&& t[name.len() as int + 3] == ' '
            &&& t[name.len() as int + 4] == polarity_sign(right)
            &&& t[name.len() as int + 5] == ')'
        },
{
    if symbol.made1(polarity, left) {
        let t = symbol_item_text(name, symbol);
        assert(t.subrange(1, name.len() + 1int) =~= name);
    }
    if symbol.made2(polarity, left, right) {
        let t = symbol_item_text(name, symbol);
        assert(t.subrange(1, name.len() + 1int) =~= name);
    }
}


/// A declared symbol is shown as `Symbol[i]: `, the sign of its own
/// polarity, then its text by name.
pub proof fn law_named_symbol_text(index: nat, name: Seq<char>, symbol: Symbol)
    ensures
        ({
            let t = named_symbol_text(index, name, symbol);
            let n: int = crate::text::decimal(index).len() + 11int;
            &&& t.len() == n + symbol_item_text(name, symbol).len()
            &&& t.take(7) == "Symbol["@
            &&& t.subrange(7, n - 4) == crate::text::decimal(index)
            &&& t[n - 1] == polarity_sign(symbol.polarity_of())
            &&& t.skip(n) == symbol_item_text(name, symbol)
        }),
{
    reveal_strlit("Symbol[");
    reveal_strlit("]: ");
    let t = named_symbol_text(index, name, symbol);
    let n: int = crate::text::decimal(index).len() + 11int;
    assert(t.take(7) =~= "Symbol["@);
    assert(t.subrange(7, n - 4) =~= crate::text::decimal(index));
    let p = crate::text::polarity_text(symbol.polarity_of());
    assert(p.len() == 1);
    let head = "Symbol["@ + crate::text::decimal(index) + "]: "@ + p;
    assert(t == head + symbol_item_text(name, symbol));
    assert("Symbol["@.len() == 7);
    assert("]: "@.len() == 3);
    assert(head.len() == n);
    assert(t.skip(n) =~= symbol_item_text(name, symbol));
}

} // verus!
