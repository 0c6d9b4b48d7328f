//! Equations: a redex between two cells, a variable bound to a cell, or two
//! variables connected, packed into a word.
use vstd::prelude::*;
use vstd::string::StringExecFns;
use std::marker::PhantomData;

use crate::arena::{Arena, ArenaPtr, ArenaValue};
use crate::bitset::{lemma_and_le_u32, lemma_and_le_u64, BitSet32, BitSet64};
use crate::cell::{cell_ptr_debug_text, CellPtr};
use crate::heap::{cell0_error, cell1_error, cell2_error, cell_added, cell_text, var_text, Heap};
use crate::symbol::{last_index_of, SymbolBook, SymbolName};
use crate::term::{TermFamily, TermPtr};
use crate::text;
use crate::var::{PVarPtr, Var, VarPtr};
use crate::{flip_spec, BuildError, Polarity};

verus! {

/// The cell word 0, given back where building failed.
fn null_cell() -> (r: CellPtr)
    ensures
        r == CellPtr(0),
        r.ptr_bits() < 0xffffff,
{
    assert((0u32 >> 0u8) & 0xffffff == 0) by (bit_vector);
    CellPtr(0)
}

/// The variable end word 0, given back where building failed.
fn null_pvar() -> (r: PVarPtr)
    ensures
        r == PVarPtr(0),
        r.ptr_bits() < 0xffffff,
{
    assert((0u32 >> 0u8) & 0xffffff == 0) by (bit_vector);
    PVarPtr(0)
}

/// What an equation relates.
#[derive(Debug, PartialEq, Eq, Structural, Clone, Copy)]
pub enum EquationKind {
    Redex,
    Bind,
    Connect,
}

/// The numeric code of an equation kind.
pub open spec fn equation_kind_code(k: EquationKind) -> int {
    match k {
        EquationKind::Redex => 0,
        EquationKind::Bind => 1,
        EquationKind::Connect => 2,
    }
}

/// The kind that a code below 3 stands for.
pub open spec fn equation_kind_of_code(code: int) -> EquationKind {
    if code == 0 {
        EquationKind::Redex
    } else if code == 1 {
        EquationKind::Bind
    } else {
        EquationKind::Connect
    }
}

/// The name of a kind, as `Display` writes it.
pub open spec fn equation_kind_text(k: EquationKind) -> Seq<char> {
    match k {
        EquationKind::Redex => "REDEX"@,
        EquationKind::Bind => "BIND"@,
        EquationKind::Connect => "CONNECT"@,
    }
}

/// The name of a kind, as `Debug` writes it.
pub open spec fn equation_kind_name(k: EquationKind) -> Seq<char> {
    match k {
        EquationKind::Redex => "Redex"@,
        EquationKind::Bind => "Bind"@,
        EquationKind::Connect => "Connect"@,
    }
}

impl EquationKind {
    /// The kind with code `value`; only 0, 1 and 2 are codes.
    pub fn from_u8(value: u8) -> (r: EquationKind)
        requires
            value <= 2,
        ensures
            r == equation_kind_of_code(value as int),
            equation_kind_code(r) == value,
    {
        if value == 0 {
            EquationKind::Redex
        } else if value == 1 {
            EquationKind::Bind
        } else {
            EquationKind::Connect
        }
    }

    /// The kind with code `value`; only 0, 1 and 2 are codes.
    pub fn from_u16(value: u16) -> (r: EquationKind)
        requires
            value <= 2,
        ensures
            r == equation_kind_of_code(value as int),
            equation_kind_code(r) == value,
    {
        if value == 0 {
            EquationKind::Redex
        } else if value == 1 {
            EquationKind::Bind
        } else {
            EquationKind::Connect
        }
    }

    /// The kind with code `value`; only 0, 1 and 2 are codes.
    pub fn from_u32(value: u32) -> (r: EquationKind)
        requires
            value <= 2,
        ensures
            r == equation_kind_of_code(value as int),
            equation_kind_code(r) == value,
    {
        if value == 0 {
            EquationKind::Redex
        } else if value == 1 {
            EquationKind::Bind
        } else {
            EquationKind::Connect
        }
    }

    /// The kind with code `value`; only 0, 1 and 2 are codes.
    pub fn from_u64(value: u64) -> (r: EquationKind)
        requires
            value <= 2,
        ensures
            r == equation_kind_of_code(value as int),
            equation_kind_code(r) == value,
    {
        if value == 0 {
            EquationKind::Redex
        } else if value == 1 {
            EquationKind::Bind
        } else {
            EquationKind::Connect
        }
    }

    /// The numeric code of the kind.
    pub fn code(&self) -> (r: u8)
        ensures
            r == equation_kind_code(*self),
    {
        match self {
            EquationKind::Redex => 0,
            EquationKind::Bind => 1,
            EquationKind::Connect => 2,
        }
    }

    /// `REDEX`, `BIND` or `CONNECT`.
    pub fn to_string(&self) -> (r: String)
        ensures
            r@ == equation_kind_text(*self),
    {
        proof {
            reveal_strlit("REDEX");
            reveal_strlit("BIND");
            reveal_strlit("CONNECT");
        }
        match self {
            EquationKind::Redex => text::lit("REDEX"),
            EquationKind::Bind => text::lit("BIND"),
            EquationKind::Connect => text::lit("CONNECT"),
        }
    }

    /// `Redex`, `Bind` or `Connect`.
    pub fn debug_string(&self) -> (r: String)
        ensures
            r@ == equation_kind_name(*self),
    {
        proof {
            reveal_strlit("Redex");
            reveal_strlit("Bind");
            reveal_strlit("Connect");
        }
        match self {
            EquationKind::Redex => text::lit("Redex"),
            EquationKind::Bind => text::lit("Bind"),
            EquationKind::Connect => text::lit("Connect"),
        }
    }
}

/// The largest equation index that a pointer can be given.
pub const EQUATION_INDEX_LIMIT: usize = 0x3fffffff;

/// A reference to an equation: its index (bits 0 to 29) and its kind (bits
/// 30 and 31).
#[derive(PartialEq, Eq, Structural, Clone, Copy, Debug)]
pub struct EquationPtr(pub u32);

/// Facts about the fields of an equation pointer.
pub proof fn lemma_equation_ptr_bits(raw: u32, v: u32)
    by (bit_vector)
    ensures
        (0x3fffffffu32 << 0u8) == 0x3fffffffu32,
        (3u32 << 30u8) == 0xc0000000u32,
        ({
            let r = (raw & !(0x3fffffffu32 << 0u8)) | ((v & 0x3fffffffu32) << 0u8);
            &&& (r >> 0u8) & 0x3fffffff == v & 0x3fffffff
            &&& (r >> 30u8) & 3 == (raw >> 30u8) & 3
        }),
        ({
            let r = (raw & !(3u32 << 30u8)) | ((v & 3u32) << 30u8);
            &&& (r >> 0u8) & 0x3fffffff == (raw >> 0u8) & 0x3fffffff
            &&& (r >> 30u8) & 3 == v & 3
        }),
        v <= 2 ==> v & 3 == v,
        v < 0x3fffffff ==> v & 0x3fffffff == v,
        (0u32 >> 30u8) & 3 == 0,
        (0u32 >> 0u8) & 0x3fffffff == 0,
{
}

impl EquationPtr {
    pub open spec fn index_bits(self) -> u32 {
        (self.0 >> 0u8) & 0x3fffffff
    }

    pub open spec fn kind_bits(self) -> u32 {
        (self.0 >> 30u8) & 3
    }

    /// The index of the equation.
    pub open spec fn index_of(self) -> nat {
        self.index_bits() as nat
    }

    /// The kind of the equation.
    pub open spec fn kind_of(self) -> EquationKind {
        equation_kind_of_code(self.kind_bits() as int)
    }

    /// The kind field holds a kind.
    pub open spec fn wf(self) -> bool {
        self.kind_bits() <= 2
    }

    fn index_field() -> (r: BitSet32<30>)
        ensures
            r.spec_mask() == 0x3fffffff,
            r.spec_offset() == 0,
    {
        BitSet32::new(0x3fffffff, 0)
    }

    fn kind_field() -> (r: BitSet32<2>)
        ensures
            r.spec_mask() == 3,
            r.spec_offset() == 30,
    {
        BitSet32::new(3, 30)
    }

    /// The pointer to the equation of kind `kind` at `index`.
    pub fn new(index: usize, kind: EquationKind) -> (r: Self)
        requires
            index < EQUATION_INDEX_LIMIT,
        ensures
            r.index_of() == index,
            r.kind_of() == kind,
            r.wf(),
    {
        let mut eqn = Self(0);
        proof {
            lemma_equation_ptr_bits(0, 0);
        }
        eqn.set_kind(kind);
        eqn.set_index(index);
        eqn
    }

    /// The kind of the equation.
    pub fn get_kind(&self) -> (r: EquationKind)
        requires
            self.wf(),
        ensures
            r == self.kind_of(),
    {
        EquationKind::from_u32(Self::kind_field().get(self.0))
    }

    /// Gives the pointer the kind `kind`, keeping the index.
    pub fn set_kind(&mut self, kind: EquationKind)
        ensures
            final(self).kind_of() == kind,
            final(self).kind_bits() == equation_kind_code(kind),
            final(self).index_bits() == old(self).index_bits(),
    {
        let field = Self::kind_field();
        let v = kind.code() as u32;
        proof {
            lemma_equation_ptr_bits(self.0, v);
        }
        self.0 = field.set(field.clear(self.0), v);
    }

    /// The index of the equation.
    pub fn get_index(&self) -> (r: usize)
        ensures
            r == self.index_of(),
    {
        Self::index_field().get(self.0) as usize
    }

    /// Gives the pointer the index `index`, keeping the kind.
    pub fn set_index(&mut self, index: usize)
        requires
            index < EQUATION_INDEX_LIMIT,
        ensures
            final(self).index_of() == index,
            final(self).kind_bits() == old(self).kind_bits(),
    {
        let field = Self::index_field();
        let v = index as u32;
        proof {
            lemma_equation_ptr_bits(self.0, v);
        }
        self.0 = field.set(field.clear(self.0), v);
    }

    /// The word in binary, without leading zeros.
    pub fn binary_string(&self) -> (r: String)
        ensures
            r@ == text::binary(self.0 as nat),
    {
        let mut s = String::new();
        text::push_binary(&mut s, self.0 as u64);
        assert(s@ =~= text::binary(self.0 as nat));
        s
    }

    /// `EquationPtr { kind: K, index: i }`.
    pub fn debug_string(&self) -> (r: String)
        requires
            self.wf(),
        ensures
            r@ == "EquationPtr { kind: "@ + equation_kind_name(self.kind_of()) + ", index: "@
                + text::decimal(self.index_of()) + " }"@,
    {
        proof {
            reveal_strlit("EquationPtr { kind: ");
            reveal_strlit(", index: ");
            reveal_strlit(" }");
        }
        let mut s = text::lit("EquationPtr { kind: ");
        let k = self.get_kind().debug_string();
        s.append(k.as_str());
        s.append(", index: ");
        text::push_decimal(&mut s, self.get_index() as u64);
        s.append(" }");
        assert(s@ =~= "EquationPtr { kind: "@ + equation_kind_name(self.kind_of()) + ", index: "@
            + text::decimal(self.index_of()) + " }"@);
        s
    }
}

impl ArenaPtr for EquationPtr {
    open spec fn index_spec(&self) -> nat {
        self.index_of()
    }

    fn get_index(&self) -> (r: usize) {
        EquationPtr::get_index(self)
    }
}

/// An equation: its kind (bits 62 and 63), its left side (bits 31 to 61)
/// and its right side (bits 0 to 30). A redex holds the constructor cell on
/// the left and the function cell on the right; a bind holds the variable
/// end on the left and the cell on the right.
pub struct Equation<T: TermFamily>(pub u64, pub PhantomData<T>);

impl<T: TermFamily> Clone for Equation<T> {
    fn clone(&self) -> (r: Self)
        ensures
            r == *self,
    {
        *self
    }
}

impl<T: TermFamily> Copy for Equation<T> {

}

/// Facts about the fields of an equation.
pub proof fn lemma_equation_bits(raw: u64, v: u64)
    by (bit_vector)
    ensures
        (3u64 << 62u8) == 0xc000000000000000u64,
        (0x7fffffffu64 << 31u8) == 0x3fffffff80000000u64,
        (0x7fffffffu64 << 0u8) == 0x7fffffffu64,
        ({
            let r = (raw & !(3u64 << 62u8)) | ((v & 3u64) << 62u8);
            &&& (r >> 62u8) & 3 == v & 3
            &&& (r >> 31u8) & 0x7fffffff == (raw >> 31u8) & 0x7fffffff
            &&& (r >> 0u8) & 0x7fffffff == (raw >> 0u8) & 0x7fffffff
        }),
        ({
            let r = (raw & !(0x7fffffffu64 << 31u8)) | ((v & 0x7fffffffu64) << 31u8);
            &&& (r >> 62u8) & 3 == (raw >> 62u8) & 3
            &&& (r >> 31u8) & 0x7fffffff == v & 0x7fffffff
            &&& (r >> 0u8) & 0x7fffffff == (raw >> 0u8) & 0x7fffffff
        }),
        ({
            let r = (raw & !(0x7fffffffu64 << 0u8)) | ((v & 0x7fffffffu64) << 0u8);
            &&& (r >> 62u8) & 3 == (raw >> 62u8) & 3
            &&& (r >> 31u8) & 0x7fffffff == (raw >> 31u8) & 0x7fffffff
            &&& (r >> 0u8) & 0x7fffffff == v & 0x7fffffff
        }),
        v <= 2 ==> v & 3 == v,
        v <= 0xffffff ==> v & 0x7fffffff == v,
        (0u64 >> 62u8) & 3 == 0,
{
}

impl<T: TermFamily> Equation<T> {
    pub open spec fn kind_bits(self) -> u64 {
        (self.0 >> 62u8) & 3
    }

    pub open spec fn left_bits(self) -> u64 {
        (self.0 >> 31u8) & 0x7fffffff
    }

    pub open spec fn right_bits(self) -> u64 {
        (self.0 >> 0u8) & 0x7fffffff
    }

    /// The kind of the equation.
    pub open spec fn kind_of(self) -> EquationKind {
        equation_kind_of_code(self.kind_bits() as int)
    }

    /// The kind field holds a kind.
    pub open spec fn wf(self) -> bool {
        self.kind_bits() <= 2
    }

    /// The redex of `ctr` and `fun`.
    pub open spec fn is_redex(self, ctr: CellPtr, fun: CellPtr) -> bool {
        &&& self.kind_of() == EquationKind::Redex
        &&& self.wf()
        &&& self.left_bits() == ctr.ptr_bits()
        &&& self.right_bits() == fun.ptr_bits()
    }

    /// The binding of `var` to `cell`.
    pub open spec fn is_bind(self, var: PVarPtr, cell: CellPtr) -> bool {
        &&& self.kind_of() == EquationKind::Bind
        &&& self.wf()
        &&& self.left_bits() == var.ptr_bits()
        &&& self.right_bits() == cell.ptr_bits()
    }

    /// The connection of `left` and `right`.
    pub open spec fn is_connect(self, left: PVarPtr, right: PVarPtr) -> bool {
        &&& self.kind_of() == EquationKind::Connect
        &&& self.wf()
        &&& self.left_bits() == left.ptr_bits()
        &&& self.right_bits() == right.ptr_bits()
    }

    fn right_field() -> (r: BitSet64<31>)
        ensures
            r.spec_mask() == 0x7fffffff,
            r.spec_offset() == 0,
    {
        BitSet64::new(0x7fffffff, 0)
    }

    fn left_field() -> (r: BitSet64<31>)
        ensures
            r.spec_mask() == 0x7fffffff,
            r.spec_offset() == 31,
    {
        BitSet64::new(0x7fffffff, 31)
    }

    fn kind_field() -> (r: BitSet64<2>)
        ensures
            r.spec_mask() == 3,
            r.spec_offset() == 62,
    {
        BitSet64::new(3, 62)
    }

    /// The redex of the constructor `left` and the function `right`.
    pub fn redex(left: CellPtr, right: CellPtr) -> (r: Self)
        requires
            left.polarity_of() == Polarity::Pos,
            right.polarity_of() == Polarity::Neg,
        ensures
            r.is_redex(left, right),
    {
        let mut eqn = Equation(0, PhantomData);
        proof {
            lemma_equation_bits(0, 0);
            lemma_and_le_u32(left.0 >> 0u8, 0xffffff);
            lemma_and_le_u32(right.0 >> 0u8, 0xffffff);
        }
        eqn.set_kind(EquationKind::Redex);
        eqn.set_left(left.get_ptr());
        eqn.set_right(right.get_ptr());
        eqn
    }

    /// The binding of the variable end `var` to `cell`.
    pub fn bind(var: PVarPtr, cell: CellPtr) -> (r: Self)
        ensures
            r.is_bind(var, cell),
    {
        let mut eqn = Equation(0, PhantomData);
        proof {
            lemma_equation_bits(0, 0);
            lemma_and_le_u32(var.0 >> 0u8, 0xffffff);
            lemma_and_le_u32(cell.0 >> 0u8, 0xffffff);
        }
        eqn.set_kind(EquationKind::Bind);
        eqn.set_left(var.get_ptr());
        eqn.set_right(cell.get_ptr());
        eqn
    }

    /// The connection of the variable ends `left` and `right`.
    pub fn connect(left: PVarPtr, right: PVarPtr) -> (r: Self)
        ensures
            r.is_connect(left, right),
    {
        let mut eqn = Equation(0, PhantomData);
        proof {
            lemma_equation_bits(0, 0);
            lemma_and_le_u32(left.0 >> 0u8, 0xffffff);
            lemma_and_le_u32(right.0 >> 0u8, 0xffffff);
        }
        eqn.set_kind(EquationKind::Connect);
        eqn.set_left(left.get_ptr());
        eqn.set_right(right.get_ptr());
        eqn
    }

    /// The kind of the equation.
    pub fn get_kind(&self) -> (r: EquationKind)
        requires
            self.wf(),
        ensures
            r == self.kind_of(),
    {
        EquationKind::from_u64(Self::kind_field().get(self.0))
    }

    /// Gives the equation the kind `kind`, keeping its sides.
    pub fn set_kind(&mut self, kind: EquationKind)
        ensures
            final(self).kind_of() == kind,
            final(self).kind_bits() == equation_kind_code(kind),
            final(self).left_bits() == old(self).left_bits(),
            final(self).right_bits() == old(self).right_bits(),
    {
        let field = Self::kind_field();
        let v = kind.code() as u64;
        proof {
            lemma_equation_bits(self.0, v);
        }
        self.0 = field.set(field.clear(self.0), v);
    }

    /// The word of the left side.
    pub fn get_left(&self) -> (r: u32)
        ensures
            r == self.left_bits(),
    {
        proof {
            lemma_and_le_u64(self.0 >> 31u8, 0x7fffffff);
        }
        Self::left_field().get(self.0) as u32
    }

    /// Puts the 24-bit word `value` on the left side.
    pub fn set_left(&mut self, value: u32)
        requires
            value <= 0xffffff,
        ensures
            final(self).left_bits() == value,
            final(self).kind_bits() == old(self).kind_bits(),
            final(self).right_bits() == old(self).right_bits(),
    {
        let field = Self::left_field();
        proof {
            lemma_equation_bits(self.0, value as u64);
        }
        self.0 = field.set(field.clear(self.0), value as u64);
    }

    /// The word of the right side.
    pub fn get_right(&self) -> (r: u32)
        ensures
            r == self.right_bits(),
    {
        proof {
            lemma_and_le_u64(self.0 >> 0u8, 0x7fffffff);
        }
        Self::right_field().get(self.0) as u32
    }

    /// Puts the 24-bit word `value` on the right side.
    pub fn set_right(&mut self, value: u32)
        requires
            value <= 0xffffff,
        ensures
            final(self).right_bits() == value,
            final(self).kind_bits() == old(self).kind_bits(),
            final(self).left_bits() == old(self).left_bits(),
    {
        let field = Self::right_field();
        proof {
            lemma_equation_bits(self.0, value as u64);
        }
        self.0 = field.set(field.clear(self.0), value as u64);
    }

    /// The pointer to this equation at `index`.
    pub fn to_ptr(&self, index: usize) -> (r: EquationPtr)
        requires
            self.wf(),
            index < EQUATION_INDEX_LIMIT,
        ensures
            r.index_of() == index,
            r.kind_of() == self.kind_of(),
            r.wf(),
    {
        EquationPtr::new(index, self.get_kind())
    }

    /// The constructor cell of a redex.
    pub fn get_redex_ctr(&self) -> (r: CellPtr)
        requires
            self.wf(),
            self.kind_of() == EquationKind::Redex,
        ensures
            r.0 == self.left_bits(),
    {
        CellPtr::from_u32(self.get_left())
    }

    /// The function cell of a redex.
    pub fn get_redex_fun(&self) -> (r: CellPtr)
        requires
            self.wf(),
            self.kind_of() == EquationKind::Redex,
        ensures
            r.0 == self.right_bits(),
    {
        CellPtr::from_u32(self.get_right())
    }

    /// The variable end of a bind.
    pub fn get_bind_var(&self) -> (r: PVarPtr)
        requires
            self.wf(),
            self.kind_of() == EquationKind::Bind,
        ensures
            r.0 == self.left_bits(),
    {
        PVarPtr::from_u32(self.get_left())
    }

    /// The cell of a bind.
    pub fn get_bind_cell(&self) -> (r: CellPtr)
        requires
            self.wf(),
            self.kind_of() == EquationKind::Bind,
        ensures
            r.0 == self.right_bits(),
    {
        CellPtr::from_u32(self.get_right())
    }

    /// The left variable end of a connection.
    pub fn get_connect_left(&self) -> (r: PVarPtr)
        requires
            self.wf(),
            self.kind_of() == EquationKind::Connect,
        ensures
            r.0 == self.left_bits(),
    {
        PVarPtr::from_u32(self.get_left())
    }

    /// The right variable end of a connection.
    pub fn get_connect_right(&self) -> (r: PVarPtr)
        requires
            self.wf(),
            self.kind_of() == EquationKind::Connect,
        ensures
            r.0 == self.right_bits(),
    {
        PVarPtr::from_u32(self.get_right())
    }

    /// The equation whose word is `value`.
    pub fn from_u64(value: u64) -> (r: Self)
        ensures
            r.0 == value,
    {
        Equation(value, PhantomData)
    }

    /// The kind (2 digits) and the two sides (31 digits each) in binary,
    /// separated by underscores.
    pub fn binary_string(&self) -> (r: String)
        requires
            self.wf(),
        ensures
            r@ == text::binary_padded(self.kind_bits() as nat, 2) + seq!['_']
                + text::binary_padded(self.left_bits() as nat, 31) + seq!['_']
                + text::binary_padded(self.right_bits() as nat, 31),
    {
        proof {
            reveal_strlit("_");
        }
        let mut s = String::new();
        text::push_binary_padded(&mut s, self.get_kind().code() as u64, 2);
        s.append("_");
        text::push_binary_padded(&mut s, self.get_left() as u64, 31);
        s.append("_");
        text::push_binary_padded(&mut s, self.get_right() as u64, 31);
        assert(s@ =~= text::binary_padded(self.kind_bits() as nat, 2) + seq!['_']
                + text::binary_padded(self.left_bits() as nat, 31) + seq!['_']
                + text::binary_padded(self.right_bits() as nat, 31));
        s
    }
}

/// The debug text of a variable end: `PVarPtr(` and its word in decimal,
/// then `)`.
pub open spec fn pvar_debug_text(word: u32) -> Seq<char> {
    "PVarPtr("@ + text::decimal(word as nat) + ")"@
}

/// The debug text of an equation: its word in 64 binary digits, its kind
/// and its two sides.
pub open spec fn equation_debug_text<T: TermFamily>(e: Equation<T>) -> Seq<char> {
    "Equation("@ + text::binary_padded(e.0 as nat, 64) + ") { kind: "@ + equation_kind_name(e.kind_of())
        + match e.kind_of() {
        EquationKind::Redex => ", left: "@ + cell_ptr_debug_text(CellPtr(e.left_bits() as u32))
            + ", right: "@ + cell_ptr_debug_text(CellPtr(e.right_bits() as u32)),
        EquationKind::Bind => ", var: "@ + pvar_debug_text(e.left_bits() as u32) + ", cell: "@
            + cell_ptr_debug_text(CellPtr(e.right_bits() as u32)),
        EquationKind::Connect => ", left: "@ + pvar_debug_text(e.left_bits() as u32) + ", right: "@
            + pvar_debug_text(e.right_bits() as u32),
    } + " }"@
}

/// Appends the debug text of a variable end.
fn push_pvar_debug(out: &mut String, p: PVarPtr)
    ensures
        final(out)@ == old(out)@ + pvar_debug_text(p.0),
{
    proof {
        reveal_strlit("PVarPtr(");
        reveal_strlit(")");
    }
    out.append("PVarPtr(");
    text::push_decimal(out, p.0 as u64);
    out.append(")");
}

impl<T: TermFamily> Equation<T> {
    /// `Equation(`, the word in 64 binary digits, `) { kind: `, the kind,
    /// the two sides and ` }`; the kind field must hold a kind.
    pub fn debug_string(&self) -> (r: String)
        requires
            self.wf(),
        ensures
            r@ == equation_debug_text(*self),
    {
        proof {
            reveal_strlit("Equation(");
            reveal_strlit(") { kind: ");
            reveal_strlit(", left: ");
            reveal_strlit(", right: ");
            reveal_strlit(", var: ");
            reveal_strlit(", cell: ");
            reveal_strlit(" }");
        }
        let mut s = text::lit("Equation(");
        text::push_binary_padded(&mut s, self.0, 64);
        s.append(") { kind: ");
        let kind = self.get_kind();
        let k = kind.debug_string();
        s.append(k.as_str());
        match kind {
            EquationKind::Redex => {
                s.append(", left: ");
                let l = self.get_redex_ctr().debug_string();
                s.append(l.as_str());
                s.append(", right: ");
                let r = self.get_redex_fun().debug_string();
                s.append(r.as_str());
            },
            EquationKind::Bind => {
                s.append(", var: ");
                push_pvar_debug(&mut s, self.get_bind_var());
                s.append(", cell: ");
                let c = self.get_bind_cell().debug_string();
                s.append(c.as_str());
            },
            EquationKind::Connect => {
                s.append(", left: ");
                push_pvar_debug(&mut s, self.get_connect_left());
                s.append(", right: ");
                push_pvar_debug(&mut s, self.get_connect_right());
            },
        }
        s.append(" }");
        assert(s@ =~= equation_debug_text(*self));
        s
    }
}

impl<T: TermFamily> ArenaValue<EquationPtr> for Equation<T> {
    open spec fn ptr_limit() -> nat {
        EQUATION_INDEX_LIMIT as nat
    }

    open spec fn ptr_ready(&self) -> bool {
        self.wf()
    }

    fn to_ptr(&self, index: usize) -> (r: EquationPtr) {
        EquationPtr::new(index, self.get_kind())
    }
}

/// The equations of a rule set.
pub type Equations<T> = Arena<Equation<T>, EquationPtr>;


/// The text of the equation `e`: `f = c` for the redex of the function
/// cell `f` and the constructor cell `c`, `v ← c` for the binding of the
/// variable `v` to the cell `c`, `l ↔ r` for the connection of the
/// variables `l` and `r`; nothing where a cell or a variable is missing.
pub open spec fn equation_text<T: TermFamily>(heap: &Heap<T>, symbols: &SymbolBook, e: Equation<T>) -> Option<Seq<char>> {
    let fuel = heap.cells_view().len();
    if !e.wf() {
        None
    } else {
        match e.kind_of() {
            EquationKind::Redex => match cell_text(heap, symbols, CellPtr(e.right_bits() as u32), fuel) {
                Some(f) => match cell_text(heap, symbols, CellPtr(e.left_bits() as u32), fuel) {
                    Some(c) => Some(f + seq![' ', '=', ' '] + c),
                    None => None,
                },
                None => None,
            },
            EquationKind::Bind => match var_text(heap, VarPtr(PVarPtr(e.left_bits() as u32).var_bits())) {
                Some(v) => match cell_text(heap, symbols, CellPtr(e.right_bits() as u32), fuel) {
                    Some(c) => Some(v + seq![' ', '←', ' '] + c),
                    None => None,
                },
                None => None,
            },
            EquationKind::Connect => match var_text(heap, VarPtr(PVarPtr(e.left_bits() as u32).var_bits())) {
                Some(l) => match var_text(heap, VarPtr(PVarPtr(e.right_bits() as u32).var_bits())) {
                    Some(r) => Some(l + seq![' ', '↔', ' '] + r),
                    None => None,
                },
                None => None,
            },
        }
    }
}

/// The texts of the equations of `body`, each after a space.
pub open spec fn equations_text<T: TermFamily>(heap: &Heap<T>, symbols: &SymbolBook, body: Seq<Equation<T>>) -> Option<Seq<char>>
    decreases body.len(),
{
    if body.len() == 0 {
        Some(Seq::<char>::empty())
    } else {
        match equations_text(heap, symbols, body.drop_last()) {
            Some(a) => match equation_text(heap, symbols, body.last()) {
                Some(b) => Some(a + seq![' '] + b),
                None => None,
            },
            None => None,
        }
    }
}

impl<T: TermFamily> Equation<T> {
    /// The equation with the book of its symbols and its heap, ready to be
    /// shown.
    pub fn display_equation<'a>(&'a self, symbols: &'a SymbolBook, heap: &'a Heap<T>) -> (r: EquationDisplay<'a, T>)
        ensures
            r.equation == self,
            r.symbols == symbols,
            r.heap == heap,
    {
        EquationDisplay { equation: self, symbols, heap }
    }
}

/// An equation with its symbols and its heap, ready to be shown.
pub struct EquationDisplay<'a, T: TermFamily> {
    pub equation: &'a Equation<T>,
    pub symbols: &'a SymbolBook,
    pub heap: &'a Heap<T>,
}

impl<'a, T: TermFamily> EquationDisplay<'a, T> {
    /// The equation's text, if every cell and variable it reaches is held.
    pub fn try_to_string(&self) -> (r: Option<String>)
        requires
            self.symbols.wf(),
        ensures
            r is None <==> equation_text(self.heap, self.symbols, *self.equation) is None,
            r matches Some(s) ==> equation_text(self.heap, self.symbols, *self.equation) == Some(s@),
    {
        proof {
            reveal_strlit(" = ");
            reveal_strlit(" ← ");
            reveal_strlit(" ↔ ");
        }
        let e = self.equation;
        let fuel = self.heap.cells.slots();
        if !((e.0 >> 62u8) & 3 <= 2) {
            return None;
        }
        match e.get_kind() {
            EquationKind::Redex => {
                let f = match self.heap.cell_string(self.symbols, e.get_redex_fun(), fuel) {
                    Some(t) => t,
                    None => {
                        return None;
                    },
                };
                let c = match self.heap.cell_string(self.symbols, e.get_redex_ctr(), fuel) {
                    Some(t) => t,
                    None => {
                        return None;
                    },
                };
                let mut s = f;
                s.append(" = ");
                s.append(c.as_str());
                Some(s)
            },
            EquationKind::Bind => {
                let v = match self.heap.var_string(self.symbols, e.get_bind_var().get_fvar_ptr()) {
                    Some(t) => t,
                    None => {
                        return None;
                    },
                };
                let c = match self.heap.cell_string(self.symbols, e.get_bind_cell(), fuel) {
                    Some(t) => t,
                    None => {
                        return None;
                    },
                };
                let mut s = v;
                s.append(" ← ");
                s.append(c.as_str());
                Some(s)
            },
            EquationKind::Connect => {
                let l = match self.heap.var_string(self.symbols, e.get_connect_left().get_fvar_ptr()) {
                    Some(t) => t,
                    None => {
                        return None;
                    },
                };
                let r = match self.heap.var_string(self.symbols, e.get_connect_right().get_fvar_ptr()) {
                    Some(t) => t,
                    None => {
                        return None;
                    },
                };
                let mut s = l;
                s.append(" ↔ ");
                s.append(r.as_str());
                Some(s)
            },
        }
    }

    /// The equation's text; every cell and variable it reaches must be held.
    pub fn to_string(&self) -> (r: String)
        requires
            self.symbols.wf(),
            equation_text(self.heap, self.symbols, *self.equation) is Some,
        ensures
            equation_text(self.heap, self.symbols, *self.equation) == Some(r@),
    {
        match self.try_to_string() {
            Some(s) => s,
            None => vstd::pervasive::unreached(),
        }
    }
}

/// A list of equations with their symbols and their heap, ready to be
/// shown.
pub struct EquationsDisplay<'a, T: TermFamily> {
    pub symbols: &'a SymbolBook,
    pub body: &'a Vec<Equation<T>>,
    pub heap: &'a Heap<T>,
}

impl<'a, T: TermFamily> EquationsDisplay<'a, T> {
    /// The display of one of the equations.
    pub fn to_equation_item(&self, equation: &'a Equation<T>) -> (r: EquationDisplay<'a, T>)
        ensures
            r.equation == equation,
            r.symbols == self.symbols,
            r.heap == self.heap,
    {
        EquationDisplay { equation, symbols: self.symbols, heap: self.heap }
    }

    /// The equations' texts, each after a space, if every cell and variable
    /// they reach is held.
    pub fn try_to_string(&self) -> (r: Option<String>)
        requires
            self.symbols.wf(),
        ensures
            r is None <==> equations_text(self.heap, self.symbols, self.body@) is None,
            r matches Some(s) ==> equations_text(self.heap, self.symbols, self.body@) == Some(s@),
    {
        proof {
            reveal_strlit(" ");
        }
        let mut out = String::new();
        let mut i: usize = 0;
        assert(self.body@.take(0) =~= Seq::<Equation<T>>::empty());
        while i < self.body.len()
            invariant
                self.symbols.wf(),
                i <= self.body@.len(),
                equations_text(self.heap, self.symbols, self.body@.take(i as int)) == Some(out@),
            decreases self.body@.len() - i,
        {
            proof {
                reveal_strlit(" ");
                assert(self.body@.take(i + 1).drop_last() =~= self.body@.take(i as int));
            }
            let item = self.to_equation_item(&self.body[i]);
            match item.try_to_string() {
                Some(t) => {
                    out.append(" ");
                    out.append(t.as_str());
                },
                None => {
                    proof {
                        lemma_equations_text_none(self.heap, self.symbols, self.body@, i as int);
                    }
                    return None;
                },
            }
            i = i + 1;
        }
        assert(self.body@.take(self.body@.len() as int) =~= self.body@);
        Some(out)
    }

    /// The equations' texts, each after a space; every cell and variable
    /// they reach must be held.
    pub fn to_string(&self) -> (r: String)
        requires
            self.symbols.wf(),
            equations_text(self.heap, self.symbols, self.body@) is Some,
        ensures
            equations_text(self.heap, self.symbols, self.body@) == Some(r@),
    {
        match self.try_to_string() {
            Some(s) => s,
            None => vstd::pervasive::unreached(),
        }
    }
}

/// One equation without a text leaves the whole list without one.
pub proof fn lemma_equations_text_none<T: TermFamily>(heap: &Heap<T>, symbols: &SymbolBook, body: Seq<Equation<T>>, i: int)
    requires
        0 <= i < body.len(),
        equation_text(heap, symbols, body[i]) is None,
    ensures
        equations_text(heap, symbols, body) is None,
    decreases body.len(),
{
    if i < body.len() - 1 {
        lemma_equations_text_none(heap, symbols, body.drop_last(), i);
    }
}


/// Writes equations, cells and variables into the parts of a net (or of
/// anything with a head, equations and a heap); the first failure stops it.
pub struct EquationBuilder<'a, F: TermFamily> {
    symbols: &'a SymbolBook,
    head: Vec<PVarPtr>,
    equations: Vec<Equation<F>>,
    heap: Heap<F>,
    error: Option<BuildError>,
}

impl<'a, F: TermFamily> EquationBuilder<'a, F> {
    /// The book of symbols that names resolve in.
    pub closed spec fn book(self) -> &'a SymbolBook {
        self.symbols
    }

    /// The interface ends written so far.
    pub closed spec fn head_view(self) -> Seq<PVarPtr> {
        self.head@
    }

    /// The equations written so far.
    pub closed spec fn equations_view(self) -> Seq<Equation<F>> {
        self.equations@
    }

    /// The heap written to.
    pub closed spec fn heap_of(self) -> Heap<F> {
        self.heap
    }

    /// The first failure, if any.
    pub closed spec fn failed(self) -> Option<BuildError> {
        self.error
    }

    /// The book and the heap keep their invariants.
    pub closed spec fn wf(self) -> bool {
        &&& self.symbols.wf()
        &&& self.heap.wf()
    }

    /// `self` comes from `prev` by writing: the book is the same and a
    /// failure stays.
    pub closed spec fn extends(self, prev: Self) -> bool {
        &&& self.symbols == prev.symbols
        &&& (prev.error is Some ==> self.error == prev.error)
        &&& self.head@.len() >= prev.head@.len()
        &&& forall|i: int| 0 <= i < prev.head@.len() ==> #[trigger] self.head@[i] == prev.head@[i]
        &&& self.equations@.len() >= prev.equations@.len()
        &&& forall|i: int| 0 <= i < prev.equations@.len() ==> #[trigger] self.equations@[i] == prev.equations@[i]
    }

    /// Writing keeps the book, a failure, and the head and the equations
    /// written before.
    pub broadcast proof fn lemma_extends(a: Self, b: Self)
        requires
            #[trigger] b.extends(a),
        ensures
            b.book() == a.book(),
            a.failed() is Some ==> b.failed() == a.failed(),
            b.head_view().len() >= a.head_view().len(),
            forall|i: int| 0 <= i < a.head_view().len() ==> #[trigger] b.head_view()[i] == a.head_view()[i],
            b.equations_view().len() >= a.equations_view().len(),
            forall|i: int| 0 <= i < a.equations_view().len() ==> #[trigger] b.equations_view()[i] == a.equations_view()[i],
    {
    }

    /// Writing in steps is writing.
    pub broadcast proof fn lemma_extends_trans(a: Self, b: Self, c: Self)
        requires
            #[trigger] b.extends(a),
            #[trigger] c.extends(b),
        ensures
            c.extends(a),
    {
    }

    /// A builder writing after `head`, `equations` and into `heap`.
    pub fn new(symbols: &'a SymbolBook, head: Vec<PVarPtr>, equations: Vec<Equation<F>>, heap: Heap<F>) -> (r: Self)
        ensures
            r.book() == symbols,
            r.head_view() == head@,
            r.equations_view() == equations@,
            r.heap_of() == heap,
            r.failed() is None,
            symbols.wf() && heap.wf() ==> r.wf(),
    {
        Self { symbols, head, equations, heap, error: None }
    }

    /// What the invariant gives the builder's users.
    pub proof fn lemma_wf(self)
        requires
            self.wf(),
        ensures
            self.book().wf(),
            self.heap_of().wf(),
    {
    }

    /// The head, the equations and the heap written, and the first failure.
    pub fn build(self) -> (r: (Vec<PVarPtr>, Vec<Equation<F>>, Heap<F>, Option<BuildError>))
        ensures
            r.0@ == self.head_view(),
            r.1@ == self.equations_view(),
            r.2 == self.heap_of(),
            r.3 == self.failed(),
    {
        (self.head, self.equations, self.heap, self.error)
    }

    fn record(&mut self, e: BuildError)
        requires
            old(self).wf(),
        ensures
            final(self).wf(),
            final(self).extends(*old(self)),
            final(self).head == old(self).head,
            final(self).equations == old(self).equations,
            final(self).heap == old(self).heap,
            old(self).error is None ==> final(self).error == Some(e),
    {
        if self.error.is_none() {
            self.error = Some(e);
        }
    }

    /// Adds the redex of the constructor cell `ctr_ptr` and the function
    /// cell `fun_ptr`; `ctr_ptr` must be positive and `fun_ptr` negative.
    pub fn redex(&mut self, ctr_ptr: CellPtr, fun_ptr: CellPtr)
        requires
            old(self).wf(),
        ensures
            final(self).wf(),
            final(self).extends(*old(self)),
            final(self).heap_of() == old(self).heap_of(),
            final(self).head_view() == old(self).head_view(),
            old(self).failed() is Some ==> *final(self) == *old(self),
            old(self).failed() is None && !(ctr_ptr.polarity_of() == Polarity::Pos
                && fun_ptr.polarity_of() == Polarity::Neg) ==> final(self).failed() == Some(
                BuildError::ShortCircuit,
            ) && final(self).equations_view() == old(self).equations_view(),
            old(self).failed() is None && ctr_ptr.polarity_of() == Polarity::Pos
                && fun_ptr.polarity_of() == Polarity::Neg ==> {
                &&& final(self).failed() is None
                &&& final(self).equations_view().len() == old(self).equations_view().len() + 1
                &&& final(self).equations_view().drop_last() == old(self).equations_view()
                &&& final(self).equations_view().last().is_redex(ctr_ptr, fun_ptr)
            },
    {
        if self.error.is_some() {
            return;
        }
        match (ctr_ptr.get_polarity(), fun_ptr.get_polarity()) {
            (Polarity::Pos, Polarity::Neg) => {},
            _ => {
                self.record(BuildError::ShortCircuit);
                return;
            },
        }
        self.equations.push(Equation::redex(ctr_ptr, fun_ptr));
        assert(self.equations@.drop_last() =~= old(self).equations@);
    }

    /// Adds the binding of the variable end `var_ptr` to the cell
    /// `cell_ptr`.
    pub fn bind(&mut self, var_ptr: PVarPtr, cell_ptr: CellPtr)
        requires
            old(self).wf(),
        ensures
            final(self).wf(),
            final(self).extends(*old(self)),
            final(self).heap_of() == old(self).heap_of(),
            final(self).head_view() == old(self).head_view(),
            final(self).failed() == old(self).failed(),
            old(self).failed() is Some ==> *final(self) == *old(self),
            old(self).failed() is None ==> {
                &&& final(self).equations_view().len() == old(self).equations_view().len() + 1
                &&& final(self).equations_view().drop_last() == old(self).equations_view()
                &&& final(self).equations_view().last().is_bind(var_ptr, cell_ptr)
            },
    {
        if self.error.is_some() {
            return;
        }
        self.equations.push(Equation::bind(var_ptr, cell_ptr));
        assert(self.equations@.drop_last() =~= old(self).equations@);
    }

    /// Adds the connection of the variable ends `left_ptr` and `right_ptr`,
    /// which must have different polarities.
    pub fn connect(&mut self, left_ptr: PVarPtr, right_ptr: PVarPtr)
        requires
            old(self).wf(),
        ensures
            final(self).wf(),
            final(self).extends(*old(self)),
            final(self).heap_of() == old(self).heap_of(),
            final(self).head_view() == old(self).head_view(),
            old(self).failed() is Some ==> *final(self) == *old(self),
            old(self).failed() is None && left_ptr.polarity_of() == right_ptr.polarity_of() ==> final(
                self).failed() == Some(BuildError::ShortCircuit) && final(self).equations_view()
                == old(self).equations_view(),
            old(self).failed() is None && left_ptr.polarity_of() != right_ptr.polarity_of() ==> {
                &&& final(self).failed() is None
                &&& final(self).equations_view().len() == old(self).equations_view().len() + 1
                &&& final(self).equations_view().drop_last() == old(self).equations_view()
                &&& final(self).equations_view().last().is_connect(left_ptr, right_ptr)
            },
    {
        if self.error.is_some() {
            return;
        }
        if left_ptr.get_polarity() == right_ptr.get_polarity() {
            self.record(BuildError::ShortCircuit);
            return;
        }
        self.equations.push(Equation::connect(left_ptr, right_ptr));
        assert(self.equations@.drop_last() =~= old(self).equations@);
    }

    /// Makes a cell of the symbol named `name`, without ports.
    pub fn cell0(&mut self, name: &SymbolName) -> (r: CellPtr)
        requires
            old(self).wf(),
        ensures
            r.ptr_bits() < 0xffffff,
            final(self).wf(),
            final(self).extends(*old(self)),
            final(self).head_view() == old(self).head_view(),
            final(self).equations_view() == old(self).equations_view(),
            old(self).failed() is Some ==> *final(self) == *old(self),
            old(self).failed() is None ==> final(self).failed() == cell0_error(
                old(self).book(),
                old(self).heap_of(),
                name.0@,
            ),
            old(self).failed() is None && final(self).failed() is Some ==> final(self).heap_of() == old(self).heap_of(),
            old(self).failed() is None && final(self).failed() is None ==> {
                &&& cell_added(old(self).heap_of(), final(self).heap_of(), r, final(self).heap_of().cell_at(r).symbol_of())
                &&& last_index_of(old(self).book().names_view(), name.0@) == Some(final(self).heap_of().cell_at(r).symbol_of().index_of())
                &&& old(self).book().ptr_at(
                    final(self).heap_of().cell_at(r).symbol_of(),
                    final(self).heap_of().cell_at(r).symbol_of().index_of(),
                )
            },
    {
        if self.error.is_some() {
            return null_cell();
        }
        match self.heap.try_cell0(self.symbols, name) {
            Ok(c) => c,
            Err(e) => {
                self.record(e);
                null_cell()
            },
        }
    }

    /// Makes a cell of the symbol named `name` with `left_port` in its port.
    pub fn cell1(&mut self, name: &SymbolName, left_port: TermPtr) -> (r: CellPtr)
        requires
            old(self).wf(),
        ensures
            r.ptr_bits() < 0xffffff,
            final(self).wf(),
            final(self).extends(*old(self)),
            final(self).head_view() == old(self).head_view(),
            final(self).equations_view() == old(self).equations_view(),
            old(self).failed() is Some ==> *final(self) == *old(self),
            old(self).failed() is None ==> final(self).failed() == cell1_error(
                old(self).book(),
                old(self).heap_of(),
                name.0@,
                left_port,
            ),
            old(self).failed() is None && final(self).failed() is Some ==> final(self).heap_of() == old(self).heap_of(),
            old(self).failed() is None && final(self).failed() is None ==> {
                &&& cell_added(old(self).heap_of(), final(self).heap_of(), r, final(self).heap_of().cell_at(r).symbol_of())
                &&& last_index_of(old(self).book().names_view(), name.0@) == Some(final(self).heap_of().cell_at(r).symbol_of().index_of())
                &&& old(self).book().ptr_at(
                    final(self).heap_of().cell_at(r).symbol_of(),
                    final(self).heap_of().cell_at(r).symbol_of().index_of(),
                )
                &&& final(self).heap_of().cell_at(r).left_of() == left_port
            },
    {
        if self.error.is_some() {
            return null_cell();
        }
        match self.heap.try_cell1(self.symbols, name, left_port) {
            Ok(c) => c,
            Err(e) => {
                self.record(e);
                null_cell()
            },
        }
    }

    /// Makes a cell of the symbol named `name` with `left_port` and
    /// `right_port` in its ports.
    pub fn cell2(&mut self, name: &SymbolName, left_port: TermPtr, right_port: TermPtr) -> (r: CellPtr)
        requires
            old(self).wf(),
        ensures
            r.ptr_bits() < 0xffffff,
            final(self).wf(),
            final(self).extends(*old(self)),
            final(self).head_view() == old(self).head_view(),
            final(self).equations_view() == old(self).equations_view(),
            old(self).failed() is Some ==> *final(self) == *old(self),
            old(self).failed() is None ==> final(self).failed() == cell2_error(
                old(self).book(),
                old(self).heap_of(),
                name.0@,
                left_port,
                right_port,
            ),
            old(self).failed() is None && final(self).failed() is Some ==> final(self).heap_of() == old(self).heap_of(),
            old(self).failed() is None && final(self).failed() is None ==> {
                &&& cell_added(old(self).heap_of(), final(self).heap_of(), r, final(self).heap_of().cell_at(r).symbol_of())
                &&& last_index_of(old(self).book().names_view(), name.0@) == Some(final(self).heap_of().cell_at(r).symbol_of().index_of())
                &&& old(self).book().ptr_at(
                    final(self).heap_of().cell_at(r).symbol_of(),
                    final(self).heap_of().cell_at(r).symbol_of().index_of(),
                )
                &&& final(self).heap_of().cell_at(r).left_of() == left_port
                &&& final(self).heap_of().cell_at(r).right_of() == right_port
            },
    {
        if self.error.is_some() {
            return null_cell();
        }
        match self.heap.try_cell2(self.symbols, name, left_port, right_port) {
            Ok(c) => c,
            Err(e) => {
                self.record(e);
                null_cell()
            },
        }
    }

    /// A new variable of the heap with store `var`: its negative and its
    /// positive end.
    fn new_var(&mut self, var: Var<F>) -> (r: (PVarPtr, PVarPtr))
        requires
            old(self).wf(),
            old(self).error is None,
        ensures
            r.0.ptr_bits() < 0xffffff,
            r.1.ptr_bits() < 0xffffff,
            final(self).wf(),
            final(self).extends(*old(self)),
            final(self).equations == old(self).equations,
            final(self).head == old(self).head,
            !old(self).heap.var_room() ==> final(self).error == Some(BuildError::OutOfRoom)
                && final(self).heap == old(self).heap,
            old(self).heap.var_room() ==> {
                &&& final(self).error is None
                &&& final(self).heap.cells == old(self).heap.cells
                &&& final(self).heap.vars_view() == old(self).heap.vars_view().push(Some(var))
                &&& r.0.made(old(self).heap.vars_view().len(), Polarity::Neg)
                &&& r.1.made(old(self).heap.vars_view().len(), Polarity::Pos)
            },
    {
        if !self.heap.can_store_var() {
            self.record(BuildError::OutOfRoom);
            return (null_pvar(), null_pvar());
        }
        let ptr = match var {
            Var::Bound(store) => self.heap.bvar(store),
            Var::Free(store) => self.heap.fvar(store),
        };
        PVarPtr::wire(ptr)
    }

    /// A new free variable taken in by the net: its negative end goes to
    /// the head, its positive end is given back.
    pub fn input(&mut self) -> (r: PVarPtr)
        requires
            old(self).wf(),
        ensures
            r.ptr_bits() < 0xffffff,
            final(self).wf(),
            final(self).extends(*old(self)),
            final(self).equations_view() == old(self).equations_view(),
            old(self).failed() is Some ==> *final(self) == *old(self),
            old(self).failed() is None ==> var_outcome(*old(self), *final(self), Var::<F>::Free(F::free_default()), Polarity::Neg, r),
    {
        if self.error.is_some() {
            return null_pvar();
        }
        let (neg_pvar, pos_pvar) = self.new_var(Var::Free(F::default_free()));
        if self.error.is_some() {
            return null_pvar();
        }
        self.head.push(neg_pvar);
        assert(self.head@.drop_last() =~= old(self).head@);
        pos_pvar
    }

    /// A new free variable given out by the net: its positive end goes to
    /// the head, its negative end is given back.
    pub fn output(&mut self) -> (r: PVarPtr)
        requires
            old(self).wf(),
        ensures
            r.ptr_bits() < 0xffffff,
            final(self).wf(),
            final(self).extends(*old(self)),
            final(self).equations_view() == old(self).equations_view(),
            old(self).failed() is Some ==> *final(self) == *old(self),
            old(self).failed() is None ==> var_outcome(*old(self), *final(self), Var::<F>::Free(F::free_default()), Polarity::Pos, r),
    {
        if self.error.is_some() {
            return null_pvar();
        }
        let (neg_pvar, pos_pvar) = self.new_var(Var::Free(F::default_free()));
        if self.error.is_some() {
            return null_pvar();
        }
        self.head.push(pos_pvar);
        assert(self.head@.drop_last() =~= old(self).head@);
        neg_pvar
    }

    /// A new bound variable: its negative and its positive end.
    pub fn var(&mut self) -> (r: (PVarPtr, PVarPtr))
        requires
            old(self).wf(),
        ensures
            r.0.ptr_bits() < 0xffffff,
            r.1.ptr_bits() < 0xffffff,
            final(self).wf(),
            final(self).extends(*old(self)),
            final(self).equations_view() == old(self).equations_view(),
            final(self).head_view() == old(self).head_view(),
            old(self).failed() is Some ==> *final(self) == *old(self),
            old(self).failed() is None && !old(self).heap_of().var_room() ==> final(self).failed() == Some(BuildError::OutOfRoom)
                && final(self).heap_of() == old(self).heap_of(),
            old(self).failed() is None && old(self).heap_of().var_room() ==> {
                &&& final(self).failed() is None
                &&& final(self).heap_of().cells == old(self).heap_of().cells
                &&& final(self).heap_of().vars_view() == old(self).heap_of().vars_view().push(Some(Var::<F>::Bound(F::bound_default())))
                &&& r.0.made(old(self).heap_of().vars_view().len(), Polarity::Neg)
                &&& r.1.made(old(self).heap_of().vars_view().len(), Polarity::Pos)
            },
    {
        if self.error.is_some() {
            return (null_pvar(), null_pvar());
        }
        self.new_var(Var::Bound(F::default_bound()))
    }
}

/// What making an interface variable with store `var` did, from a builder
/// without failure `old` to `new`, giving `r`: the head gains the end of
/// polarity `kept`, and `r` is the other end.
pub open spec fn var_outcome<'a, F: TermFamily>(old: EquationBuilder<'a, F>, new: EquationBuilder<'a, F>, var: Var<F>, kept: Polarity, r: PVarPtr) -> bool {
    if !old.heap_of().var_room() {
        &&& new.failed() == Some(BuildError::OutOfRoom)
        &&& new.heap_of() == old.heap_of()
        &&& new.head_view() == old.head_view()
    } else {
        let index = old.heap_of().vars_view().len();
        &&& new.failed() is None
        &&& new.heap_of().cells == old.heap_of().cells
        &&& new.heap_of().vars_view() == old.heap_of().vars_view().push(Some(var))
        &&& new.head_view().len() == old.head_view().len() + 1
        &&& new.head_view().drop_last() == old.head_view()
        &&& new.head_view().last().made(index, kept)
        &&& r.made(index, flip_spec(kept))
    }
}


/// The text of a redex is the text of its function cell, ` = `, then the
/// text of its constructor cell; it exists exactly when both cells have a
/// text.
pub proof fn law_redex_text_shows_function_then_constructor<T: TermFamily>(
    heap: &Heap<T>,
    symbols: &SymbolBook,
    e: Equation<T>,
    ctr: CellPtr,
    fun: CellPtr,
)
    requires
        e.is_redex(ctr, fun),
        ctr.0 >> 24u8 == 0,
        fun.0 >> 24u8 == 0,
    ensures
        ({
            let fuel = heap.cells_view().len();
            &&& equation_text(heap, symbols, e) is Some <==> (cell_text(heap, symbols, fun, fuel) is Some && cell_text(
                heap,
                symbols,
                ctr,
                fuel,
            ) is Some)
            &&& equation_text(heap, symbols, e) matches Some(t) ==> t == cell_text(heap, symbols, fun, fuel)->0
                + seq![' ', '=', ' '] + cell_text(heap, symbols, ctr, fuel)->0
        }),
{
    crate::rule::lemma_pointer_word(ctr.0);
    crate::rule::lemma_pointer_word(fun.0);
    assert(CellPtr(e.left_bits() as u32) == ctr);
    assert(CellPtr(e.right_bits() as u32) == fun);
}


/// The text of a binding is the text of its variable, ` ← `, then the text
/// of its cell; the text of a connection is the text of its left variable,
/// ` ↔ `, then the text of its right one.
pub proof fn law_bind_and_connect_texts<T: TermFamily>(
    heap: &Heap<T>,
    symbols: &SymbolBook,
    e: Equation<T>,
    v: PVarPtr,
    w: PVarPtr,
    c: CellPtr,
)
    requires
        v.0 >> 24u8 == 0,
        w.0 >> 24u8 == 0,
        c.0 >> 24u8 == 0,
    ensures
        ({
            let fuel = heap.cells_view().len();
            &&& e.is_bind(v, c) ==> equation_text(heap, symbols, e) == (match (var_text(heap, VarPtr(v.var_bits())), cell_text(heap, symbols, c, fuel)) {
                (Some(x), Some(y)) => Some(x + seq![' ', '←', ' '] + y),
                _ => None,
            })
            &&& e.is_connect(v, w) ==> equation_text(heap, symbols, e) == (match (var_text(heap, VarPtr(v.var_bits())), var_text(heap, VarPtr(w.var_bits()))) {
                (Some(x), Some(y)) => Some(x + seq![' ', '↔', ' '] + y),
                _ => None,
            })
        }),
{
    crate::rule::lemma_pointer_word(v.0);
    crate::rule::lemma_pointer_word(w.0);
    crate::rule::lemma_pointer_word(c.0);
}

} // verus!
