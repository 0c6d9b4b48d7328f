//! An interaction net runtime.
//!
//! Symbols, cells, variables and equations are packed into small bit fields;
//! rules rewrite a redex (a constructor cell facing a function cell) into a
//! new set of equations, and the runtime reduces a net until no work is left.
use vstd::prelude::*;

pub mod arena;
pub mod arenaraw;
pub mod bitset;
pub mod cell;
pub mod equation;
pub mod examples;
pub mod finally;
pub mod heap;
pub mod id_arena;
pub mod net;
pub mod rule;
pub mod runtime;
pub mod symbol;
pub mod term;
pub mod text;
pub mod util;
pub mod var;

verus! {

/// The polarity of a cell, a port or a variable end: positive ends produce,
/// negative ends consume.
#[derive(PartialEq, Eq, Structural, Clone, Copy, Debug, Hash)]
pub enum Polarity {
    Pos,
    Neg,
}

/// The numeric code of a polarity in the bit fields: `Pos` is 0, `Neg` is 1.
pub open spec fn polarity_code(p: Polarity) -> int {
    match p {
        Polarity::Pos => 0,
        Polarity::Neg => 1,
    }
}

/// The polarity that a numeric code below 2 stands for.
pub open spec fn polarity_of_code(code: int) -> Polarity {
    if code == 0 {
        Polarity::Pos
    } else {
        Polarity::Neg
    }
}

/// The opposite polarity.
pub open spec fn flip_spec(p: Polarity) -> Polarity {
    match p {
        Polarity::Pos => Polarity::Neg,
        Polarity::Neg => Polarity::Pos,
    }
}

impl Polarity {
    /// The largest numeric code of a polarity.
    pub const MAX: u8 = 1;

    /// The polarity with code `value`; only 0 and 1 are codes.
    pub fn from_u8(value: u8) -> (r: Polarity)
        requires
            value <= 1,
        ensures
            r == polarity_of_code(value as int),
            polarity_code(r) == value,
    {
        if value == 0 {
            Polarity::Pos
        } else {
            Polarity::Neg
        }
    }

    /// The polarity with code `value`; only 0 and 1 are codes.
    pub fn from_u16(value: u16) -> (r: Polarity)
        requires
            value <= 1,
        ensures
            r == polarity_of_code(value as int),
            polarity_code(r) == value,
    {
        if value == 0 {
            Polarity::Pos
        } else {
            Polarity::Neg
        }
    }

    /// The polarity with code `value`; only 0 and 1 are codes.
    pub fn from_u32(value: u32) -> (r: Polarity)
        requires
            value <= 1,
        ensures
            r == polarity_of_code(value as int),
            polarity_code(r) == value,
    {
        if value == 0 {
            Polarity::Pos
        } else {
            Polarity::Neg
        }
    }

    /// The polarity with code `value`; only 0 and 1 are codes.
    pub fn from_u64(value: u64) -> (r: Polarity)
        requires
            value <= 1,
        ensures
            r == polarity_of_code(value as int),
            polarity_code(r) == value,
    {
        if value == 0 {
            Polarity::Pos
        } else {
            Polarity::Neg
        }
    }

    /// The polarity with code `value`; only 0 and 1 are codes.
    pub fn from_usize(value: usize) -> (r: Polarity)
        requires
            value <= 1,
        ensures
            r == polarity_of_code(value as int),
            polarity_code(r) == value,
    {
        if value == 0 {
            Polarity::Pos
        } else {
            Polarity::Neg
        }
    }

    /// The numeric code of this polarity.
    pub fn code(&self) -> (r: u8)
        ensures
            r == polarity_code(*self),
            r <= 1,
    {
        match self {
            Polarity::Pos => 0,
            Polarity::Neg => 1,
        }
    }

    /// The opposite polarity.
    pub fn flip(&self) -> (r: Polarity)
        ensures
            r == flip_spec(*self),
            r != *self,
    {
        match self {
            Polarity::Pos => Polarity::Neg,
            Polarity::Neg => Polarity::Pos,
        }
    }

    /// Whether `pol` is the opposite of this polarity.
    pub fn is_opposite(&self, pol: Polarity) -> (r: bool)
        ensures
            r == (*self != pol),
            r == (pol == flip_spec(*self)),
    {
        *self != pol
    }

    /// `+` for a positive polarity, `-` for a negative one.
    pub fn to_string(&self) -> (r: String)
        ensures
            r@ == text::polarity_text(*self),
    {
        proof {
            reveal_strlit("+");
            reveal_strlit("-");
        }
        match self {
            Polarity::Pos => text::lit("+"),
            Polarity::Neg => text::lit("-"),
        }
    }
}

/// Values that have a polarity.
pub trait Polarized {
    fn polarity(&self) -> Polarity;
}

/// A code round-trips through its polarity.
pub proof fn lemma_polarity_code_roundtrip(p: Polarity)
    ensures
        polarity_of_code(polarity_code(p)) == p,
        0 <= polarity_code(p) <= 1,
{
}

/// Flipping twice gives back the polarity; flipping never keeps it.
pub proof fn lemma_flip_involutive(p: Polarity)
    ensures
        flip_spec(flip_spec(p)) == p,
        flip_spec(p) != p,
{
}

/// Why building a rule or a net stopped: the builder records the first of
/// these and makes nothing more.
#[derive(PartialEq, Eq, Structural, Clone, Copy, Debug)]
pub enum BuildError {
    /// A name that the symbol book does not declare.
    UnknownSymbol,
    /// Two ends of the same polarity were to be joined.
    ShortCircuit,
    /// A port that the symbol does not have.
    MissingPort,
    /// An arena, a pointer field or a counter is full.
    OutOfRoom,
    /// A term whose word does not fit a port.
    BadTerm,
}

} // verus!
