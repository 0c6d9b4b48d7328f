//! Symbols: their arity, their kind and the polarity of their ports.
use vstd::prelude::*;

verus! {

/// The number of ports of a symbol.
pub enum SymbolArity {
    Zero,
    One,
    Two,
}

/// Whether a symbol is a function or a constructor.
#[derive(PartialEq, Eq, Structural, Clone, Copy, Debug)]
pub enum SymbolKind {
    Fun,
    Ctr,
}

/// The polarity of a symbol or a port.
#[derive(PartialEq, Eq, Structural, Clone, Copy, Debug)]
pub enum Polarity {
    Pos,
    Neg,
}

/// The polarity of a symbol of kind `kind`: functions are negative,
/// constructors positive.
pub open spec fn kind_polarity(kind: SymbolKind) -> Polarity {
    match kind {
        SymbolKind::Fun => Polarity::Neg,
        SymbolKind::Ctr => Polarity::Pos,
    }
}

impl Polarity {
    /// The polarity of a symbol of kind `kind`.
    pub fn from_kind(kind: SymbolKind) -> (r: Polarity)
        ensures
            r == kind_polarity(kind),
    {
        match kind {
            SymbolKind::Fun => Polarity::Neg,
            SymbolKind::Ctr => Polarity::Pos,
        }
    }
}

/// Makes symbols of no, one or two ports.
pub trait SymbolSym {
    type Symbol;

    fn symbol0(name: &str, kind: SymbolKind) -> Self::Symbol;

    fn symbol1(name: &str, kind: SymbolKind, port_polarity: Polarity) -> Self::Symbol;

    fn symbol2(name: &str, kind: SymbolKind, left_polarity: Polarity, right_polarity: Polarity) -> Self::Symbol;
}

} // verus!
