//! Terms: what can stand in a port, cells and variables.
use vstd::prelude::*;

use crate::finally::symbol::SymbolSym;

verus! {

/// What can stand in a port.
pub trait Port {
}

/// Makes cells of symbols with terms in their ports.
pub trait CellSym: SymbolSym {
    type Cell: Port;

    fn cell0(symbol: Self::Symbol) -> Self::Cell;

    fn cell1<P: Port>(symbol: Self::Symbol, port: P) -> Self::Cell;

    fn cell2<L: Port, R: Port>(symbol: Self::Symbol, left: L, right: R) -> Self::Cell;
}

/// Makes variables.
pub trait VarSym {
    type Var: Port;

    fn var<F>(scope: F) -> Self::Var where F: Fn();
}

} // verus!
