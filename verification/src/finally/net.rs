//! Equations and nets.
use vstd::prelude::*;

use crate::finally::term::{CellSym, VarSym};

verus! {

/// Makes equations between cells and variables.
pub trait EquationSym: VarSym + CellSym {
    type Equation;

    fn redex(fun: Self::Cell, ctr: Self::Cell) -> Self::Equation;

    fn bind(var: Self::Var, cell: Self::Cell) -> Self::Equation;

    fn connect(left: Self::Var, right: Self::Var) -> Self::Equation;
}

/// Makes nets with an input or an output variable.
pub trait NetSym: EquationSym {
    type Net;

    fn inp<F>(scope: F) -> Self::Net where F: Fn(Self::Var);

    fn out<F>(scope: F) -> Self::Net where F: Fn(Self::Var);
}

} // verus!
