//! Rules between two symbols.
use vstd::prelude::*;

use crate::finally::net::EquationSym;
use crate::finally::symbol::SymbolSym;

verus! {

/// Makes rules for the redex of two symbols.
pub trait RuleSym: EquationSym + SymbolSym {
    type Rule;

    type RuleBuilder;

    fn rule<F>(left: Self::Symbol, right: Self::Symbol) -> Self::RuleBuilder where F: Fn(Self::Equation);
}

} // verus!
