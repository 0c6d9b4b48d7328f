//! Symbols as plain values with their names, and a book that would hold
//! them.
use vstd::prelude::*;
use std::collections::HashMap;

use crate::finally::symbol::{kind_polarity, Polarity, SymbolArity, SymbolKind, SymbolSym};
use crate::text;

verus! {

/// A symbol: its name, arity, polarity and the polarities of its ports.
pub struct SymbolVal {
    pub name: String,
    pub arity: SymbolArity,
    pub polarity: Polarity,
    pub left_polarity: Option<Polarity>,
    pub right_polarity: Option<Polarity>,
}

/// The symbols with indexes from names to symbols and back.
pub struct SymbolBook {
    pub symbols: Vec<SymbolVal>,
    pub symbol_by_name: HashMap<String, usize>,
    pub name_by_symbol: HashMap<usize, String>,
}

impl SymbolSym for SymbolBook {
    type Symbol = SymbolVal;

    /// A symbol named `name` of kind `kind` without ports.
    fn symbol0(name: &str, kind: SymbolKind) -> (r: SymbolVal)
        ensures
            r.name@ == name@,
            r.arity == SymbolArity::Zero,
            r.polarity == kind_polarity(kind),
            r.left_polarity is None,
            r.right_polarity is None,
    {
        SymbolVal {
            name: text::lit(name),
            arity: SymbolArity::Zero,
            polarity: Polarity::from_kind(kind),
            left_polarity: None,
            right_polarity: None,
        }
    }

    /// A symbol named `name` of kind `kind` with the port polarity
    /// `port_polarity`; its arity is recorded as zero.
    fn symbol1(name: &str, kind: SymbolKind, port_polarity: Polarity) -> (r: SymbolVal)
        ensures
            r.name@ == name@,
            r.arity == SymbolArity::Zero,
            r.polarity == kind_polarity(kind),
            r.left_polarity == Some(port_polarity),
            r.right_polarity is None,
    {
        SymbolVal {
            name: text::lit(name),
            arity: SymbolArity::Zero,
            polarity: Polarity::from_kind(kind),
            left_polarity: Some(port_polarity),
            right_polarity: None,
        }
    }

    /// A symbol named `name` of kind `kind` with the port polarities
    /// `left_polarity` and `right_polarity`; its arity is recorded as zero.
    fn symbol2(name: &str, kind: SymbolKind, left_polarity: Polarity, right_polarity: Polarity) -> (r: SymbolVal)
        ensures
            r.name@ == name@,
            r.arity == SymbolArity::Zero,
            r.polarity == kind_polarity(kind),
            r.left_polarity == Some(left_polarity),
            r.right_polarity == Some(right_polarity),
    {
        SymbolVal {
            name: text::lit(name),
            arity: SymbolArity::Zero,
            polarity: Polarity::from_kind(kind),
            left_polarity: Some(left_polarity),
            right_polarity: Some(right_polarity),
        }
    }
}

} // verus!
