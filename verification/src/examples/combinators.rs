//! The duplicator.
use vstd::prelude::*;

use crate::cell::CellPtr;
use crate::equation::EquationBuilder;
use crate::examples::natural::{nat_declared, S, Z};
use crate::heap::{cell2_error, cells_kept, lemma_cell_added_keeps};
use crate::net::NetF;
use crate::rule::{
    binds, bound_cell, has_rule_for, lemma_pointer_word, lemma_set_grew_keeps, room_used, set_grew, set_room, term_holds,
    writing_rule_for, PortNum, Rule, RuleBuilder, RulePort, RuleSet,
};
use crate::symbol::{last_index_of, SymbolBook, SymbolName, SYMBOL_INDEX_LIMIT};
use crate::term::TermPtr;
use crate::var::Var;
use crate::{BuildError, Polarity};

verus! {

broadcast use {
    RuleBuilder::lemma_extends_trans,
    RuleBuilder::lemma_extends,
    EquationBuilder::lemma_extends_trans,
    EquationBuilder::lemma_extends,
};

/// The name of the duplicator.
pub const DUP: &'static str = "dup";

/// Zero, the successor and the duplicator are declared last as
/// `declare_nat_symbols` and `declare_combinator_symbols` declare them.
pub open spec fn combinator_declared(book: &SymbolBook) -> bool {
    &&& nat_declared(book)
    &&& last_index_of(book.names_view(), DUP@) matches Some(i) && book.symbols_view()[i as int].made2(
        Polarity::Neg,
        Polarity::Pos,
        Polarity::Pos,
    )
}

/// In `set`, `rule` is the rule `Z ⋈ (dup r₀ r₁) ⟶ r₀ ← Z, r₁ ← Z`: no
/// bound variable, and two equations binding the ends of the duplicator's
/// ports to zero cells.
pub open spec fn z_dup_rule<'a>(set: RuleSet<'a>, rule: Rule) -> bool {
    &&& rule.bvar_count == 0
    &&& rule.body@.len() == 2
    &&& binds(set, rule, 0, Var::Free(RulePort::Fun(PortNum::Zero)), Polarity::Neg, Z@)
    &&& binds(set, rule, 1, Var::Free(RulePort::Fun(PortNum::One)), Polarity::Neg, Z@)
}

/// In `set`, `rule` is the rule `(S l₀) ⋈ (dup r₀ r₁) ⟶ l₀ ← (dup x₀ x₁),
/// r₀ ← (S x₀), r₁ ← (S x₁)`: two bound variables `x₀` and `x₁`, and three
/// equations binding the end of the successor's port to a duplicator of
/// `x₀` and `x₁`, and the ends of the duplicator's ports to successors of
/// `x₀` and of `x₁`.
pub open spec fn s_dup_rule<'a>(set: RuleSet<'a>, rule: Rule) -> bool {
    &&& rule.bvar_count == 2
    &&& rule.body@.len() == 3
    &&& binds(set, rule, 0, Var::Free(RulePort::Ctr(PortNum::Zero)), Polarity::Pos, DUP@)
    &&& term_holds(set, bound_cell(set, rule, 0).left_of(), Var::Bound(0), Polarity::Neg)
    &&& term_holds(set, bound_cell(set, rule, 0).right_of(), Var::Bound(1), Polarity::Neg)
    &&& binds(set, rule, 1, Var::Free(RulePort::Fun(PortNum::Zero)), Polarity::Neg, S@)
    &&& term_holds(set, bound_cell(set, rule, 1).left_of(), Var::Bound(0), Polarity::Pos)
    &&& binds(set, rule, 2, Var::Free(RulePort::Fun(PortNum::One)), Polarity::Neg, S@)
    &&& term_holds(set, bound_cell(set, rule, 2).left_of(), Var::Bound(1), Polarity::Pos)
}

impl SymbolBook {
    /// Declares the duplicator: a function with two positive ports.
    pub fn declare_combinator_symbols(&mut self)
        requires
            old(self).wf(),
            old(self).symbols_view().len() + 1 <= SYMBOL_INDEX_LIMIT,
        ensures
            final(self).wf(),
            final(self).symbols_view().drop_last() == old(self).symbols_view(),
            final(self).symbols_view().len() == old(self).symbols_view().len() + 1,
            final(self).symbols_view().last().made2(Polarity::Neg, Polarity::Pos, Polarity::Pos),
            final(self).names_view() == old(self).names_view().push(DUP@),
    {
        self.fun2(&SymbolName(DUP), Polarity::Pos, Polarity::Pos);
    }
}

impl<'a> EquationBuilder<'a, NetF> {
    /// A duplicator cell with `dup1` and `dup2` in its ports.
    pub fn duplicator(&mut self, dup1: TermPtr, dup2: TermPtr) -> (r: CellPtr)
        requires
            old(self).wf(),
        ensures
            final(self).wf(),
            final(self).extends(*old(self)),
            r.ptr_bits() < 0xffffff,
            old(self).failed() is Some ==> *final(self) == *old(self),
            final(self).failed() is None ==> final(self).heap_of().has_cell(r) && last_index_of(
                final(self).book().names_view(),
                DUP@,
            ) == Some(final(self).heap_of().cell_at(r).symbol_of().index_of())
                && final(self).heap_of().cell_at(r).left_of() == dup1
                && final(self).heap_of().cell_at(r).right_of() == dup2,
            final(self).failed() is None ==> cells_kept(old(self).heap_of(), final(self).heap_of()),
            final(self).head_view() == old(self).head_view(),
            final(self).equations_view() == old(self).equations_view(),
            old(self).failed() is None ==> final(self).failed() == cell2_error(
                old(self).book(),
                old(self).heap_of(),
                DUP@,
                dup1,
                dup2,
            ),
            final(self).failed() is None ==> r.polarity_of() == old(self).book().symbols_view()[last_index_of(
                old(self).book().names_view(),
                DUP@,
            )->0 as int].polarity_of(),
    {
        let r = self.cell2(&SymbolName(DUP), dup1, dup2);
        proof {
            if self.failed() is None {
                lemma_cell_added_keeps(old(self).heap_of(), self.heap_of(), r, self.heap_of().cell_at(r).symbol_of());
            }
        }
        r
    }

    /// The redex of `cell` and a new duplicator with `dup1` and `dup2` in
    /// its ports.
    pub fn duplicate(&mut self, cell: CellPtr, dup1: TermPtr, dup2: TermPtr)
        requires
            old(self).wf(),
        ensures
            final(self).wf(),
            final(self).extends(*old(self)),
            old(self).failed() is Some ==> *final(self) == *old(self),
            final(self).failed() is None ==> {
                &&& final(self).equations_view().len() == old(self).equations_view().len() + 1
                &&& final(self).equations_view().drop_last() == old(self).equations_view()
                &&& cells_kept(old(self).heap_of(), final(self).heap_of())
                &&& exists|d: CellPtr|
                    {
                        &&& #[trigger] final(self).equations_view().last().is_redex(cell, d)
                        &&& final(self).heap_of().has_cell(d)
                        &&& last_index_of(final(self).book().names_view(), DUP@) == Some(
                            final(self).heap_of().cell_at(d).symbol_of().index_of(),
                        )
                        &&& final(self).heap_of().cell_at(d).left_of() == dup1
                        &&& final(self).heap_of().cell_at(d).right_of() == dup2
                    }
            },
            old(self).failed() is None && cell2_error(old(self).book(), old(self).heap_of(), DUP@, dup1, dup2) is Some ==> final(self).failed()
                == cell2_error(old(self).book(), old(self).heap_of(), DUP@, dup1, dup2),
            old(self).failed() is None && cell2_error(old(self).book(), old(self).heap_of(), DUP@, dup1, dup2) is None ==> {
                let dup = old(self).book().symbols_view()[last_index_of(old(self).book().names_view(), DUP@)->0 as int];
                &&& (cell.polarity_of() == Polarity::Pos && dup.polarity_of() == Polarity::Neg) ==> final(self).failed() is None
                &&& !(cell.polarity_of() == Polarity::Pos && dup.polarity_of() == Polarity::Neg) ==> final(self).failed() == Some(
                    BuildError::ShortCircuit,
                )
            },
    {
        let duplicator = self.duplicator(dup1, dup2);
        self.redex(cell, duplicator);
        assert(self.failed() is None ==> self.equations_view().last().is_redex(cell, duplicator));
    }
}

impl<'a> RuleSet<'a> {
    /// The rules of the duplicator on natural numbers.
    pub fn define_combinator_rules(&mut self) -> (r: Result<(), BuildError>)
        requires
            old(self).wf(),
        ensures
            final(self).wf(),
            final(self).symbols == old(self).symbols,
            final(self).rules_view().len() >= old(self).rules_view().len(),
            r is Ok ==> final(self).rules_view().len() == old(self).rules_view().len() + 2,
            r is Ok ==> has_rule_for(final(self), Z@, DUP@),
            r is Ok ==> has_rule_for(final(self), S@, DUP@),
            forall|c: Seq<char>, f: Seq<char>| has_rule_for(old(self), c, f) ==> #[trigger] has_rule_for(final(self), c, f),
            combinator_declared(old(self).symbols) && set_room(*old(self), 5, 7, 5, 2) ==> r is Ok && room_used(
                *old(self),
                *final(self),
                5,
                7,
                5,
            ),
            last_index_of(old(self).symbols.names_view(), Z@) is None || last_index_of(
                old(self).symbols.names_view(),
                DUP@,
            ) is None ==> r == Err::<(), BuildError>(BuildError::UnknownSymbol),
            set_grew(*old(self), *final(self)),
            final(self).rules_view().len() >= old(self).rules_view().len(),
            final(self).rules_view().take(old(self).rules_view().len() as int) == old(self).rules_view(),
            combinator_declared(old(self).symbols) && r is Ok ==> {
                &&& z_dup_rule(*final(self), final(self).rules_view()[old(self).rules_view().len() + 0int]->0)
                &&& s_dup_rule(*final(self), final(self).rules_view()[old(self).rules_view().len() + 1int]->0)
            },
    {
        // Z ⋈ (dup r₀ r₁)  ⟶  r₀ ← Z, r₁ ← Z
        let ghost start = *self;
        let r = self.rule(&SymbolName(Z), &SymbolName(DUP), |b: &mut RuleBuilder<'a>|
            requires
                old(b).wf(),
            ensures
                final(b).wf(),
                final(b).extends(*old(b)),
                writing_rule_for(*old(b), Z@, DUP@) && combinator_declared(old(b).set().symbols) && set_room(old(b).set(), 2, 2, 2, 0)
                    ==> final(b).failed() is None && room_used(old(b).set(), final(b).set(), 2, 2, 2),
                writing_rule_for(*old(b), Z@, DUP@) && combinator_declared(old(b).set().symbols) && final(b).failed() is None ==> z_dup_rule(
                    final(b).set(),
                    final(b).building(),
                ),
            {
                let ghost b0 = *b;
                proof {
                    b.lemma_port_symbols();
                }
                let r0 = b.fun_port_0();
                let z0 = b.cell0(&SymbolName(Z));
                let e0 = b.bind(r0, z0);
                proof {
                    b.lemma_port_symbols();
                }
                let r1 = b.fun_port_1();
                let z1 = b.cell0(&SymbolName(Z));
                let e1 = b.bind(r1, z1);
                proof {
                    if writing_rule_for(b0, Z@, DUP@) && combinator_declared(b0.set().symbols) && b.failed() is None {
                        lemma_pointer_word(r0.0);
                        lemma_pointer_word(z0.0);
                        lemma_pointer_word(r1.0);
                        lemma_pointer_word(z1.0);
                        assert(b.building().body@ == seq![e0, e1]);
                        assert(z_dup_rule(b.set(), b.building()));
                    }
                }
            });
        if let Err(e) = r {
            return Err(e);
        }
        proof {
            if combinator_declared(start.symbols) {
            assert(z_dup_rule(*self, self.rules_view()[start.rules_view().len() + 0int]->0));
            }
        }
        // (S l₀) ⋈ (dup r₀ r₁)  ⟶  l₀ ← (dup x₀ x₁), r₀ ← (S x₀), r₁ ← (S x₁)
        let ghost s1 = *self;
        let r = self.rule(&SymbolName(S), &SymbolName(DUP), |b: &mut RuleBuilder<'a>|
            requires
                old(b).wf(),
            ensures
                final(b).wf(),
                final(b).extends(*old(b)),
                writing_rule_for(*old(b), S@, DUP@) && combinator_declared(old(b).set().symbols) && set_room(old(b).set(), 3, 5, 3, 0)
                    ==> final(b).failed() is None && room_used(old(b).set(), final(b).set(), 3, 5, 3),
                writing_rule_for(*old(b), S@, DUP@) && combinator_declared(old(b).set().symbols) && final(b).failed() is None ==> s_dup_rule(
                    final(b).set(),
                    final(b).building(),
                ),
            {
                let ghost b0 = *b;
                let (x0_in, x0_out) = b.var();
                let (x1_in, x1_out) = b.var();
                proof {
                    b.lemma_port_symbols();
                }
                let l0 = b.ctr_port_0();
                let dup = b.cell2(&SymbolName(DUP), x0_in.into_term(), x1_in.into_term());
                let e0 = b.bind(l0, dup);
                proof {
                    b.lemma_port_symbols();
                }
                let r0 = b.fun_port_0();
                let s0 = b.cell1(&SymbolName(S), x0_out.into_term());
                let e1 = b.bind(r0, s0);
                proof {
                    b.lemma_port_symbols();
                }
                let r1 = b.fun_port_1();
                let s1 = b.cell1(&SymbolName(S), x1_out.into_term());
                let e2 = b.bind(r1, s1);
                proof {
                    if writing_rule_for(b0, S@, DUP@) && combinator_declared(b0.set().symbols) && b.failed() is None {
                        lemma_pointer_word(x0_in.0);
                        lemma_pointer_word(x0_out.0);
                        lemma_pointer_word(x1_in.0);
                        lemma_pointer_word(x1_out.0);
                        lemma_pointer_word(l0.0);
                        lemma_pointer_word(dup.0);
                        lemma_pointer_word(r0.0);
                        lemma_pointer_word(s0.0);
                        lemma_pointer_word(r1.0);
                        lemma_pointer_word(s1.0);
                        assert(b.building().body@ == seq![e0, e1, e2]);
                        assert(s_dup_rule(b.set(), b.building()));
                    }
                }
            });
        if let Err(e) = r {
            return Err(e);
        }
        proof {
            if combinator_declared(start.symbols) {
            assert(z_dup_rule(*self, self.rules_view()[start.rules_view().len() + 0int]->0)) by {
                lemma_set_grew_keeps(s1, *self);
            }
            assert(s_dup_rule(*self, self.rules_view()[start.rules_view().len() + 1int]->0));
            }
        }
        Ok(())
    }
}

} // verus!
