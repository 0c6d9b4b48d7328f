//! Addition and subtraction of natural numbers.
use vstd::prelude::*;

use crate::cell::CellPtr;
use crate::equation::EquationBuilder;
use crate::examples::natural::{nat_declared, S, Z};
use crate::heap::cell2_error;
use crate::net::NetF;
use crate::rule::{
    binds, bound_cell, connects, has_rule_for, lemma_pointer_word, lemma_set_grew_keeps, lemma_set_grew_trans,
    resolves, room_used, set_grew, set_room, term_holds, writing_rule_for, PortNum, Rule, RuleBuilder, RulePort,
    RuleSet,
};
use crate::symbol::{last_index_of, SymbolBook, SymbolName, SYMBOL_INDEX_LIMIT};
use crate::term::TermPtr;
use crate::var::Var;
use crate::{BuildError, Polarity};

verus! {

broadcast use {
    RuleBuilder::lemma_extends_trans,
    RuleBuilder::lemma_extends,
    EquationBuilder::lemma_extends_trans,
    EquationBuilder::lemma_extends,
};

/// The name of the adder.
pub const ADD: &'static str = "add";

/// The name of the subtractor.
pub const SUB: &'static str = "sub";

/// The name of the subtractor's second stage.
pub const SUB_0: &'static str = "sub₀";

/// The arithmetic symbols are declared last as `declare_nat_symbols` and
/// `declare_arith_symbols` declare them.
pub open spec fn arith_declared(book: &SymbolBook) -> bool {
    &&& nat_declared(book)
    &&& last_index_of(book.names_view(), ADD@) matches Some(i) && book.symbols_view()[i as int].made2(
        Polarity::Neg,
        Polarity::Pos,
        Polarity::Neg,
    )
    &&& last_index_of(book.names_view(), SUB@) matches Some(i) && book.symbols_view()[i as int].made2(
        Polarity::Neg,
        Polarity::Pos,
        Polarity::Neg,
    )
    &&& last_index_of(book.names_view(), SUB_0@) matches Some(i) && book.symbols_view()[i as int].made2(
        Polarity::Neg,
        Polarity::Pos,
        Polarity::Neg,
    )
}

/// In `set`, `rule` is the rule `(add x₁ x₂) = Z ⟶ x₁ ↔ x₂`: no bound
/// variable, and one equation connecting the ends of the adder's two
/// ports.
pub open spec fn z_add_rule<'a>(set: RuleSet<'a>, rule: Rule) -> bool {
    &&& rule.bvar_count == 0
    &&& rule.body@.len() == 1
    &&& connects(set, rule, 0, Var::Free(RulePort::Fun(PortNum::Zero)), Polarity::Neg, Var::Free(RulePort::Fun(PortNum::One)), Polarity::Pos)
}

/// In `set`, `rule` is the rule `(add x₁ x₂) = (S n) ⟶ x₁ ← (S x),
/// n ← (add x x₂)`: one bound variable `x`, and two equations binding the
/// end of the adder's first port to a successor of `x`, and the end of the
/// successor's port to an adder of `x` and the end of the adder's second
/// port.
pub open spec fn s_add_rule<'a>(set: RuleSet<'a>, rule: Rule) -> bool {
    &&& rule.bvar_count == 1
    &&& rule.body@.len() == 2
    &&& binds(set, rule, 0, Var::Free(RulePort::Fun(PortNum::Zero)), Polarity::Neg, S@)
    &&& term_holds(set, bound_cell(set, rule, 0).left_of(), Var::Bound(0), Polarity::Pos)
    &&& binds(set, rule, 1, Var::Free(RulePort::Ctr(PortNum::Zero)), Polarity::Pos, ADD@)
    &&& term_holds(set, bound_cell(set, rule, 1).left_of(), Var::Bound(0), Polarity::Neg)
    &&& term_holds(set, bound_cell(set, rule, 1).right_of(), Var::Free(RulePort::Fun(PortNum::One)), Polarity::Pos)
}

/// In `set`, `rule` is the rule `(sub l₀ l₁) = Z ⟶ l₀ ↔ l₁`: no bound
/// variable, and one equation connecting the ends of the subtractor's two
/// ports.
pub open spec fn z_sub_rule<'a>(set: RuleSet<'a>, rule: Rule) -> bool {
    &&& rule.bvar_count == 0
    &&& rule.body@.len() == 1
    &&& connects(set, rule, 0, Var::Free(RulePort::Fun(PortNum::Zero)), Polarity::Neg, Var::Free(RulePort::Fun(PortNum::One)), Polarity::Pos)
}

/// In `set`, `rule` is the rule `(sub l₀ l₁) = (S r₀) ⟶ l₁ ← (sub₀ l₀ r₀)`:
/// no bound variable, and one equation binding the end of the subtractor's
/// second port to a second-stage subtractor of the ends of the
/// subtractor's first port and of the successor's port.
pub open spec fn s_sub_rule<'a>(set: RuleSet<'a>, rule: Rule) -> bool {
    &&& rule.bvar_count == 0
    &&& rule.body@.len() == 1
    &&& binds(set, rule, 0, Var::Free(RulePort::Fun(PortNum::One)), Polarity::Pos, SUB_0@)
    &&& term_holds(set, bound_cell(set, rule, 0).left_of(), Var::Free(RulePort::Fun(PortNum::Zero)), Polarity::Neg)
    &&& term_holds(set, bound_cell(set, rule, 0).right_of(), Var::Free(RulePort::Ctr(PortNum::Zero)), Polarity::Pos)
}

/// In `set`, `rule` is the rule `(sub₀ l₀ l₁) = Z ⟶ l₀ ← (S l₁)`: no bound
/// variable, and one equation binding the end of the first port to a
/// successor of the end of the second.
pub open spec fn z_sub0_rule<'a>(set: RuleSet<'a>, rule: Rule) -> bool {
    &&& rule.bvar_count == 0
    &&& rule.body@.len() == 1
    &&& binds(set, rule, 0, Var::Free(RulePort::Fun(PortNum::Zero)), Polarity::Neg, S@)
    &&& term_holds(set, bound_cell(set, rule, 0).left_of(), Var::Free(RulePort::Fun(PortNum::One)), Polarity::Pos)
}

/// In `set`, `rule` is the rule `(sub₀ l₀ l₁) = (S r₀) ⟶ l₁ ← (sub l₀ r₀)`:
/// no bound variable, and one equation binding the end of the second port
/// to a subtractor of the ends of the first port and of the successor's
/// port.
pub open spec fn s_sub0_rule<'a>(set: RuleSet<'a>, rule: Rule) -> bool {
    &&& rule.bvar_count == 0
    &&& rule.body@.len() == 1
    &&& binds(set, rule, 0, Var::Free(RulePort::Fun(PortNum::One)), Polarity::Pos, SUB@)
    &&& term_holds(set, bound_cell(set, rule, 0).left_of(), Var::Free(RulePort::Fun(PortNum::Zero)), Polarity::Neg)
    &&& term_holds(set, bound_cell(set, rule, 0).right_of(), Var::Free(RulePort::Ctr(PortNum::Zero)), Polarity::Pos)
}

impl SymbolBook {
    /// Declares the adder and the two stages of the subtractor: functions
    /// whose result port is positive and whose operand port is negative.
    pub fn declare_arith_symbols(&mut self)
        requires
            old(self).wf(),
            old(self).symbols_view().len() + 3 <= SYMBOL_INDEX_LIMIT,
        ensures
            final(self).wf(),
            final(self).symbols_view().len() == old(self).symbols_view().len() + 3,
            final(self).symbols_view().take(old(self).symbols_view().len() as int) == old(self).symbols_view(),
            final(self).names_view() == old(self).names_view().push(ADD@).push(SUB_0@).push(SUB@),
            forall|i: int|
                old(self).symbols_view().len() <= i < final(self).symbols_view().len() ==> (#[trigger] final(self).symbols_view()[i]).made2(Polarity::Neg, Polarity::Pos, Polarity::Neg),
    {
        let ghost n = self.symbols_view().len();
        self.fun2(&SymbolName(ADD), Polarity::Pos, Polarity::Neg);
        let ghost s1 = self.symbols_view();
        self.fun2(&SymbolName(SUB_0), Polarity::Pos, Polarity::Neg);
        let ghost s2 = self.symbols_view();
        self.fun2(&SymbolName(SUB), Polarity::Pos, Polarity::Neg);
        assert(self.symbols_view()[n as int] == s2[n as int]);
        assert(s2[n as int] == s1[n as int]);
        assert(self.symbols_view()[n + 1int] == s2[n + 1int]);
        assert(self.symbols_view().take(n as int) =~= old(self).symbols_view());
    }
}

impl<'a> EquationBuilder<'a, NetF> {
    /// An adder cell with `result` in its first port and `operand2` in its
    /// second.
    pub fn adder(&mut self, result: TermPtr, operand2: TermPtr) -> (r: CellPtr)
        requires
            old(self).wf(),
        ensures
            final(self).wf(),
            final(self).extends(*old(self)),
            r.ptr_bits() < 0xffffff,
            old(self).failed() is Some ==> *final(self) == *old(self),
            final(self).failed() is None ==> final(self).heap_of().has_cell(r) && last_index_of(
                final(self).book().names_view(),
                ADD@,
            ) == Some(final(self).heap_of().cell_at(r).symbol_of().index_of())
                && final(self).heap_of().cell_at(r).left_of() == result
                && final(self).heap_of().cell_at(r).right_of() == operand2,
            old(self).failed() is None ==> final(self).failed() == cell2_error(
                old(self).book(),
                old(self).heap_of(),
                ADD@,
                result,
                operand2,
            ),
    {
        self.cell2(&SymbolName(ADD), result, operand2)
    }

    /// A subtractor cell with `result` in its first port and `operand2` in
    /// its second.
    pub fn subtractor(&mut self, result: TermPtr, operand2: TermPtr) -> (r: CellPtr)
        requires
            old(self).wf(),
        ensures
            final(self).wf(),
            final(self).extends(*old(self)),
            r.ptr_bits() < 0xffffff,
            old(self).failed() is Some ==> *final(self) == *old(self),
            final(self).failed() is None ==> final(self).heap_of().has_cell(r) && last_index_of(
                final(self).book().names_view(),
                SUB@,
            ) == Some(final(self).heap_of().cell_at(r).symbol_of().index_of())
                && final(self).heap_of().cell_at(r).left_of() == result
                && final(self).heap_of().cell_at(r).right_of() == operand2,
            old(self).failed() is None ==> final(self).failed() == cell2_error(
                old(self).book(),
                old(self).heap_of(),
                SUB@,
                result,
                operand2,
            ),
    {
        self.cell2(&SymbolName(SUB), result, operand2)
    }

    /// The redex of `operand1` and an adder.
    pub fn add(&mut self, operand1: CellPtr, adder: CellPtr)
        requires
            old(self).wf(),
        ensures
            final(self).wf(),
            final(self).extends(*old(self)),
            final(self).heap_of() == old(self).heap_of(),
            old(self).failed() is Some ==> *final(self) == *old(self),
            old(self).failed() is None && final(self).failed() is None ==> final(self).equations_view().last().is_redex(operand1, adder),
            old(self).failed() is None && !(operand1.polarity_of() == Polarity::Pos && adder.polarity_of() == Polarity::Neg)
                ==> final(self).failed() == Some(BuildError::ShortCircuit),
            old(self).failed() is None && operand1.polarity_of() == Polarity::Pos && adder.polarity_of() == Polarity::Neg
                ==> final(self).failed() is None,
    {
        self.redex(operand1, adder)
    }

    /// The redex of `operand1` and a subtractor.
    pub fn subtract(&mut self, operand1: CellPtr, subtractor: CellPtr)
        requires
            old(self).wf(),
        ensures
            final(self).wf(),
            final(self).extends(*old(self)),
            final(self).heap_of() == old(self).heap_of(),
            old(self).failed() is Some ==> *final(self) == *old(self),
            old(self).failed() is None && final(self).failed() is None ==> final(self).equations_view().last().is_redex(operand1, subtractor),
            old(self).failed() is None && !(operand1.polarity_of() == Polarity::Pos && subtractor.polarity_of() == Polarity::Neg)
                ==> final(self).failed() == Some(BuildError::ShortCircuit),
            old(self).failed() is None && operand1.polarity_of() == Polarity::Pos && subtractor.polarity_of() == Polarity::Neg
                ==> final(self).failed() is None,
    {
        self.redex(operand1, subtractor)
    }
}

impl<'a> RuleBuilder<'a> {
    /// An adder cell with `result` in its first port and `operand2` in its
    /// second.
    pub fn adder(&mut self, result: TermPtr, operand2: TermPtr) -> (r: CellPtr)
        requires
            old(self).wf(),
        ensures
            final(self).wf(),
            final(self).extends(*old(self)),
            r.ptr_bits() < 0xffffff,
            old(self).failed() is Some ==> *final(self) == *old(self),
            final(self).failed() is None ==> final(self).set().heap.has_cell(r) && resolves(
                final(self).set().symbols,
                ADD@,
                final(self).set().heap.cell_at(r).symbol_of(),
            ) && final(self).set().heap.cell_at(r).left_of() == result
                && final(self).set().heap.cell_at(r).right_of() == operand2,
            old(self).failed() is None ==> final(self).failed() == cell2_error(
                old(self).set().symbols,
                old(self).set().heap,
                ADD@,
                result,
                operand2,
            ),
            room_used(old(self).set(), final(self).set(), 1, 0, 0),
            final(self).building() == old(self).building(),
            final(self).failed() is None ==> r.wf(),
    {
        self.cell2(&SymbolName(ADD), result, operand2)
    }

    /// A subtractor cell with `result` in its first port and `operand2` in
    /// its second.
    pub fn subtractor(&mut self, result: TermPtr, operand2: TermPtr) -> (r: CellPtr)
        requires
            old(self).wf(),
        ensures
            final(self).wf(),
            final(self).extends(*old(self)),
            r.ptr_bits() < 0xffffff,
            old(self).failed() is Some ==> *final(self) == *old(self),
            final(self).failed() is None ==> final(self).set().heap.has_cell(r) && resolves(
                final(self).set().symbols,
                SUB@,
                final(self).set().heap.cell_at(r).symbol_of(),
            ) && final(self).set().heap.cell_at(r).left_of() == result
                && final(self).set().heap.cell_at(r).right_of() == operand2,
            old(self).failed() is None ==> final(self).failed() == cell2_error(
                old(self).set().symbols,
                old(self).set().heap,
                SUB@,
                result,
                operand2,
            ),
            room_used(old(self).set(), final(self).set(), 1, 0, 0),
            final(self).building() == old(self).building(),
            final(self).failed() is None ==> r.wf(),
    {
        self.cell2(&SymbolName(SUB), result, operand2)
    }
}

impl<'a> RuleSet<'a> {
    /// The rules of addition and subtraction.
    pub fn arith_rules(&mut self) -> (r: Result<(), BuildError>)
        requires
            old(self).wf(),
        ensures
            final(self).wf(),
            final(self).symbols == old(self).symbols,
            final(self).rules_view().len() >= old(self).rules_view().len(),
            r is Ok ==> final(self).rules_view().len() == old(self).rules_view().len() + 6,
            r is Ok ==> has_rule_for(final(self), Z@, ADD@),
            r is Ok ==> has_rule_for(final(self), S@, ADD@),
            r is Ok ==> has_rule_for(final(self), Z@, SUB@),
            r is Ok ==> has_rule_for(final(self), S@, SUB@),
            r is Ok ==> has_rule_for(final(self), Z@, SUB_0@),
            r is Ok ==> has_rule_for(final(self), S@, SUB_0@),
            forall|c: Seq<char>, f: Seq<char>| has_rule_for(old(self), c, f) ==> #[trigger] has_rule_for(final(self), c, f),
            arith_declared(old(self).symbols) && set_room(*old(self), 5, 16, 7, 6) ==> r is Ok && room_used(
                *old(self),
                *final(self),
                5,
                16,
                7,
            ),
            last_index_of(old(self).symbols.names_view(), Z@) is None || last_index_of(
                old(self).symbols.names_view(),
                ADD@,
            ) is None ==> r == Err::<(), BuildError>(BuildError::UnknownSymbol),
            arith_declared(old(self).symbols) && r is Ok ==> {
                &&& z_add_rule(*final(self), final(self).rules_view()[old(self).rules_view().len() + 0int]->0)
                &&& s_add_rule(*final(self), final(self).rules_view()[old(self).rules_view().len() + 1int]->0)
                &&& z_sub_rule(*final(self), final(self).rules_view()[old(self).rules_view().len() + 2int]->0)
                &&& s_sub_rule(*final(self), final(self).rules_view()[old(self).rules_view().len() + 3int]->0)
                &&& z_sub0_rule(*final(self), final(self).rules_view()[old(self).rules_view().len() + 4int]->0)
                &&& s_sub0_rule(*final(self), final(self).rules_view()[old(self).rules_view().len() + 5int]->0)
            },
    {
        match self.arith_add_rules() {
            Ok(()) => self.arith_sub_rules(),
            Err(e) => Err(e),
        }
    }

    /// The rules of addition.
    pub fn arith_add_rules(&mut self) -> (r: Result<(), BuildError>)
        requires
            old(self).wf(),
        ensures
            final(self).wf(),
            final(self).symbols == old(self).symbols,
            final(self).rules_view().len() >= old(self).rules_view().len(),
            r is Ok ==> final(self).rules_view().len() == old(self).rules_view().len() + 2,
            r is Ok ==> has_rule_for(final(self), Z@, ADD@),
            r is Ok ==> has_rule_for(final(self), S@, ADD@),
            forall|c: Seq<char>, f: Seq<char>| has_rule_for(old(self), c, f) ==> #[trigger] has_rule_for(final(self), c, f),
            arith_declared(old(self).symbols) && set_room(*old(self), 2, 6, 3, 2) ==> r is Ok && room_used(
                *old(self),
                *final(self),
                2,
                6,
                3,
            ),
            last_index_of(old(self).symbols.names_view(), Z@) is None || last_index_of(
                old(self).symbols.names_view(),
                ADD@,
            ) is None ==> r == Err::<(), BuildError>(BuildError::UnknownSymbol),
            arith_declared(old(self).symbols) && r is Ok ==> {
                &&& z_add_rule(*final(self), final(self).rules_view()[old(self).rules_view().len() + 0int]->0)
                &&& s_add_rule(*final(self), final(self).rules_view()[old(self).rules_view().len() + 1int]->0)
            },
            set_grew(*old(self), *final(self)),
            final(self).rules_view().len() >= old(self).rules_view().len(),
            final(self).rules_view().take(old(self).rules_view().len() as int) == old(self).rules_view(),
    {
        // (add x₁ x₂) = Z  ⟶  x₁ ↔ x₂
        let ghost start = *self;
        let r = self.rule(&SymbolName(Z), &SymbolName(ADD), |b: &mut RuleBuilder<'a>|
            requires
                old(b).wf(),
            ensures
                final(b).wf(),
                final(b).extends(*old(b)),
                writing_rule_for(*old(b), Z@, ADD@) && arith_declared(old(b).set().symbols) && set_room(old(b).set(), 0, 2, 1, 0)
                    ==> final(b).failed() is None && room_used(old(b).set(), final(b).set(), 0, 2, 1),
                writing_rule_for(*old(b), Z@, ADD@) && arith_declared(old(b).set().symbols) && final(b).failed() is None ==> z_add_rule(
                    final(b).set(),
                    final(b).building(),
                ),
            {
                let ghost b0 = *b;
                proof {
                    b.lemma_port_symbols();
                }
                let add0 = b.fun_port_0();
                proof {
                    b.lemma_port_symbols();
                }
                let add1 = b.fun_port_1();
                let e0 = b.connect(add0, add1);
                proof {
                    if writing_rule_for(b0, Z@, ADD@) && arith_declared(b0.set().symbols) && b.failed() is None {
                        lemma_pointer_word(add0.0);
                        lemma_pointer_word(add1.0);
                        assert(b.building().body@ == seq![e0]);
                        assert(z_add_rule(b.set(), b.building()));
                    }
                }
            });
        if let Err(e) = r {
            return Err(e);
        }
        proof {
            if arith_declared(start.symbols) {
            assert(z_add_rule(*self, self.rules_view()[start.rules_view().len() + 0int]->0));
            }
        }
        // (add x₁ x₂) = (S n)  ⟶  x₁ ← (S x), n ← (add x x₂)
        let ghost s1 = *self;
        let r = self.rule(&SymbolName(S), &SymbolName(ADD), |b: &mut RuleBuilder<'a>|
            requires
                old(b).wf(),
            ensures
                final(b).wf(),
                final(b).extends(*old(b)),
                writing_rule_for(*old(b), S@, ADD@) && arith_declared(old(b).set().symbols) && set_room(old(b).set(), 2, 4, 2, 0)
                    ==> final(b).failed() is None && room_used(old(b).set(), final(b).set(), 2, 4, 2),
                writing_rule_for(*old(b), S@, ADD@) && arith_declared(old(b).set().symbols) && final(b).failed() is None ==> s_add_rule(
                    final(b).set(),
                    final(b).building(),
                ),
            {
                let ghost b0 = *b;
                let (neg_pvar, pos_pvar) = b.var();
                proof {
                    b.lemma_port_symbols();
                }
                let fun_0 = b.fun_port_0();
                let s_x = b.cell1(&SymbolName(S), pos_pvar.into_term());
                let e0 = b.bind(fun_0, s_x);
                proof {
                    b.lemma_port_symbols();
                }
                let fun_1 = b.fun_port_1();
                let add = b.cell2(&SymbolName(ADD), neg_pvar.into_term(), fun_1.into_term());
                proof {
                    b.lemma_port_symbols();
                }
                let s_port_0 = b.ctr_port_0();
                let e1 = b.bind(s_port_0, add);
                proof {
                    if writing_rule_for(b0, S@, ADD@) && arith_declared(b0.set().symbols) && b.failed() is None {
                        lemma_pointer_word(neg_pvar.0);
                        lemma_pointer_word(pos_pvar.0);
                        lemma_pointer_word(fun_0.0);
                        lemma_pointer_word(fun_1.0);
                        lemma_pointer_word(s_port_0.0);
                        lemma_pointer_word(s_x.0);
                        lemma_pointer_word(add.0);
                        assert(b.building().body@ == seq![e0, e1]);
                        assert(s_add_rule(b.set(), b.building()));
                    }
                }
            });
        if let Err(e) = r {
            return Err(e);
        }
        proof {
            if arith_declared(start.symbols) {
            assert(z_add_rule(*self, self.rules_view()[start.rules_view().len() + 0int]->0)) by {
                lemma_set_grew_keeps(s1, *self);
            }
            assert(s_add_rule(*self, self.rules_view()[start.rules_view().len() + 1int]->0));
            }
        }
        Ok(())
    }

    /// The rules of subtraction.
    #[verifier::rlimit(60)]
    #[verifier::spinoff_prover]
    pub fn arith_sub_rules(&mut self) -> (r: Result<(), BuildError>)
        requires
            old(self).wf(),
        ensures
            final(self).wf(),
            final(self).symbols == old(self).symbols,
            final(self).rules_view().len() >= old(self).rules_view().len(),
            r is Ok ==> final(self).rules_view().len() == old(self).rules_view().len() + 4,
            r is Ok ==> has_rule_for(final(self), Z@, SUB@),
            r is Ok ==> has_rule_for(final(self), S@, SUB@),
            r is Ok ==> has_rule_for(final(self), Z@, SUB_0@),
            r is Ok ==> has_rule_for(final(self), S@, SUB_0@),
            forall|c: Seq<char>, f: Seq<char>| has_rule_for(old(self), c, f) ==> #[trigger] has_rule_for(final(self), c, f),
            arith_declared(old(self).symbols) && set_room(*old(self), 3, 10, 4, 4) ==> r is Ok && room_used(
                *old(self),
                *final(self),
                3,
                10,
                4,
            ),
            last_index_of(old(self).symbols.names_view(), Z@) is None || last_index_of(
                old(self).symbols.names_view(),
                SUB@,
            ) is None ==> r == Err::<(), BuildError>(BuildError::UnknownSymbol),
            arith_declared(old(self).symbols) && r is Ok ==> {
                &&& z_sub_rule(*final(self), final(self).rules_view()[old(self).rules_view().len() + 0int]->0)
                &&& s_sub_rule(*final(self), final(self).rules_view()[old(self).rules_view().len() + 1int]->0)
                &&& z_sub0_rule(*final(self), final(self).rules_view()[old(self).rules_view().len() + 2int]->0)
                &&& s_sub0_rule(*final(self), final(self).rules_view()[old(self).rules_view().len() + 3int]->0)
            },
            set_grew(*old(self), *final(self)),
            final(self).rules_view().len() >= old(self).rules_view().len(),
            final(self).rules_view().take(old(self).rules_view().len() as int) == old(self).rules_view(),
    {
        // (sub l₀ l₁) = Z  ⟶  l₀ ↔ l₁
        let ghost start = *self;
        let r = self.rule(&SymbolName(Z), &SymbolName(SUB), |b: &mut RuleBuilder<'a>|
            requires
                old(b).wf(),
            ensures
                final(b).wf(),
                final(b).extends(*old(b)),
                writing_rule_for(*old(b), Z@, SUB@) && arith_declared(old(b).set().symbols) && set_room(old(b).set(), 0, 2, 1, 0)
                    ==> final(b).failed() is None && room_used(old(b).set(), final(b).set(), 0, 2, 1),
                writing_rule_for(*old(b), Z@, SUB@) && arith_declared(old(b).set().symbols) && final(b).failed() is None ==> z_sub_rule(
                    final(b).set(),
                    final(b).building(),
                ),
            {
                let ghost b0 = *b;
                proof {
                    b.lemma_port_symbols();
                }
                let l0 = b.fun_port_0();
                proof {
                    b.lemma_port_symbols();
                }
                let l1 = b.fun_port_1();
                let e0 = b.connect(l0, l1);
                proof {
                    if writing_rule_for(b0, Z@, SUB@) && arith_declared(b0.set().symbols) && b.failed() is None {
                        lemma_pointer_word(l0.0);
                        lemma_pointer_word(l1.0);
                        assert(b.building().body@ == seq![e0]);
                        assert(z_sub_rule(b.set(), b.building()));
                    }
                }
            });
        if let Err(e) = r {
            return Err(e);
        }
        proof {
            if arith_declared(start.symbols) {
            assert(z_sub_rule(*self, self.rules_view()[start.rules_view().len() + 0int]->0));
            }
        }
        // (sub l₀ l₁) = (S r₀)  ⟶  l₁ ← (sub₀ l₀ r₀)
        let ghost s1 = *self;
        let r = self.rule(&SymbolName(S), &SymbolName(SUB), |b: &mut RuleBuilder<'a>|
            requires
                old(b).wf(),
            ensures
                final(b).wf(),
                final(b).extends(*old(b)),
                writing_rule_for(*old(b), S@, SUB@) && arith_declared(old(b).set().symbols) && set_room(old(b).set(), 1, 3, 1, 0)
                    ==> final(b).failed() is None && room_used(old(b).set(), final(b).set(), 1, 3, 1),
                writing_rule_for(*old(b), S@, SUB@) && arith_declared(old(b).set().symbols) && final(b).failed() is None ==> s_sub_rule(
                    final(b).set(),
                    final(b).building(),
                ),
            {
                let ghost b0 = *b;
                proof {
                    b.lemma_port_symbols();
                }
                let l0 = b.fun_port_0();
                proof {
                    b.lemma_port_symbols();
                }
                let l1 = b.fun_port_1();
                proof {
                    b.lemma_port_symbols();
                }
                let r0 = b.ctr_port_0();
                let sub0 = b.cell2(&SymbolName(SUB_0), l0.into_term(), r0.into_term());
                let e0 = b.bind(l1, sub0);
                proof {
                    if writing_rule_for(b0, S@, SUB@) && arith_declared(b0.set().symbols) && b.failed() is None {
                        lemma_pointer_word(l0.0);
                        lemma_pointer_word(l1.0);
                        lemma_pointer_word(r0.0);
                        lemma_pointer_word(sub0.0);
                        assert(b.building().body@ == seq![e0]);
                        assert(s_sub_rule(b.set(), b.building()));
                    }
                }
            });
        if let Err(e) = r {
            return Err(e);
        }
        proof {
            if arith_declared(start.symbols) {
            assert(z_sub_rule(*self, self.rules_view()[start.rules_view().len() + 0int]->0)) by {
                lemma_set_grew_keeps(s1, *self);
            }
            assert(s_sub_rule(*self, self.rules_view()[start.rules_view().len() + 1int]->0));
            }
        }
        // (sub₀ l₀ l₁) = Z  ⟶  l₀ ← (S l₁)
        let ghost s2 = *self;
        let r = self.rule(&SymbolName(Z), &SymbolName(SUB_0), |b: &mut RuleBuilder<'a>|
            requires
                old(b).wf(),
            ensures
                final(b).wf(),
                final(b).extends(*old(b)),
                writing_rule_for(*old(b), Z@, SUB_0@) && arith_declared(old(b).set().symbols) && set_room(old(b).set(), 1, 2, 1, 0)
                    ==> final(b).failed() is None && room_used(old(b).set(), final(b).set(), 1, 2, 1),
                writing_rule_for(*old(b), Z@, SUB_0@) && arith_declared(old(b).set().symbols) && final(b).failed() is None ==> z_sub0_rule(
                    final(b).set(),
                    final(b).building(),
                ),
            {
                let ghost b0 = *b;
                proof {
                    b.lemma_port_symbols();
                }
                let l0 = b.fun_port_0();
                proof {
                    b.lemma_port_symbols();
                }
                let l1 = b.fun_port_1();
                let s = b.cell1(&SymbolName(S), l1.into_term());
                let e0 = b.bind(l0, s);
                proof {
                    if writing_rule_for(b0, Z@, SUB_0@) && arith_declared(b0.set().symbols) && b.failed() is None {
                        lemma_pointer_word(l0.0);
                        lemma_pointer_word(l1.0);
                        lemma_pointer_word(s.0);
                        assert(b.building().body@ == seq![e0]);
                        assert(z_sub0_rule(b.set(), b.building()));
                    }
                }
            });
        if let Err(e) = r {
            return Err(e);
        }
        proof {
            if arith_declared(start.symbols) {
            assert(z_sub_rule(*self, self.rules_view()[start.rules_view().len() + 0int]->0)) by {
                lemma_set_grew_keeps(s2, *self);
            }
            assert(s_sub_rule(*self, self.rules_view()[start.rules_view().len() + 1int]->0)) by {
                lemma_set_grew_keeps(s2, *self);
            }
            assert(z_sub0_rule(*self, self.rules_view()[start.rules_view().len() + 2int]->0));
            }
        }
        // (sub₀ l₀ l₁) = (S r₀)  ⟶  l₁ ← (sub l₀ r₀)
        let ghost s3 = *self;
        let r = self.rule(&SymbolName(S), &SymbolName(SUB_0), |b: &mut RuleBuilder<'a>|
            requires
                old(b).wf(),
            ensures
                final(b).wf(),
                final(b).extends(*old(b)),
                writing_rule_for(*old(b), S@, SUB_0@) && arith_declared(old(b).set().symbols) && set_room(old(b).set(), 1, 3, 1, 0)
                    ==> final(b).failed() is None && room_used(old(b).set(), final(b).set(), 1, 3, 1),
                writing_rule_for(*old(b), S@, SUB_0@) && arith_declared(old(b).set().symbols) && final(b).failed() is None ==> s_sub0_rule(
                    final(b).set(),
                    final(b).building(),
                ),
            {
                let ghost b0 = *b;
                proof {
                    b.lemma_port_symbols();
                }
                let l0 = b.fun_port_0();
                proof {
                    b.lemma_port_symbols();
                }
                let l1 = b.fun_port_1();
                proof {
                    b.lemma_port_symbols();
                }
                let r0 = b.ctr_port_0();
                let sub = b.cell2(&SymbolName(SUB), l0.into_term(), r0.into_term());
                let e0 = b.bind(l1, sub);
                proof {
                    if writing_rule_for(b0, S@, SUB_0@) && arith_declared(b0.set().symbols) && b.failed() is None {
                        lemma_pointer_word(l0.0);
                        lemma_pointer_word(l1.0);
                        lemma_pointer_word(r0.0);
                        lemma_pointer_word(sub.0);
                        assert(b.building().body@ == seq![e0]);
                        assert(s_sub0_rule(b.set(), b.building()));
                    }
                }
            });
        if let Err(e) = r {
            return Err(e);
        }
        proof {
            if arith_declared(start.symbols) {
            assert(z_sub_rule(*self, self.rules_view()[start.rules_view().len() + 0int]->0)) by {
                lemma_set_grew_keeps(s3, *self);
            }
            assert(s_sub_rule(*self, self.rules_view()[start.rules_view().len() + 1int]->0)) by {
                lemma_set_grew_keeps(s3, *self);
            }
            assert(z_sub0_rule(*self, self.rules_view()[start.rules_view().len() + 2int]->0)) by {
                lemma_set_grew_keeps(s3, *self);
            }
            assert(s_sub0_rule(*self, self.rules_view()[start.rules_view().len() + 3int]->0));
            }
        }
        Ok(())
    }
}

} // verus!
