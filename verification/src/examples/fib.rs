//! The Fibonacci function on natural numbers.
use vstd::prelude::*;

use crate::cell::CellPtr;
use crate::equation::{Equation, EquationBuilder};
use crate::examples::arith::ADD;
use crate::examples::combinators::DUP;
use crate::examples::natural::{is_numeral, lemma_numeral_kept, nat_declared, S, Z};
use crate::heap::{cell1_error, cells_kept, lemma_cell_added_keeps, port_word, Heap};
use crate::net::{Net, NetF, NetVar};
use crate::rule::{
    binds, bound_cell, has_rule_for, lemma_pointer_word, lemma_set_grew_keeps, resolves, room_used, set_grew, set_room,
    term_holds, term_named, writing_rule_for, PortNum, Rule, RuleBuilder, RulePort, RuleSet,
};
use crate::symbol::{last_index_of, SymbolBook, SymbolName, SYMBOL_INDEX_LIMIT};
use crate::term::TermPtr;
use crate::var::{PVarPtr, Var};
use crate::{BuildError, Polarity};

verus! {

broadcast use {
    RuleBuilder::lemma_extends_trans,
    RuleBuilder::lemma_extends,
    EquationBuilder::lemma_extends_trans,
    EquationBuilder::lemma_extends,
};

/// The name of the Fibonacci function.
pub const FIB: &'static str = "fib";

/// The name of the Fibonacci function's second stage.
pub const FIB_0: &'static str = "fib₀";

/// The symbols of the Fibonacci rules are declared last as
/// `declare_nat_symbols`, `declare_arith_symbols`,
/// `declare_combinator_symbols` and `declare_fib_symbols` declare them.
pub open spec fn fib_declared(book: &SymbolBook) -> bool {
    &&& nat_declared(book)
    &&& last_index_of(book.names_view(), DUP@) matches Some(i) && book.symbols_view()[i as int].made2(
        Polarity::Neg,
        Polarity::Pos,
        Polarity::Pos,
    )
    &&& last_index_of(book.names_view(), ADD@) matches Some(i) && book.symbols_view()[i as int].made2(
        Polarity::Neg,
        Polarity::Pos,
        Polarity::Neg,
    )
    &&& last_index_of(book.names_view(), FIB@) matches Some(i) && book.symbols_view()[i as int].made1(
        Polarity::Neg,
        Polarity::Pos,
    )
    &&& last_index_of(book.names_view(), FIB_0@) matches Some(i) && book.symbols_view()[i as int].made1(
        Polarity::Neg,
        Polarity::Pos,
    )
}

/// The symbols of a net that computes a Fibonacci number are declared
/// last as `declare_nat_symbols` and `declare_fib_symbols` declare them.
pub open spec fn fib_net_declared(book: &SymbolBook) -> bool {
    &&& nat_declared(book)
    &&& last_index_of(book.names_view(), FIB@) matches Some(i) && book.symbols_view()[i as int].made1(
        Polarity::Neg,
        Polarity::Pos,
    )
}

/// From the head `old_head`, the body `old_body` and the heap `old_heap`
/// to `new_head`, `new_body` and `new_heap`, the computation of the
/// Fibonacci number of `n` was added: a new free variable whose positive
/// end joins the head and whose negative end is `out`, the numeral of `n`
/// at `num`, and one more equation, the redex of `num` with a new
/// Fibonacci cell `f` holding `out`; the other cells are kept.
pub open spec fn fib_added(
    names: Seq<Seq<char>>,
    old_head: Seq<PVarPtr>,
    old_body: Seq<Equation<NetF>>,
    old_heap: Heap<NetF>,
    new_head: Seq<PVarPtr>,
    new_body: Seq<Equation<NetF>>,
    new_heap: Heap<NetF>,
    n: nat,
    num: CellPtr,
    f: CellPtr,
    out: PVarPtr,
) -> bool {
    let index = old_heap.vars_view().len();
    &&& new_head.len() == old_head.len() + 1
    &&& new_head.drop_last() == old_head
    &&& new_head.last().made(index, Polarity::Pos)
    &&& out.made(index, Polarity::Neg)
    &&& new_heap.vars_view() == old_heap.vars_view().push(Some(Var::<NetF>::Free(NetVar(NetVar::NULL))))
    &&& cells_kept(old_heap, new_heap)
    &&& new_body.len() == old_body.len() + 1
    &&& new_body.drop_last() == old_body
    &&& new_body.last().is_redex(num, f)
    &&& is_numeral(names, new_heap, num, n)
    &&& new_heap.has_cell(f)
    &&& last_index_of(names, FIB@) == Some(new_heap.cell_at(f).symbol_of().index_of())
    &&& new_heap.cell_at(f).left_of().is_pvar(out)
}

/// In `set`, `rule` is the rule `Z ⋈ (fib r₀) ⟶ r₀ ← Z`: no bound
/// variable, and one equation binding the end of the Fibonacci cell's port
/// to a zero cell.
pub open spec fn z_fib_rule<'a>(set: RuleSet<'a>, rule: Rule) -> bool {
    &&& rule.bvar_count == 0
    &&& rule.body@.len() == 1
    &&& binds(set, rule, 0, Var::Free(RulePort::Fun(PortNum::Zero)), Polarity::Neg, Z@)
}

/// In `set`, `rule` is the rule `(S l₀) ⋈ (fib r₀) ⟶ l₀ ← (fib₀ r₀)`: no
/// bound variable, and one equation binding the end of the successor's port
/// to a second-stage Fibonacci cell of the end of the Fibonacci cell's
/// port.
pub open spec fn s_fib_rule<'a>(set: RuleSet<'a>, rule: Rule) -> bool {
    &&& rule.bvar_count == 0
    &&& rule.body@.len() == 1
    &&& binds(set, rule, 0, Var::Free(RulePort::Ctr(PortNum::Zero)), Polarity::Pos, FIB_0@)
    &&& term_holds(set, bound_cell(set, rule, 0).left_of(), Var::Free(RulePort::Fun(PortNum::Zero)), Polarity::Neg)
}

/// In `set`, `rule` is the rule `Z ⋈ (fib₀ r₀) ⟶ r₀ ← (S Z)`: no bound
/// variable, and one equation binding the end of the cell's port to a
/// successor of a zero cell.
pub open spec fn z_fib0_rule<'a>(set: RuleSet<'a>, rule: Rule) -> bool {
    &&& rule.bvar_count == 0
    &&& rule.body@.len() == 1
    &&& binds(set, rule, 0, Var::Free(RulePort::Fun(PortNum::Zero)), Polarity::Neg, S@)
    &&& term_named(set, bound_cell(set, rule, 0).left_of(), Z@)
}

/// In `set`, `rule` is the rule `(S l₀) ⋈ (fib₀ r₀) ⟶ l₀ ← (dup x₀ x₁),
/// x₂ ← (add r₀ x₃), x₀ ← (fib₀ x₂), x₁ ← (fib x₃)`: four bound variables,
/// and four equations: the end of the successor's port bound to a
/// duplicator of `x₀` and `x₁`; `x₂` to an adder of the end of the cell's
/// port and `x₃`; `x₀` to a second-stage Fibonacci cell of `x₂`; `x₁` to a
/// Fibonacci cell of `x₃`.
pub open spec fn s_fib0_rule<'a>(set: RuleSet<'a>, rule: Rule) -> bool {
    &&& rule.bvar_count == 4
    &&& rule.body@.len() == 4
    &&& binds(set, rule, 0, Var::Free(RulePort::Ctr(PortNum::Zero)), Polarity::Pos, DUP@)
    &&& term_holds(set, bound_cell(set, rule, 0).left_of(), Var::Bound(0), Polarity::Neg)
    &&& term_holds(set, bound_cell(set, rule, 0).right_of(), Var::Bound(1), Polarity::Neg)
    &&& binds(set, rule, 1, Var::Bound(2), Polarity::Pos, ADD@)
    &&& term_holds(set, bound_cell(set, rule, 1).left_of(), Var::Free(RulePort::Fun(PortNum::Zero)), Polarity::Neg)
    &&& term_holds(set, bound_cell(set, rule, 1).right_of(), Var::Bound(3), Polarity::Pos)
    &&& binds(set, rule, 2, Var::Bound(0), Polarity::Pos, FIB_0@)
    &&& term_holds(set, bound_cell(set, rule, 2).left_of(), Var::Bound(2), Polarity::Neg)
    &&& binds(set, rule, 3, Var::Bound(1), Polarity::Pos, FIB@)
    &&& term_holds(set, bound_cell(set, rule, 3).left_of(), Var::Bound(3), Polarity::Neg)
}

impl SymbolBook {
    /// Declares the two stages of the Fibonacci function: functions with
    /// one positive port.
    pub fn declare_fib_symbols(&mut self)
        requires
            old(self).wf(),
            old(self).symbols_view().len() + 2 <= SYMBOL_INDEX_LIMIT,
        ensures
            final(self).wf(),
            final(self).symbols_view().len() == old(self).symbols_view().len() + 2,
            final(self).symbols_view().take(old(self).symbols_view().len() as int) == old(self).symbols_view(),
            final(self).names_view() == old(self).names_view().push(FIB@).push(FIB_0@),
            final(self).symbols_view()[old(self).symbols_view().len() as int].made1(Polarity::Neg, Polarity::Pos),
            final(self).symbols_view()[old(self).symbols_view().len() + 1int].made1(Polarity::Neg, Polarity::Pos),
    {
        let ghost n = self.symbols_view().len();
        self.fun1(&SymbolName(FIB), Polarity::Pos);
        let ghost mid = self.symbols_view();
        self.fun1(&SymbolName(FIB_0), Polarity::Pos);
        assert(self.symbols_view()[n as int] == mid[n as int]);
        assert(self.symbols_view().take(n as int) =~= old(self).symbols_view());
    }
}

impl<'a> EquationBuilder<'a, NetF> {
    /// A Fibonacci cell with `num` in its port.
    pub fn fib(&mut self, num: TermPtr) -> (r: CellPtr)
        requires
            old(self).wf(),
        ensures
            final(self).wf(),
            final(self).extends(*old(self)),
            r.ptr_bits() < 0xffffff,
            old(self).failed() is Some ==> *final(self) == *old(self),
            final(self).failed() is None ==> final(self).heap_of().has_cell(r) && last_index_of(
                final(self).book().names_view(),
                FIB@,
            ) == Some(final(self).heap_of().cell_at(r).symbol_of().index_of())
                && final(self).heap_of().cell_at(r).left_of() == num,
            old(self).failed() is None ==> final(self).failed() == cell1_error(
                old(self).book(),
                old(self).heap_of(),
                FIB@,
                num,
            ),
    {
        self.cell1(&SymbolName(FIB), num)
    }

    /// A second-stage Fibonacci cell with `num` in its port.
    pub fn fib0(&mut self, num: TermPtr) -> (r: CellPtr)
        requires
            old(self).wf(),
        ensures
            final(self).wf(),
            final(self).extends(*old(self)),
            r.ptr_bits() < 0xffffff,
            old(self).failed() is Some ==> *final(self) == *old(self),
            final(self).failed() is None ==> final(self).heap_of().has_cell(r) && last_index_of(
                final(self).book().names_view(),
                FIB_0@,
            ) == Some(final(self).heap_of().cell_at(r).symbol_of().index_of())
                && final(self).heap_of().cell_at(r).left_of() == num,
            old(self).failed() is None ==> final(self).failed() == cell1_error(
                old(self).book(),
                old(self).heap_of(),
                FIB_0@,
                num,
            ),
    {
        self.cell1(&SymbolName(FIB_0), num)
    }

    /// The redex of the numeral cell `num` and a Fibonacci cell whose port
    /// holds `result`.
    pub fn fibonacci(&mut self, num: CellPtr, result: TermPtr)
        requires
            old(self).wf(),
        ensures
            final(self).wf(),
            final(self).extends(*old(self)),
            old(self).failed() is Some ==> *final(self) == *old(self),
            final(self).failed() is None ==> {
                &&& final(self).equations_view().len() == old(self).equations_view().len() + 1
                &&& final(self).equations_view().drop_last() == old(self).equations_view()
                &&& cells_kept(old(self).heap_of(), final(self).heap_of())
                &&& exists|f: CellPtr|
                    {
                        &&& #[trigger] final(self).equations_view().last().is_redex(num, f)
                        &&& final(self).heap_of().has_cell(f)
                        &&& last_index_of(final(self).book().names_view(), FIB@) == Some(
                            final(self).heap_of().cell_at(f).symbol_of().index_of(),
                        )
                        &&& final(self).heap_of().cell_at(f).left_of() == result
                    }
            },
            old(self).failed() is None && fib_net_declared(old(self).book()) && old(self).heap_of().cell_room_count() >= 1
                && num.polarity_of() == Polarity::Pos && result.polarity_of() == Polarity::Neg && port_word(result)
                ==> final(self).failed() is None,
            final(self).head_view() == old(self).head_view(),
            final(self).heap_of().vars == old(self).heap_of().vars,
            old(self).failed() is None && cell1_error(old(self).book(), old(self).heap_of(), FIB@, result) is Some ==> final(self).failed()
                == cell1_error(old(self).book(), old(self).heap_of(), FIB@, result),
            old(self).failed() is None && cell1_error(old(self).book(), old(self).heap_of(), FIB@, result) is None ==> {
                let fib = old(self).book().symbols_view()[last_index_of(old(self).book().names_view(), FIB@)->0 as int];
                &&& (num.polarity_of() == Polarity::Pos && fib.polarity_of() == Polarity::Neg) ==> final(self).failed() is None
                &&& !(num.polarity_of() == Polarity::Pos && fib.polarity_of() == Polarity::Neg) ==> final(self).failed() == Some(
                    BuildError::ShortCircuit,
                )
            },
    {
        let fib = self.cell1(&SymbolName(FIB), result);
        proof {
            if self.failed() is None {
                lemma_cell_added_keeps(old(self).heap_of(), self.heap_of(), fib, self.heap_of().cell_at(fib).symbol_of());
            }
        }
        self.redex(num, fib);
        assert(self.failed() is None ==> self.equations_view().last().is_redex(num, fib));
    }
}

impl<'a> RuleBuilder<'a> {
    /// A Fibonacci cell with `num` in its port.
    pub fn fib(&mut self, num: TermPtr) -> (r: CellPtr)
        requires
            old(self).wf(),
        ensures
            final(self).wf(),
            final(self).extends(*old(self)),
            r.ptr_bits() < 0xffffff,
            old(self).failed() is Some ==> *final(self) == *old(self),
            final(self).failed() is None ==> final(self).set().heap.has_cell(r) && resolves(
                final(self).set().symbols,
                FIB@,
                final(self).set().heap.cell_at(r).symbol_of(),
            ) && final(self).set().heap.cell_at(r).left_of() == num,
            old(self).failed() is None ==> final(self).failed() == cell1_error(
                old(self).set().symbols,
                old(self).set().heap,
                FIB@,
                num,
            ),
            room_used(old(self).set(), final(self).set(), 1, 0, 0),
            final(self).building() == old(self).building(),
            final(self).failed() is None ==> r.wf(),
    {
        self.cell1(&SymbolName(FIB), num)
    }

    /// A second-stage Fibonacci cell with `num` in its port.
    pub fn fib0(&mut self, num: TermPtr) -> (r: CellPtr)
        requires
            old(self).wf(),
        ensures
            final(self).wf(),
            final(self).extends(*old(self)),
            r.ptr_bits() < 0xffffff,
            old(self).failed() is Some ==> *final(self) == *old(self),
            final(self).failed() is None ==> final(self).set().heap.has_cell(r) && resolves(
                final(self).set().symbols,
                FIB_0@,
                final(self).set().heap.cell_at(r).symbol_of(),
            ) && final(self).set().heap.cell_at(r).left_of() == num,
            old(self).failed() is None ==> final(self).failed() == cell1_error(
                old(self).set().symbols,
                old(self).set().heap,
                FIB_0@,
                num,
            ),
            room_used(old(self).set(), final(self).set(), 1, 0, 0),
            final(self).building() == old(self).building(),
            final(self).failed() is None ==> r.wf(),
    {
        self.cell1(&SymbolName(FIB_0), num)
    }
}

impl<'a> RuleSet<'a> {
    /// The rules of the Fibonacci function.
    #[verifier::rlimit(60)]
    #[verifier::spinoff_prover]
    pub fn fib_rules(&mut self) -> (r: Result<(), BuildError>)
        requires
            old(self).wf(),
        ensures
            final(self).wf(),
            final(self).symbols == old(self).symbols,
            final(self).rules_view().len() >= old(self).rules_view().len(),
            r is Ok ==> final(self).rules_view().len() == old(self).rules_view().len() + 4,
            r is Ok ==> has_rule_for(final(self), Z@, FIB@),
            r is Ok ==> has_rule_for(final(self), S@, FIB@),
            r is Ok ==> has_rule_for(final(self), Z@, FIB_0@),
            r is Ok ==> has_rule_for(final(self), S@, FIB_0@),
            forall|c: Seq<char>, f: Seq<char>| has_rule_for(old(self), c, f) ==> #[trigger] has_rule_for(final(self), c, f),
            fib_declared(old(self).symbols) && set_room(*old(self), 8, 10, 7, 4) ==> r is Ok && room_used(
                *old(self),
                *final(self),
                8,
                10,
                7,
            ),
            last_index_of(old(self).symbols.names_view(), Z@) is None || last_index_of(
                old(self).symbols.names_view(),
                FIB@,
            ) is None ==> r == Err::<(), BuildError>(BuildError::UnknownSymbol),
            set_grew(*old(self), *final(self)),
            final(self).rules_view().len() >= old(self).rules_view().len(),
            final(self).rules_view().take(old(self).rules_view().len() as int) == old(self).rules_view(),
            fib_declared(old(self).symbols) && r is Ok ==> {
                &&& z_fib_rule(*final(self), final(self).rules_view()[old(self).rules_view().len() + 0int]->0)
                &&& s_fib_rule(*final(self), final(self).rules_view()[old(self).rules_view().len() + 1int]->0)
                &&& z_fib0_rule(*final(self), final(self).rules_view()[old(self).rules_view().len() + 2int]->0)
                &&& s_fib0_rule(*final(self), final(self).rules_view()[old(self).rules_view().len() + 3int]->0)
            },
    {
        // Z ⋈ (fib r₀)  ⟶  r₀ ← Z
        let ghost start = *self;
        let r = self.rule(&SymbolName(Z), &SymbolName(FIB), |b: &mut RuleBuilder<'a>|
            requires
                old(b).wf(),
            ensures
                final(b).wf(),
                final(b).extends(*old(b)),
                writing_rule_for(*old(b), Z@, FIB@) && fib_declared(old(b).set().symbols) && set_room(old(b).set(), 1, 1, 1, 0)
                    ==> final(b).failed() is None && room_used(old(b).set(), final(b).set(), 1, 1, 1),
                writing_rule_for(*old(b), Z@, FIB@) && fib_declared(old(b).set().symbols) && final(b).failed() is None ==> z_fib_rule(
                    final(b).set(),
                    final(b).building(),
                ),
            {
                let ghost b0 = *b;
                proof {
                    b.lemma_port_symbols();
                }
                let r0 = b.fun_port_0();
                let zero = b.zero();
                let e0 = b.bind(r0, zero);
                proof {
                    if writing_rule_for(b0, Z@, FIB@) && fib_declared(b0.set().symbols) && b.failed() is None {
                        lemma_pointer_word(r0.0);
                        lemma_pointer_word(zero.0);
                        assert(b.building().body@ == seq![e0]);
                        assert(z_fib_rule(b.set(), b.building()));
                    }
                }
            });
        if let Err(e) = r {
            return Err(e);
        }
        proof {
            if fib_declared(start.symbols) {
            assert(z_fib_rule(*self, self.rules_view()[start.rules_view().len() + 0int]->0));
            }
        }
        // (S l₀) ⋈ (fib r₀)  ⟶  l₀ ← (fib₀ r₀)
        let ghost s1 = *self;
        let r = self.rule(&SymbolName(S), &SymbolName(FIB), |b: &mut RuleBuilder<'a>|
            requires
                old(b).wf(),
            ensures
                final(b).wf(),
                final(b).extends(*old(b)),
                writing_rule_for(*old(b), S@, FIB@) && fib_declared(old(b).set().symbols) && set_room(old(b).set(), 1, 2, 1, 0)
                    ==> final(b).failed() is None && room_used(old(b).set(), final(b).set(), 1, 2, 1),
                writing_rule_for(*old(b), S@, FIB@) && fib_declared(old(b).set().symbols) && final(b).failed() is None ==> s_fib_rule(
                    final(b).set(),
                    final(b).building(),
                ),
            {
                let ghost b0 = *b;
                proof {
                    b.lemma_port_symbols();
                }
                let r0 = b.fun_port_0();
                let fib0 = b.fib0(r0.into_term());
                proof {
                    b.lemma_port_symbols();
                }
                let l0 = b.ctr_port_0();
                let e0 = b.bind(l0, fib0);
                proof {
                    if writing_rule_for(b0, S@, FIB@) && fib_declared(b0.set().symbols) && b.failed() is None {
                        lemma_pointer_word(r0.0);
                        lemma_pointer_word(fib0.0);
                        lemma_pointer_word(l0.0);
                        assert(b.building().body@ == seq![e0]);
                        assert(s_fib_rule(b.set(), b.building()));
                    }
                }
            });
        if let Err(e) = r {
            return Err(e);
        }
        proof {
            if fib_declared(start.symbols) {
            assert(z_fib_rule(*self, self.rules_view()[start.rules_view().len() + 0int]->0)) by {
                lemma_set_grew_keeps(s1, *self);
            }
            assert(s_fib_rule(*self, self.rules_view()[start.rules_view().len() + 1int]->0));
            }
        }
        // Z ⋈ (fib₀ r₀)  ⟶  r₀ ← (S Z)
        let ghost s2 = *self;
        let r = self.rule(&SymbolName(Z), &SymbolName(FIB_0), |b: &mut RuleBuilder<'a>|
            requires
                old(b).wf(),
            ensures
                final(b).wf(),
                final(b).extends(*old(b)),
                writing_rule_for(*old(b), Z@, FIB_0@) && fib_declared(old(b).set().symbols) && set_room(old(b).set(), 2, 1, 1, 0)
                    ==> final(b).failed() is None && room_used(old(b).set(), final(b).set(), 2, 1, 1),
                writing_rule_for(*old(b), Z@, FIB_0@) && fib_declared(old(b).set().symbols) && final(b).failed() is None ==> z_fib0_rule(
                    final(b).set(),
                    final(b).building(),
                ),
            {
                let ghost b0 = *b;
                proof {
                    b.lemma_port_symbols();
                }
                let r0 = b.fun_port_0();
                let one = b.one();
                let e0 = b.bind(r0, one);
                proof {
                    if writing_rule_for(b0, Z@, FIB_0@) && fib_declared(b0.set().symbols) && b.failed() is None {
                        lemma_pointer_word(r0.0);
                        lemma_pointer_word(one.0);
                        assert(b.building().body@ == seq![e0]);
                        reveal_with_fuel(is_numeral, 2);
                        assert(z_fib0_rule(b.set(), b.building()));
                    }
                }
            });
        if let Err(e) = r {
            return Err(e);
        }
        proof {
            if fib_declared(start.symbols) {
            assert(z_fib_rule(*self, self.rules_view()[start.rules_view().len() + 0int]->0)) by {
                lemma_set_grew_keeps(s2, *self);
            }
            assert(s_fib_rule(*self, self.rules_view()[start.rules_view().len() + 1int]->0)) by {
                lemma_set_grew_keeps(s2, *self);
            }
            assert(z_fib0_rule(*self, self.rules_view()[start.rules_view().len() + 2int]->0));
            }
        }
        // (S l₀) ⋈ (fib₀ r₀)  ⟶  l₀ ← (dup x₀ x₁), x₂ ← (add r₀ x₃),
        //                          x₀ ← (fib₀ x₂), x₁ ← (fib x₃)
        let ghost s3 = *self;
        let r = self.rule(&SymbolName(S), &SymbolName(FIB_0), |b: &mut RuleBuilder<'a>|
            requires
                old(b).wf(),
            ensures
                final(b).wf(),
                final(b).extends(*old(b)),
                writing_rule_for(*old(b), S@, FIB_0@) && fib_declared(old(b).set().symbols) && set_room(old(b).set(), 4, 6, 4, 0)
                    ==> final(b).failed() is None && room_used(old(b).set(), final(b).set(), 4, 6, 4),
                writing_rule_for(*old(b), S@, FIB_0@) && fib_declared(old(b).set().symbols) && final(b).failed() is None ==> s_fib0_rule(
                    final(b).set(),
                    final(b).building(),
                ),
            {
                let ghost b0 = *b;
                let (x0_in, x0_out) = b.var();
                let (x1_in, x1_out) = b.var();
                let (x2_in, x2_out) = b.var();
                let (x3_in, x3_out) = b.var();
                proof {
                    b.lemma_port_symbols();
                }
                let l0 = b.ctr_port_0();
                let dup = b.cell2(&SymbolName(DUP), x0_in.into_term(), x1_in.into_term());
                let e0 = b.bind(l0, dup);
                proof {
                    b.lemma_port_symbols();
                }
                let r0 = b.fun_port_0();
                let adder = b.adder(r0.into_term(), x3_out.into_term());
                let e1 = b.bind(x2_out, adder);
                let fib0 = b.fib0(x2_in.into_term());
                let e2 = b.bind(x0_out, fib0);
                let fib = b.fib(x3_in.into_term());
                let e3 = b.bind(x1_out, fib);
                proof {
                    if writing_rule_for(b0, S@, FIB_0@) && fib_declared(b0.set().symbols) && b.failed() is None {
                        lemma_pointer_word(x0_in.0);
                        lemma_pointer_word(x0_out.0);
                        lemma_pointer_word(x1_in.0);
                        lemma_pointer_word(x1_out.0);
                        lemma_pointer_word(x2_in.0);
                        lemma_pointer_word(x2_out.0);
                        lemma_pointer_word(x3_in.0);
                        lemma_pointer_word(x3_out.0);
                        lemma_pointer_word(l0.0);
                        lemma_pointer_word(dup.0);
                        lemma_pointer_word(r0.0);
                        lemma_pointer_word(adder.0);
                        lemma_pointer_word(fib0.0);
                        lemma_pointer_word(fib.0);
                        assert(b.building().body@ == seq![e0, e1, e2, e3]);
                        assert(s_fib0_rule(b.set(), b.building()));
                    }
                }
            });
        if let Err(e) = r {
            return Err(e);
        }
        proof {
            if fib_declared(start.symbols) {
            assert(z_fib_rule(*self, self.rules_view()[start.rules_view().len() + 0int]->0)) by {
                lemma_set_grew_keeps(s3, *self);
            }
            assert(s_fib_rule(*self, self.rules_view()[start.rules_view().len() + 1int]->0)) by {
                lemma_set_grew_keeps(s3, *self);
            }
            assert(z_fib0_rule(*self, self.rules_view()[start.rules_view().len() + 2int]->0)) by {
                lemma_set_grew_keeps(s3, *self);
            }
            assert(s_fib0_rule(*self, self.rules_view()[start.rules_view().len() + 3int]->0));
            }
        }
        Ok(())
    }
}

impl<'a> Net<'a> {
    /// Adds the computation of the Fibonacci number of `n` to the net, its
    /// result in a new output.
    pub fn fib(&mut self, n: usize) -> (r: Result<(), BuildError>)
        requires
            old(self).wf(),
        ensures
            final(self).wf(),
            final(self).symbols == old(self).symbols,
            final(self).head@.len() >= old(self).head@.len(),
            forall|i: int| 0 <= i < old(self).head@.len() ==> #[trigger] final(self).head@[i] == old(self).head@[i],
            final(self).body@.len() >= old(self).body@.len(),
            forall|i: int| 0 <= i < old(self).body@.len() ==> #[trigger] final(self).body@[i] == old(self).body@[i],
            fib_net_declared(old(self).symbols) && old(self).heap.var_room() && old(self).heap.cell_room_count() >= n + 2
                ==> r is Ok,
            r matches Err(e) ==> e == BuildError::UnknownSymbol || e == BuildError::OutOfRoom || e == BuildError::MissingPort
                || e == BuildError::ShortCircuit || e == BuildError::BadTerm,
            r is Ok ==> exists|num: CellPtr, f: CellPtr, out: PVarPtr|
                #[trigger] fib_added(
                    old(self).symbols.names_view(),
                    old(self).head@,
                    old(self).body@,
                    old(self).heap,
                    final(self).head@,
                    final(self).body@,
                    final(self).heap,
                    n as nat,
                    num,
                    f,
                    out,
                ),
    {
        self.equations(|b: &mut EquationBuilder<'a, NetF>|
            requires
                old(b).wf(),
            ensures
                final(b).wf(),
                final(b).extends(*old(b)),
                old(b).failed() is None && fib_net_declared(old(b).book()) && old(b).heap_of().var_room()
                    && old(b).heap_of().cell_room_count() >= n + 2 ==> final(b).failed() is None,
                final(b).failed() is None ==> exists|num: CellPtr, f: CellPtr, out: PVarPtr|
                    #[trigger] fib_added(
                        old(b).book().names_view(),
                        old(b).head_view(),
                        old(b).equations_view(),
                        old(b).heap_of(),
                        final(b).head_view(),
                        final(b).equations_view(),
                        final(b).heap_of(),
                        n as nat,
                        num,
                        f,
                        out,
                    ),
            {
                let ghost b0 = *b;
                let result = b.output();
                let ghost b1 = *b;
                let num = b.n(n);
                let ghost b2 = *b;
                let t = result.into_term();
                b.fibonacci(num, t);
                proof {
                    if b.failed() is None {
                        lemma_numeral_kept(b.book().names_view(), b2.heap_of(), b.heap_of(), num, n as nat);
                        let f = choose|f: CellPtr|
                            {
                                &&& #[trigger] b.equations_view().last().is_redex(num, f)
                                &&& b.heap_of().has_cell(f)
                                &&& last_index_of(b.book().names_view(), FIB@) == Some(
                                    b.heap_of().cell_at(f).symbol_of().index_of(),
                                )
                                &&& b.heap_of().cell_at(f).left_of() == t
                            };
                        assert(fib_added(
                            b0.book().names_view(),
                            b0.head_view(),
                            b0.equations_view(),
                            b0.heap_of(),
                            b.head_view(),
                            b.equations_view(),
                            b.heap_of(),
                            n as nat,
                            num,
                            f,
                            result,
                        ));
                    }
                }
            })
    }
}

} // verus!
