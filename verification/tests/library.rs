use inet::arena::{Arena, SimplePtr};
use inet::arenaraw::RawArena;
use inet::cell::{Cell, CellPtr};
use inet::equation::{Equation, EquationKind, EquationPtr};
use inet::finally::compact::SymbolBook as CompactBook;
use inet::finally::symbol::{Polarity as KindPolarity, SymbolArity as CompactArity, SymbolKind, SymbolSym};
use inet::id_arena::Arena as IdArena;
use inet::net::{Net, NetF, NetVar};
use inet::rule::{RulePtr, RuleSet};
use inet::runtime::{EquationsBuffer, Runtime};
use inet::symbol::{Symbol, SymbolArity, SymbolBook, SymbolName, SymbolPtr};
use inet::term::TermPtr;
use inet::util::SmallVector;
use inet::var::{PVarPtr, VarPtr};
use inet::{BuildError, Polarity};

fn book() -> SymbolBook {
    let mut symbols = SymbolBook::new();
    symbols.declare_nat_symbols();
    symbols.declare_arith_symbols();
    symbols.declare_combinator_symbols();
    symbols.declare_fib_symbols();
    symbols
}

#[test]
fn polarity_flips_back() {
    assert_eq!(Polarity::Pos.flip(), Polarity::Neg);
    assert_eq!(Polarity::Pos.flip().flip(), Polarity::Pos);
    assert_eq!(Polarity::Neg.flip().flip(), Polarity::Neg);
    assert_eq!(Polarity::Pos.to_string(), "+");
    assert_eq!(Polarity::Neg.to_string(), "-");
    assert_eq!(Polarity::from_u8(1), Polarity::Neg);
}

#[test]
fn latest_declaration_wins() {
    let mut symbols = SymbolBook::new();
    let a0 = symbols.ctr0(&SymbolName::from("A"));
    let b = symbols.fun1(&SymbolName::from("B"), Polarity::Pos);
    let a1 = symbols.fun0(&SymbolName::from("A"));
    assert_eq!(symbols.get_by_name(&SymbolName::from("A")), Some(a1));
    assert_eq!(symbols.get_by_name(&SymbolName::from("B")), Some(b));
    assert_eq!(symbols.get_by_name(&SymbolName::from("C")), None);
    assert_eq!(a0.get_index(), 0);
    assert_eq!(a1.get_index(), 2);
    assert_eq!(symbols.get_name(a0).map(|n| n.0), Some("A"));
    assert_eq!(symbols.len(), 3);
}

#[test]
fn raw_arena_reuses_the_last_freed_slot() {
    let mut arena = RawArena::<usize>::new();
    let p0 = arena.allocate(10);
    let p1 = arena.allocate(11);
    let p2 = arena.allocate(12);
    let (i0, i1) = (p0.index, p1.index);
    assert_eq!(arena.free(p1), 11);
    assert_eq!(arena.free(p0), 10);
    let q = arena.allocate(20);
    assert_eq!(q.index, i0);
    let r = arena.allocate(21);
    assert_eq!(r.index, i1);
    assert_eq!(arena.get(&r), Some(&21));
    assert_eq!(arena.get(&p2), Some(&12));
    assert_eq!(arena.len(), 3);
}

#[test]
fn arena_reads_back_what_was_stored() {
    let mut arena: Arena<usize, SimplePtr> = Arena::new();
    let i = arena.allocate(5).index;
    let p = |index| SimplePtr { index };
    assert_eq!(arena.get(p(i)), Some(&5));
    assert_eq!(arena.update(p(i), 6), Some(5));
    assert_eq!(arena.get(p(i)), Some(&6));
    assert_eq!(arena.free(p(i)), Some(6));
    assert_eq!(arena.get(p(i)), None);
    assert_eq!(arena.free(p(i)), None);
    assert_eq!(arena.len(), 0);
    assert_eq!(arena.slots(), 1);
}

#[test]
fn rules_are_found_in_either_order() {
    let symbols = book();
    let mut rules = RuleSet::new(&symbols);
    assert_eq!(rules.arith_rules(), Ok(()));
    let z = symbols.get_by_name(&SymbolName::from("Z")).unwrap();
    let s = symbols.get_by_name(&SymbolName::from("S")).unwrap();
    let add = symbols.get_by_name(&SymbolName::from("add")).unwrap();
    let dup = symbols.get_by_name(&SymbolName::from("dup")).unwrap();
    assert_eq!(rules.get_by_symbols(z, add), Some(RulePtr::new(0)));
    assert_eq!(rules.get_by_symbols(add, z), Some(RulePtr::new(0)));
    assert_eq!(rules.get_by_symbols(s, add), Some(RulePtr::new(1)));
    assert_eq!(rules.get_by_symbols(z, dup), None);
    assert_eq!(rules.len(), 6);
    let rule = rules.get_rule(RulePtr::new(1));
    assert_eq!(rule.get_key(), (s.get_index(), add.get_index()));
    assert_eq!(rule.get_bvar_count(), 1);
    assert_eq!(rule.get_fvar_count(), 3);
    assert_eq!(rule.body().len(), 2);
}

#[test]
fn a_rule_whose_constructor_comes_later_is_found() {
    let mut symbols = SymbolBook::new();
    let f = symbols.fun0(&SymbolName::from("f"));
    let c = symbols.ctr0(&SymbolName::from("c"));
    let mut rules = RuleSet::new(&symbols);
    let made = rules.rule(&SymbolName::from("c"), &SymbolName::from("f"), |_b| {});
    assert_eq!(made, Ok(RulePtr::new(0)));
    assert_eq!(rules.get_by_symbols(c, f), Some(RulePtr::new(0)));
    assert_eq!(rules.get_by_symbols(f, c), Some(RulePtr::new(0)));
}

#[test]
fn unknown_names_are_refused() {
    let symbols = book();
    let mut rules = RuleSet::new(&symbols);
    let made = rules.rule(&SymbolName::from("nope"), &SymbolName::from("add"), |_b| {});
    assert_eq!(made, Err(BuildError::UnknownSymbol));
    assert_eq!(rules.len(), 0);
    let made = rules.rule(&SymbolName::from("Z"), &SymbolName::from("add"), |b| {
        b.cell0(&SymbolName::from("nope"));
    });
    assert_eq!(made, Err(BuildError::UnknownSymbol));
    assert_eq!(rules.len(), 0);
}

#[test]
fn builders_report_the_first_failure() {
    let symbols = book();
    let mut net = Net::new(&symbols);
    // Z has no port.
    let r = net.equations(|b| {
        let zero = b.zero();
        b.cell1(&SymbolName::from("Z"), zero.into_term());
    });
    assert_eq!(r, Err(BuildError::MissingPort));
    // Two ends of the same polarity.
    let r = net.equations(|b| {
        let (neg, _pos) = b.var();
        let (neg2, _pos2) = b.var();
        b.connect(neg, neg2);
        b.cell0(&SymbolName::from("nope"));
    });
    assert_eq!(r, Err(BuildError::ShortCircuit));
    // A negative cell where a constructor is expected.
    let r = net.equations(|b| {
        let out = b.output();
        let zero = b.zero();
        let adder = b.adder(out.into_term(), zero.into_term());
        b.redex(adder, adder);
    });
    assert_eq!(r, Err(BuildError::ShortCircuit));
    // The successor's port takes a positive term.
    let r = net.equations(|b| {
        let (neg, _pos) = b.var();
        b.cell1(&SymbolName::from("S"), neg.into_term());
    });
    assert_eq!(r, Err(BuildError::ShortCircuit));
}

#[test]
fn net_variables_keep_the_first_cell() {
    let c1 = CellPtr::new(1, Polarity::Pos);
    let c2 = CellPtr::new(2, Polarity::Neg);
    let mut var = NetVar::default();
    assert_eq!(var.get_cell_ptr(), None);
    assert_eq!(var.set_or_get(c1), (c1, None));
    assert_eq!(var.get_cell_ptr(), Some(c1));
    assert_eq!(var.set_or_get(c2), (c2, Some(c1)));
    assert_eq!(var.get_cell_ptr(), Some(c2));
    assert_eq!(var.set_or_get(c2), (c2, None));
}

#[test]
fn cells_meet_positive_first() {
    let symbols = book();
    let rules = RuleSet::new(&symbols);
    let runtime = Runtime::new(&rules, false);
    let pos = CellPtr::new(1, Polarity::Pos);
    let neg = CellPtr::new(2, Polarity::Neg);
    assert_eq!(runtime.order_ctr_fun(pos, neg), (pos, neg));
    assert_eq!(runtime.order_ctr_fun(neg, pos), (pos, neg));
}

#[test]
fn an_empty_net_needs_no_work() {
    let symbols = book();
    let rules = RuleSet::new(&symbols);
    let mut runtime = Runtime::new(&rules, false);
    let (net, result) = runtime.eval(Net::new(&symbols), 0);
    assert_eq!(result, Ok(()));
    assert!(net.body.is_empty());
    assert_eq!(runtime.get_rewrites(), 0);
}

#[test]
fn pointer_debug_texts() {
    let c = CellPtr::new(5, Polarity::Pos);
    assert_eq!(
        c.debug_string(),
        "CellPtr(00000000000000000000000000000101) { polarity: Pos, index: 5 }"
    );
    let p = SymbolPtr::new(1, SymbolArity::One, Polarity::Neg);
    assert_eq!(p.debug_string(), "SymbolPtr(0001100000000001) { polarity: Neg, index: 1 }");
    let s = Symbol::new1(Polarity::Neg, Polarity::Pos);
    assert_eq!(s.debug_string(), "Symbol(01100000) { arity: One, polarity: Neg, port: Pos }");
    let v = VarPtr::new(5);
    assert_eq!(v.debug_string(), "VarPtr(101) { index: 5 }");
    assert_eq!(v.binary_string(), "101");
    let t = TermPtr::new_cell(c);
    assert_eq!(
        t.debug_string(),
        "TermPtr(00000000000000000000000000000101) { kind: Cell, cell: CellPtr(00000000000000000000000000000101) { polarity: Pos, index: 5 } }"
    );
    let r = RulePtr::new(42);
    assert_eq!(r.debug_string(), "RulePtr(0000000000101010) { index: 42 }");
    let e = EquationPtr::new(7, EquationKind::Bind);
    assert_eq!(e.binary_string(), "1000000000000000000000000000111");
}

#[test]
fn equation_and_cell_texts() {
    let ctr = CellPtr::new(3, Polarity::Pos);
    let fun = CellPtr::new(4, Polarity::Neg);
    let e: Equation<NetF> = Equation::redex(ctr, fun);
    assert_eq!(e.get_kind(), EquationKind::Redex);
    assert_eq!(e.get_redex_ctr(), ctr);
    assert_eq!(e.get_redex_fun(), fun);
    assert_eq!(
        e.debug_string(),
        format!(
            "Equation({:064b}) {{ kind: Redex, left: {}, right: {} }}",
            e.0,
            ctr.debug_string(),
            fun.debug_string()
        )
    );
    let p = SymbolPtr::new(0, SymbolArity::Zero, Polarity::Pos);
    let cell: Cell<NetF> = Cell::new0(p);
    assert_eq!(
        cell.debug_string(),
        format!("Cell0({:064b}) {{ symbol: {} }}", cell.0, p.debug_string())
    );
}

#[test]
fn heap_texts() {
    let symbols = book();
    let mut net = Net::new(&symbols);
    assert_eq!(
        net.equations(|b| {
            let out = b.output();
            let one = b.one();
            b.bind(out, one);
        }),
        Ok(())
    );
    assert_eq!(net.display_body().to_string(), " _.0 ← (S Z)");
    assert_eq!(net.display_head().to_string(), " _.0");
    assert_eq!(net.to_string(), "< _.0 |  _.0 ← (S Z) > (2 cells, 1 vars)");
}

#[test]
fn rule_texts() {
    let symbols = book();
    let mut rules = RuleSet::new(&symbols);
    assert_eq!(rules.arith_add_rules(), Ok(()));
    assert_eq!(
        rules.display_rule(RulePtr::new(0)).to_string(),
        "(add F₀ F₁) ⋈ Z  ⟶  , F₀ ↔ F₁"
    );
    assert_eq!(
        rules.to_string(),
        "(add F₀ F₁) ⋈ Z  ⟶  , F₀ ↔ F₁\n(add F₀ F₁) ⋈ (S C₀)  ⟶  , F₀ ← (S ?0), C₀ ← (add ?0 F₁)\n"
    );
}

#[test]
fn small_vectors_keep_their_items() {
    let inline: SmallVector<u8, 4> = SmallVector::new(7, 3);
    assert!(matches!(inline, SmallVector::Inline(3, _)));
    assert_eq!(inline.as_slice(), &[7, 7, 7]);
    let mut dynamic: SmallVector<u8, 4> = SmallVector::new(7, 5);
    assert!(matches!(dynamic, SmallVector::Dynamic(_)));
    dynamic.as_mut_slice()[0] = 1;
    assert_eq!(dynamic.as_slice(), &[1, 7, 7, 7, 7]);
}

#[test]
fn equation_buffers_keep_their_order() {
    let mut buffer = EquationsBuffer::new();
    let a: Equation<NetF> = Equation::from_u64(1);
    let b: Equation<NetF> = Equation::from_u64(2);
    buffer.push(a);
    buffer.push(b);
    assert_eq!(buffer.get(1).0, 2);
    assert_eq!(buffer.slice().len(), 2);
    assert_eq!(buffer.slice()[0].0, 1);
}

#[test]
fn id_arena_keeps_generations() {
    let mut arena: IdArena<u8> = IdArena::new();
    let a = arena.allocate(1);
    let b = arena.allocate_with(|| 2);
    assert_eq!((a.index, a.generation), (0, 0));
    assert_eq!(b.index, 1);
    assert_eq!(arena.get(&b), Some(&2));
    assert_eq!(arena.remove(&a), Some(1));
    assert_eq!(arena.get(&a), None);
    assert_eq!(arena.remove(&a), None);
    assert_eq!(arena.len(), 2);
    let mut c = a;
    c.next_generation();
    assert_eq!(c.generation, 1);
}

#[test]
fn a_removed_id_stays_empty_after_later_allocations() {
    let mut arena: IdArena<u8> = IdArena::new();
    let a = arena.allocate(1);
    assert_eq!(arena.remove(&a), Some(1));
    let b = arena.allocate(2);
    let c = arena.allocate_with(|| 3);
    assert_eq!(b.index, 1);
    assert_eq!(c.index, 2);
    assert_eq!(arena.get(&a), None);
    assert_eq!(arena.remove(&a), None);
    assert_eq!(arena.get(&b), Some(&2));
    assert_eq!(arena.get(&c), Some(&3));
}

#[test]
fn compact_symbols_record_no_arity() {
    let s = CompactBook::symbol1("S", SymbolKind::Ctr, KindPolarity::Neg);
    assert!(matches!(s.arity, CompactArity::Zero));
    assert_eq!(s.polarity, KindPolarity::Pos);
    assert_eq!(s.left_polarity, Some(KindPolarity::Neg));
    assert_eq!(s.name, "S");
    let f = CompactBook::symbol2("add", SymbolKind::Fun, KindPolarity::Pos, KindPolarity::Neg);
    assert_eq!(f.polarity, KindPolarity::Neg);
    assert_eq!(f.right_polarity, Some(KindPolarity::Neg));
}

#[test]
fn variable_ends_wire_up() {
    let v = VarPtr::new(9);
    let (neg, pos) = PVarPtr::wire(v);
    assert_eq!(neg.get_polarity(), Polarity::Neg);
    assert_eq!(pos.get_polarity(), Polarity::Pos);
    assert_eq!(neg.get_fvar_ptr(), v);
    assert_eq!(pos.get_fvar_ptr(), v);
    let t = pos.into_term();
    assert_eq!(t.get_pvar_ptr(), pos);
    assert_eq!(t.get_polarity(), Polarity::Pos);
}
