use inet::arenaraw::RawArena;
use inet::equation::{EquationKind, EquationPtr};
use inet::rule::{Rule, RulePtr, Rules};
use inet::symbol::{Symbol, SymbolArity, SymbolBook, SymbolName, SymbolPtr};
use inet::Polarity;

#[test]
fn it_works() {
    let mut vec = RawArena::<usize>::new();
    assert_eq!(vec.len(), 0);
    let ptr = vec.allocate(6);
    assert_eq!(vec.len(), 1);
    let old = vec.set(&ptr, 11);
    assert_eq!(vec.len(), 1);
    assert_eq!(vec.get(&ptr), Some(&11));
    assert_eq!(Some(&old), Some(&6));
    assert_eq!(vec.free(ptr), 11);
    assert_eq!(vec.len(), 0);
}

#[test]
fn test_equation_ptr_new() {
    let eqn_ptr = EquationPtr::new(100, EquationKind::Redex);
    assert_eq!(eqn_ptr.get_index(), 100);
    assert_eq!(eqn_ptr.get_kind(), EquationKind::Redex);
}

#[test]
fn test_equation_ptr_set_and_get_index() {
    let mut eqn_ptr = EquationPtr::new(100, EquationKind::Redex);
    assert_eq!(eqn_ptr.get_index(), 100);

    eqn_ptr.set_index(200);
    assert_eq!(eqn_ptr.get_index(), 200);
}

#[test]
fn test_equation_ptr_set_and_get_kind() {
    let mut eqn_ptr = EquationPtr::new(100, EquationKind::Redex);
    assert_eq!(eqn_ptr.get_kind(), EquationKind::Redex);

    eqn_ptr.set_kind(EquationKind::Bind);
    assert_eq!(eqn_ptr.get_kind(), EquationKind::Bind);
}

#[test]
fn test_equation_debug_fmt() {
    let eqn_ptr = EquationPtr::new(100, EquationKind::Redex);
    assert_eq!(
        eqn_ptr.debug_string(),
        "EquationPtr { kind: Redex, index: 100 }"
    );
}

#[test]
fn test_rule_ptrs() {
    let mut ptr = RulePtr::new(42);
    assert_eq!(ptr.get_index(), 42);
    ptr.set_index(43);
    assert_eq!(ptr.get_index(), 43);
}

#[test]
fn test_rule_add_and_get() {
    let _rules = Rules::new();
    let mut symbols = SymbolBook::new();
    let ctr = symbols.ctr0(&SymbolName::from("Ctr"));
    let fun = symbols.fun0(&SymbolName::from("Fun"));
    let _rule = Rule::new(ctr, fun);
}

#[test]
fn test_rule_add_all() {
    let _rules = Rules::new();
    let mut symbols = SymbolBook::new();
    let ctr1 = symbols.ctr0(&SymbolName::from("Ctr1"));
    let fun1 = symbols.fun0(&SymbolName::from("Fun1"));
    let _rule1 = Rule::new(ctr1, fun1);

    let ctr2 = symbols.ctr0(&SymbolName::from("Ctr2"));
    let fun2 = symbols.fun0(&SymbolName::from("Fun2"));
    let _rule2 = Rule::new(ctr2, fun2);

    let _all_rules = Rules::new();
}

#[test]
fn test_symbol_ptr_new0_neg() {
    let ptr = SymbolPtr::new(1, SymbolArity::One, Polarity::Neg);
    assert_eq!(ptr.get_index(), 1);
    assert_eq!(ptr.get_polarity(), Polarity::Neg);
    assert_eq!(ptr.get_arity(), SymbolArity::One);
}

#[test]
fn test_symbol_ptr_new0_pos() {
    let ptr = SymbolPtr::new(1, SymbolArity::Two, Polarity::Pos);
    assert_eq!(ptr.get_index(), 1);
    assert_eq!(ptr.get_polarity(), Polarity::Pos);
    assert_eq!(ptr.get_arity(), SymbolArity::Two);
}

#[test]
fn test_symbol_new0_neg() {
    let sym = Symbol::new0(Polarity::Neg);
    println!("{:0b}", sym.0);
    assert_eq!(sym.get_arity(), SymbolArity::Zero);
    assert_eq!(sym.get_polarity(), Polarity::Neg);
}

#[test]
fn test_symbol_new0_pos() {
    let sym = Symbol::new0(Polarity::Pos);
    assert_eq!(sym.get_arity(), SymbolArity::Zero);
    assert_eq!(sym.get_polarity(), Polarity::Pos);
}

#[test]
fn test_symbol_new1_neg_pos() {
    let sym = Symbol::new1(Polarity::Neg, Polarity::Pos);
    assert_eq!(sym.get_arity(), SymbolArity::One);
    assert_eq!(sym.get_polarity(), Polarity::Neg);
    assert_eq!(sym.get_left_polarity(), Polarity::Pos);
}

#[test]
fn test_symbol_new1_neg_neg() {
    let sym = Symbol::new1(Polarity::Neg, Polarity::Neg);
    assert_eq!(sym.get_arity(), SymbolArity::One);
    assert_eq!(sym.get_polarity(), Polarity::Neg);
    assert_eq!(sym.get_left_polarity(), Polarity::Neg);
}

#[test]
fn test_symbol_new1_pos_pos() {
    let sym = Symbol::new1(Polarity::Pos, Polarity::Pos);
    assert_eq!(sym.get_arity(), SymbolArity::One);
    assert_eq!(sym.get_polarity(), Polarity::Pos);
    assert_eq!(sym.get_left_polarity(), Polarity::Pos);
}

#[test]
fn test_symbol_new1_pos_neg() {
    let sym = Symbol::new1(Polarity::Pos, Polarity::Neg);
    assert_eq!(sym.get_arity(), SymbolArity::One);
    assert_eq!(sym.get_polarity(), Polarity::Pos);
    assert_eq!(sym.get_left_polarity(), Polarity::Neg);
}

#[test]
fn test_symbol_new2_pos_pos_pos() {
    let sym = Symbol::new2(Polarity::Pos, Polarity::Pos, Polarity::Pos);
    assert_eq!(sym.get_arity(), SymbolArity::Two);
    assert_eq!(sym.get_polarity(), Polarity::Pos);
    assert_eq!(sym.get_left_polarity(), Polarity::Pos);
    assert_eq!(sym.get_right_polarity(), Polarity::Pos);
}

#[test]
fn test_symbol_new2_pos_pos_neg() {
    let sym = Symbol::new2(Polarity::Pos, Polarity::Pos, Polarity::Neg);
    assert_eq!(sym.get_arity(), SymbolArity::Two);
    assert_eq!(sym.get_polarity(), Polarity::Pos);
    assert_eq!(sym.get_left_polarity(), Polarity::Pos);
    assert_eq!(sym.get_right_polarity(), Polarity::Neg);
}

#[test]
fn test_symbol_new2_pos_neg_neg() {
    let sym = Symbol::new2(Polarity::Pos, Polarity::Neg, Polarity::Neg);
    assert_eq!(sym.get_arity(), SymbolArity::Two);
    assert_eq!(sym.get_polarity(), Polarity::Pos);
    assert_eq!(sym.get_left_polarity(), Polarity::Neg);
    assert_eq!(sym.get_right_polarity(), Polarity::Neg);
}

#[test]
fn test_symbol_new2_neg_neg_neg() {
    let sym = Symbol::new2(Polarity::Neg, Polarity::Neg, Polarity::Neg);
    assert_eq!(sym.get_arity(), SymbolArity::Two);
    assert_eq!(sym.get_polarity(), Polarity::Neg);
    assert_eq!(sym.get_left_polarity(), Polarity::Neg);
    assert_eq!(sym.get_right_polarity(), Polarity::Neg);
}

#[test]
fn test_symbol_new2_neg_pos_neg() {
    let sym = Symbol::new2(Polarity::Neg, Polarity::Pos, Polarity::Neg);
    assert_eq!(sym.get_arity(), SymbolArity::Two);
    assert_eq!(sym.get_polarity(), Polarity::Neg);
    assert_eq!(sym.get_left_polarity(), Polarity::Pos);
    assert_eq!(sym.get_right_polarity(), Polarity::Neg);
}

#[test]
fn test_symbol_new2_neg_pos_pos() {
    let sym = Symbol::new2(Polarity::Neg, Polarity::Pos, Polarity::Pos);
    assert_eq!(sym.get_arity(), SymbolArity::Two);
    assert_eq!(sym.get_polarity(), Polarity::Neg);
    assert_eq!(sym.get_left_polarity(), Polarity::Pos);
    assert_eq!(sym.get_right_polarity(), Polarity::Pos);
}

#[test]
fn test_symbol_new2_neg_neg_pos() {
    let sym = Symbol::new2(Polarity::Neg, Polarity::Neg, Polarity::Pos);
    assert_eq!(sym.get_arity(), SymbolArity::Two);
    assert_eq!(sym.get_polarity(), Polarity::Neg);
    assert_eq!(sym.get_left_polarity(), Polarity::Neg);
    assert_eq!(sym.get_right_polarity(), Polarity::Pos);
}

#[test]
fn test_symbol_ptr_new_set_index() {
    let mut ptr = SymbolPtr::new(0, SymbolArity::Zero, Polarity::Pos);
    ptr.set_index(100);
    assert_eq!(ptr.get_index(), 100);
}

#[test]
fn test_symbol_ptr_new_set_polarity() {
    let mut ptr = SymbolPtr::new(0, SymbolArity::One, Polarity::Pos);
    ptr.set_polarity(Polarity::Neg);
    assert_eq!(ptr.get_polarity(), Polarity::Neg);
}
