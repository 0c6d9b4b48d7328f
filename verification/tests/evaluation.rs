use inet::cell::CellPtr;
use inet::equation::{EquationBuilder, EquationKind};
use inet::net::{Net, NetF};
use inet::rule::{RulePtr, RuleSet};
use inet::runtime::{EvalError, Runtime};
use inet::symbol::SymbolBook;
use inet::term::{TermKind, TermPtr};

fn book() -> SymbolBook {
    let mut symbols = SymbolBook::new();
    symbols.declare_nat_symbols();
    symbols.declare_arith_symbols();
    symbols.declare_combinator_symbols();
    symbols.declare_fib_symbols();
    symbols
}

fn rules(symbols: &SymbolBook) -> RuleSet<'_> {
    let mut rules = RuleSet::new(symbols);
    assert_eq!(rules.arith_rules(), Ok(()));
    assert_eq!(rules.define_combinator_rules(), Ok(()));
    assert_eq!(rules.fib_rules(), Ok(()));
    rules
}

/// The cell a term stands for, following bound variables.
fn cell_of(net: &Net, term: TermPtr) -> Option<CellPtr> {
    match term.get_kind() {
        TermKind::Cell => Some(term.get_cell_ptr()),
        TermKind::Var => {
            let var = net.heap.vars.get(term.get_pvar_ptr().get_fvar_ptr())?;
            var.get_store().get_cell_ptr()
        }
    }
}

/// The number that a chain of `S` cells ending in `Z` stands for.
fn read_nat(net: &Net, cell_ptr: CellPtr) -> Option<usize> {
    let mut n = 0;
    let mut cell_ptr = cell_ptr;
    loop {
        let cell = net.heap.cells.get_checked(&cell_ptr)?;
        let name = net.symbols.get_name(cell.get_symbol_ptr())?;
        match name.0 {
            "Z" => return Some(n),
            "S" => {
                n += 1;
                cell_ptr = cell_of(net, cell.get_left_port())?;
            }
            _ => return None,
        }
    }
}

/// The numbers that the net's outputs hold, in order.
fn outputs(net: &Net) -> Vec<Option<usize>> {
    net.head
        .iter()
        .map(|end| {
            let var = net.heap.vars.get(end.get_fvar_ptr())?;
            let cell = var.get_store().get_cell_ptr()?;
            read_nat(net, cell)
        })
        .collect()
}

fn run<F>(build: F) -> (Vec<Option<usize>>, usize)
where
    F: FnOnce(&mut EquationBuilder<NetF>),
{
    let symbols = book();
    let rules = rules(&symbols);
    let mut net = Net::new(&symbols);
    assert_eq!(net.equations(build), Ok(()));
    let mut runtime = Runtime::new(&rules, false);
    let (net, result) = runtime.eval(net, 100_000);
    assert_eq!(result, Ok(()));
    assert!(net.body.is_empty());
    (outputs(&net), runtime.get_rewrites())
}

#[test]
fn one_plus_two_is_three() {
    let symbols = book();
    let rules = rules(&symbols);
    let mut net = Net::new(&symbols);
    let built = net.equations(|b| {
        let one = b.one();
        let r_fvar = b.output();
        let adder = b.adder(r_fvar.into_term(), one.into_term());
        let two = b.two();
        b.add(two, adder);
    });
    assert_eq!(built, Ok(()));
    let mut runtime = Runtime::new(&rules, false);
    let (net, result) = runtime.eval(net, 1000);
    assert_eq!(result, Ok(()));
    assert_eq!(net.to_string(), "< _.0=(S x.1) |  > (4 cells, 3 vars)");
    assert_eq!(runtime.get_rewrites(), 3);
    assert_eq!(outputs(&net), vec![Some(3)]);
}

#[test]
fn one_plus_zero_is_one() {
    let (out, rewrites) = run(|b| {
        let one = b.one();
        let r_fvar = b.output();
        let adder = b.adder(r_fvar.into_term(), one.into_term());
        let zero = b.zero();
        b.add(zero, adder);
    });
    assert_eq!(out, vec![Some(1)]);
    assert_eq!(rewrites, 1);
}

#[test]
fn subtractions() {
    // 2 - 1 = 1
    let (out, _) = run(|b| {
        let result = b.output();
        let one = b.one();
        let subtractor = b.subtractor(result.into_term(), one.into_term());
        let two = b.two();
        b.subtract(two, subtractor);
    });
    assert_eq!(out, vec![Some(1)]);
    // 3 - 2 = 1
    let (out, _) = run(|b| {
        let result = b.output();
        let two = b.two();
        let three = b.succ(two);
        let subtractor = b.subtractor(result.into_term(), three.into_term());
        let two = b.two();
        b.subtract(two, subtractor);
    });
    assert_eq!(out, vec![Some(1)]);
    // 3 - 0 = 3
    let (out, _) = run(|b| {
        let result = b.output();
        let two = b.two();
        let three = b.succ(two);
        let subtractor = b.subtractor(result.into_term(), three.into_term());
        let zero = b.zero();
        b.subtract(zero, subtractor);
    });
    assert_eq!(out, vec![Some(3)]);
}

#[test]
fn duplicate_two() {
    let (out, _) = run(|b| {
        let dup1 = b.output();
        let dup2 = b.output();
        let two = b.two();
        b.duplicate(two, dup1.into_term(), dup2.into_term());
    });
    assert_eq!(out, vec![Some(2), Some(2)]);
}

#[test]
fn fibonacci_rules_have_their_shapes() {
    let symbols = book();
    let mut rules = RuleSet::new(&symbols);
    assert_eq!(rules.fib_rules(), Ok(()));
    assert_eq!(rules.len(), 4);
    let shapes: Vec<(u8, usize)> = (0..4)
        .map(|i| {
            let rule = rules.get_rule(RulePtr::new(i));
            (rule.get_bvar_count(), rule.body().len())
        })
        .collect();
    assert_eq!(shapes, vec![(0, 1), (0, 1), (0, 1), (4, 4)]);
    for i in 0..4 {
        for e in rules.get_rule(RulePtr::new(i)).body() {
            assert_eq!(rules.get_equation(*e).get_kind(), EquationKind::Bind);
        }
    }
}

#[test]
fn fibonacci_numbers() {
    let expected = [0, 1, 1, 2, 3, 5, 8, 13, 21];
    for (n, fib) in expected.iter().enumerate() {
        let symbols = book();
        let rules = rules(&symbols);
        let mut net = Net::new(&symbols);
        assert_eq!(net.fib(n), Ok(()));
        let mut runtime = Runtime::new(&rules, false);
        let (net, result) = runtime.eval(net, 1_000_000);
        assert_eq!(result, Ok(()));
        assert_eq!(outputs(&net), vec![Some(*fib)], "fib({})", n);
    }
}

#[test]
fn missing_rule_stops_evaluation() {
    let symbols = book();
    let rules = RuleSet::new(&symbols);
    let mut net = Net::new(&symbols);
    assert_eq!(
        net.equations(|b| {
            let r = b.output();
            let zero = b.zero();
            let adder = b.adder(r.into_term(), zero.into_term());
            let one = b.one();
            b.add(one, adder);
        }),
        Ok(())
    );
    let mut runtime = Runtime::new(&rules, false);
    let (_, result) = runtime.eval(net, 100);
    assert_eq!(result, Err(EvalError::MissingRule));
    assert_eq!(runtime.get_rewrites(), 0);
}

#[test]
fn fuel_runs_out() {
    let symbols = book();
    let rules = rules(&symbols);
    let mut net = Net::new(&symbols);
    assert_eq!(net.fib(6), Ok(()));
    let mut runtime = Runtime::new(&rules, false);
    let (_, result) = runtime.eval(net, 3);
    assert_eq!(result, Err(EvalError::OutOfFuel));
}
