//! Rules: what a redex between a constructor and a function rewrites to.
use vstd::prelude::*;
use vstd::string::StringExecFns;

use std::collections::HashMap;

use crate::arena::{Arena, ArenaPtr, ArenaValue};
use crate::bitset::{lemma_and_le_u16, BitSet16};
use crate::cell::{Cell, CellPtr};
use crate::equation::{equation_text, Equation, EquationDisplay, EquationKind, EquationPtr, Equations, EQUATION_INDEX_LIMIT};
use crate::heap::{cells_kept, cell0_error, cell1_error, cell2_error, cell_added, slot_filled, CellDisplay, Heap, VarDisplay};
use crate::symbol::{last_index_of, Symbol, SymbolArity, SymbolBook, SymbolName, SymbolPtr};
use crate::term::{TermFamily, TermKind, TermPtr};
use crate::text;
use crate::var::{PVarPtr, Var, VarPtr, VAR_INDEX_LIMIT};
use crate::{flip_spec, BuildError, Polarity};

verus! {

/// The cell word 0, given back where building failed.
fn null_cell() -> (r: CellPtr)
    ensures
        r == CellPtr(0),
        r.ptr_bits() < 0xffffff,
{
    assert((0u32 >> 0u8) & 0xffffff == 0) by (bit_vector);
    CellPtr(0)
}

/// The variable end word 0, given back where building failed.
fn null_pvar() -> (r: PVarPtr)
    ensures
        r == PVarPtr(0),
        r.ptr_bits() < 0xffffff,
{
    assert((0u32 >> 0u8) & 0xffffff == 0) by (bit_vector);
    PVarPtr(0)
}

/// A port of a cell: the left (or only) one, or the right one.
#[derive(Debug, Clone, Copy, PartialEq, Eq, Structural)]
pub enum PortNum {
    Zero,
    One,
}

/// Whether a symbol of arity `arity` has port `port`.
pub open spec fn port_valid(port: PortNum, arity: SymbolArity) -> bool {
    match arity {
        SymbolArity::Zero => false,
        SymbolArity::One => port == PortNum::Zero,
        SymbolArity::Two => true,
    }
}

impl PortNum {
    /// Whether a symbol of arity `arity` has this port.
    pub fn is_valid_port(&self, arity: SymbolArity) -> (r: bool)
        ensures
            r == port_valid(*self, arity),
    {
        match arity {
            SymbolArity::Zero => false,
            SymbolArity::One => *self == PortNum::Zero,
            SymbolArity::Two => true,
        }
    }
}


/// The family of the terms of rules: a bound variable holds its number in
/// the rule, a free variable names a port of the redex.
#[derive(Debug, Clone, Copy)]
pub struct RuleF {}

/// How a variable of a rule is shown: `?n` for the bound variable number
/// `n`, and `C₀`, `C₁`, `F₀`, `F₁` for the ports of the constructor and of
/// the function.
pub open spec fn rule_store_text(var: Var<RuleF>) -> Seq<char> {
    match var {
        Var::Bound(n) => seq!['?'] + text::decimal(n as nat),
        Var::Free(RulePort::Ctr(PortNum::Zero)) => seq!['C', '₀'],
        Var::Free(RulePort::Ctr(PortNum::One)) => seq!['C', '₁'],
        Var::Free(RulePort::Fun(PortNum::Zero)) => seq!['F', '₀'],
        Var::Free(RulePort::Fun(PortNum::One)) => seq!['F', '₁'],
    }
}

impl TermFamily for RuleF {
    type BoundStore = u8;

    type FreeStore = RulePort;

    open spec fn bound_default() -> u8 {
        0
    }

    open spec fn free_default() -> RulePort {
        RulePort::Ctr(PortNum::Zero)
    }

    fn default_bound() -> u8 {
        0
    }

    fn default_free() -> RulePort {
        RulePort::default()
    }

    open spec fn store_text(var: Var<Self>, index: nat) -> Seq<char> {
        rule_store_text(var)
    }

    fn display_store(symbols: &SymbolBook, heap: &Heap<Self>, var: &Var<Self>, index: usize) -> (r: String) {
        proof {
            reveal_strlit("?");
            reveal_strlit("C₀");
            reveal_strlit("C₁");
            reveal_strlit("F₀");
            reveal_strlit("F₁");
        }
        match var {
            Var::Bound(n) => {
                let mut s = text::lit("?");
                text::push_decimal(&mut s, *n as u64);
                s
            },
            Var::Free(RulePort::Ctr(PortNum::Zero)) => text::lit("C₀"),
            Var::Free(RulePort::Ctr(PortNum::One)) => text::lit("C₁"),
            Var::Free(RulePort::Fun(PortNum::Zero)) => text::lit("F₀"),
            Var::Free(RulePort::Fun(PortNum::One)) => text::lit("F₁"),
        }
    }
}

/// A port of a redex: a port of its constructor or of its function.
#[derive(Debug, Clone, Copy, PartialEq, Eq, Structural)]
pub enum RulePort {
    Ctr(PortNum),
    Fun(PortNum),
}

impl Default for RulePort {
    /// The constructor's first port.
    fn default() -> (r: Self)
        ensures
            r == RulePort::Ctr(PortNum::Zero),
    {
        RulePort::Ctr(PortNum::Zero)
    }
}

impl RulePort {
    /// The free variable that names this port.
    pub fn into_var(self) -> (r: Var<RuleF>)
        ensures
            r == Var::<RuleF>::Free(self),
    {
        Var::Free(self)
    }
}

/// The largest rule index that a pointer can be given.
pub const RULE_INDEX_LIMIT: usize = 0x3fff;

/// Facts about the index field of a rule pointer.
pub proof fn lemma_rule_ptr_bits(raw: u16, v: u16)
    by (bit_vector)
    ensures
        (0x3fffu16 << 0u8) == 0x3fffu16,
        ({
            let r = (raw & !(0x3fffu16 << 0u8)) | ((v & 0x3fffu16) << 0u8);
            (r >> 0u8) & 0x3fff == v & 0x3fff
        }),
        v < 0x3fff ==> v & 0x3fff == v,
        (0u16 >> 0u8) & 0x3fff == 0,
        raw == 0 && v < 0x3fff ==> (raw & !(0x3fffu16 << 0u8)) | ((v & 0x3fffu16) << 0u8) == v,
{
}

/// A rule in a rule set: its index (bits 0 to 13).
#[derive(Clone, Copy, PartialEq, Eq, Structural, Debug)]
pub struct RulePtr(pub u16);

impl RulePtr {
    pub open spec fn index_bits(self) -> u16 {
        (self.0 >> 0u8) & 0x3fff
    }

    /// The index of the rule.
    pub open spec fn index_of(self) -> nat {
        self.index_bits() as nat
    }

    fn index_field() -> (r: BitSet16<14>)
        ensures
            r.spec_mask() == 0x3fff,
            r.spec_offset() == 0,
    {
        BitSet16::new(0x3fff, 0)
    }

    /// The rule at `index`.
    pub fn new(index: usize) -> (r: Self)
        requires
            index < RULE_INDEX_LIMIT,
        ensures
            r.index_of() == index,
            r.0 == index,
    {
        let mut ptr = Self(0);
        ptr.set_index(index);
        ptr
    }

    /// The index of the rule.
    pub fn get_index(&self) -> (r: usize)
        ensures
            r == self.index_of(),
    {
        Self::index_field().get(self.0) as usize
    }

    /// Gives the pointer the index `index`.
    pub fn set_index(&mut self, index: usize)
        requires
            index < RULE_INDEX_LIMIT,
        ensures
            final(self).index_of() == index,
            old(self).0 == 0 ==> final(self).0 == index,
    {
        let field = Self::index_field();
        let v = index as u16;
        proof {
            lemma_rule_ptr_bits(self.0, v);
        }
        self.0 = field.set(field.clear(self.0), v);
    }

    /// `RulePtr(` and the word in 16 binary digits, `) { index: ` and the
    /// index, then ` }`.
    pub fn debug_string(&self) -> (r: String)
        ensures
            r@ == seq!['R', 'u', 'l', 'e', 'P', 't', 'r', '('] + text::binary_padded(self.0 as nat, 16)
                + seq![')', ' ', '{', ' ', 'i', 'n', 'd', 'e', 'x', ':', ' '] + text::decimal(
                self.index_of(),
            ) + seq![' ', '}'],
    {
        proof {
            reveal_strlit("RulePtr(");
            reveal_strlit(") { index: ");
            reveal_strlit(" }");
        }
        let mut s = text::lit("RulePtr(");
        text::push_binary_padded(&mut s, self.0 as u64, 16);
        s.append(") { index: ");
        text::push_decimal(&mut s, self.get_index() as u64);
        s.append(" }");
        s
    }
}

impl ArenaPtr for RulePtr {
    open spec fn index_spec(&self) -> nat {
        self.index_of()
    }

    fn get_index(&self) -> (r: usize) {
        RulePtr::get_index(self)
    }
}

/// The key of a rule: the indexes of its two symbols.
pub type RuleKey = (usize, usize);

/// A rule: the constructor and the function of the redex it rewrites, the
/// interface ends of its free variables, the number of its bound variables
/// and its equations.
#[derive(Debug)]
pub struct Rule {
    pub ctr_ptr: SymbolPtr,
    pub fun_ptr: SymbolPtr,
    pub fvar_ptrs: Vec<PVarPtr>,
    pub bvar_count: u8,
    pub body: Vec<EquationPtr>,
}

impl Rule {
    /// A rule for `ctr_ptr` and `fun_ptr` with no variable and no equation.
    pub fn new(ctr_ptr: SymbolPtr, fun_ptr: SymbolPtr) -> (r: Self)
        ensures
            r.ctr_ptr == ctr_ptr,
            r.fun_ptr == fun_ptr,
            r.fvar_ptrs@ == Seq::<PVarPtr>::empty(),
            r.bvar_count == 0,
            r.body@ == Seq::<EquationPtr>::empty(),
    {
        Self { ctr_ptr, fun_ptr, fvar_ptrs: Vec::new(), bvar_count: 0, body: Vec::new() }
    }

    /// The indexes of the constructor and of the function, in that order.
    pub fn get_key(&self) -> (r: RuleKey)
        ensures
            r.0 == self.ctr_ptr.index_of(),
            r.1 == self.fun_ptr.index_of(),
            r.0 < 0x800,
            r.1 < 0x800,
    {
        proof {
            lemma_and_le_u16(self.ctr_ptr.0 >> 0u8, 0x7ff);
            lemma_and_le_u16(self.fun_ptr.0 >> 0u8, 0x7ff);
        }
        (self.ctr_ptr.get_index(), self.fun_ptr.get_index())
    }

    /// The number of bound variables.
    pub fn get_bvar_count(&self) -> (r: u8)
        ensures
            r == self.bvar_count,
    {
        self.bvar_count
    }

    /// The number of free variables.
    pub fn get_fvar_count(&self) -> (r: usize)
        ensures
            r == self.fvar_ptrs@.len(),
    {
        self.fvar_ptrs.len()
    }

    /// The equations of the rule, in order.
    pub fn body(&self) -> (r: &[EquationPtr])
        ensures
            r@ == self.body@,
    {
        self.body.as_slice()
    }
}

impl ArenaValue<RulePtr> for Rule {
    open spec fn ptr_limit() -> nat {
        RULE_INDEX_LIMIT as nat
    }

    open spec fn ptr_ready(&self) -> bool {
        true
    }

    fn to_ptr(&self, index: usize) -> (r: RulePtr) {
        RulePtr::new(index)
    }
}

/// The arena of the rules of a rule set.
pub type Rules = Arena<Rule, RulePtr>;


broadcast use vstd::std_specs::hash::group_hash_axioms;

/// The word under which the rule of the symbols at `a` and `b` is indexed.
pub open spec fn rule_key(a: nat, b: nat) -> nat {
    a * 0x800 + b
}

/// The smaller of two symbol indexes.
pub open spec fn low_index(a: nat, b: nat) -> nat {
    if a <= b {
        a
    } else {
        b
    }
}

/// The larger of two symbol indexes.
pub open spec fn high_index(a: nat, b: nat) -> nat {
    if a <= b {
        b
    } else {
        a
    }
}

/// `p` points to the symbol that the book declares last under `name`.
pub open spec fn resolves(book: &SymbolBook, name: Seq<char>, p: SymbolPtr) -> bool {
    &&& last_index_of(book.names_view(), name) == Some(p.index_of())
    &&& book.ptr_at(p, p.index_of())
}

/// `new` keeps what `old` holds: its equations and its variables, in the
/// same slots, with more after them, and its cells.
pub open spec fn set_grew<'a>(old: RuleSet<'a>, new: RuleSet<'a>) -> bool {
    &&& new.body.view().len() >= old.body.view().len()
    &&& forall|i: int| 0 <= i < old.body.view().len() ==> #[trigger] new.body.view()[i] == old.body.view()[i]
    &&& cells_kept(old.heap, new.heap)
    &&& new.heap.vars_view().len() >= old.heap.vars_view().len()
    &&& forall|i: int|
        0 <= i < old.heap.vars_view().len() ==> #[trigger] new.heap.vars_view()[i] == old.heap.vars_view()[i]
}

/// The equation of the set at `ptr`, if its slot holds one.
pub open spec fn equation_at<'a>(set: RuleSet<'a>, ptr: EquationPtr) -> Option<Equation<RuleF>> {
    if ptr.index_of() < set.body.view().len() {
        set.body.view()[ptr.index_of() as int]
    } else {
        None
    }
}

/// The word `w` is an end of polarity `pol` of a variable of the set that
/// holds `var`.
pub open spec fn end_holds<'a>(set: RuleSet<'a>, w: u32, var: Var<RuleF>, pol: Polarity) -> bool {
    let v = PVarPtr(w);
    &&& set.heap.has_var(v.index_of())
    &&& set.heap.var_at(v.index_of()) == var
    &&& v.polarity_of() == pol
}

/// The term `t` is an end of polarity `pol` of a variable of the set that
/// holds `var`.
pub open spec fn term_holds<'a>(set: RuleSet<'a>, t: TermPtr, var: Var<RuleF>, pol: Polarity) -> bool {
    t.kind_of() == TermKind::Var && end_holds(set, t.term_bits(), var, pol)
}

/// The word `w` points to a cell of the set whose symbol is the one
/// declared last under `name`.
pub open spec fn cell_named<'a>(set: RuleSet<'a>, w: u32, name: Seq<char>) -> bool {
    let c = CellPtr(w);
    &&& set.heap.has_cell(c)
    &&& last_index_of(set.symbols.names_view(), name) == Some(set.heap.cell_at(c).symbol_of().index_of())
}

/// The term `t` points to a cell of the set whose symbol is the one
/// declared last under `name`.
pub open spec fn term_named<'a>(set: RuleSet<'a>, t: TermPtr, name: Seq<char>) -> bool {
    t.kind_of() == TermKind::Cell && cell_named(set, t.term_bits(), name)
}

/// The `k`-th equation of the body of `rule` binds an end of polarity
/// `pol` of a variable holding `var` to a cell of the symbol named `name`.
pub open spec fn binds<'a>(set: RuleSet<'a>, rule: Rule, k: int, var: Var<RuleF>, pol: Polarity, name: Seq<char>) -> bool {
    match equation_at(set, rule.body@[k]) {
        Some(e) => {
            &&& e.wf()
            &&& e.kind_of() == EquationKind::Bind
            &&& end_holds(set, e.left_bits() as u32, var, pol)
            &&& cell_named(set, e.right_bits() as u32, name)
        },
        None => false,
    }
}

/// The cell that the `k`-th equation of the body of `rule` binds.
pub open spec fn bound_cell<'a>(set: RuleSet<'a>, rule: Rule, k: int) -> Cell<RuleF> {
    set.heap.cell_at(CellPtr(equation_at(set, rule.body@[k])->0.right_bits() as u32))
}

/// The `k`-th equation of the body of `rule` connects an end of polarity
/// `lpol` of a variable holding `left` with one of polarity `rpol` of a
/// variable holding `right`.
pub open spec fn connects<'a>(
    set: RuleSet<'a>,
    rule: Rule,
    k: int,
    left: Var<RuleF>,
    lpol: Polarity,
    right: Var<RuleF>,
    rpol: Polarity,
) -> bool {
    match equation_at(set, rule.body@[k]) {
        Some(e) => {
            &&& e.wf()
            &&& e.kind_of() == EquationKind::Connect
            &&& end_holds(set, e.left_bits() as u32, left, lpol)
            &&& end_holds(set, e.right_bits() as u32, right, rpol)
        },
        None => false,
    }
}

/// The set has room for `cells` more cells, `vars` more variables, `eqns`
/// more equations and `rules` more rules.
pub open spec fn set_room<'a>(set: RuleSet<'a>, cells: int, vars: int, eqns: int, rules: int) -> bool {
    &&& set.heap.cell_room_count() >= cells
    &&& set.heap.vars_view().len() + vars <= VAR_INDEX_LIMIT
    &&& set.body.view().len() + eqns <= EQUATION_INDEX_LIMIT
    &&& set.rules_view().len() + rules <= RULE_INDEX_LIMIT
}

/// Going from `old` to `new` took at most `cells` cells, `vars` variables
/// and `eqns` equations of room.
pub open spec fn room_used<'a>(old: RuleSet<'a>, new: RuleSet<'a>, cells: int, vars: int, eqns: int) -> bool {
    &&& new.heap.cell_room_count() >= old.heap.cell_room_count() - cells
    &&& new.heap.vars_view().len() <= old.heap.vars_view().len() + vars
    &&& new.body.view().len() <= old.body.view().len() + eqns
}

/// A builder without failure writing the rule for the symbols declared
/// last under `ctr` and `fun`.
pub open spec fn writing_rule_for<'a>(b: RuleBuilder<'a>, ctr: Seq<char>, fun: Seq<char>) -> bool {
    &&& b.wf()
    &&& b.failed() is None
    &&& b.building().bvar_count == 0
    &&& b.building().body@.len() == 0
    &&& resolves(b.set().symbols, ctr, b.building().ctr_ptr)
    &&& resolves(b.set().symbols, fun, b.building().fun_ptr)
}

/// The set indexes a rule for the symbols declared last under the names
/// `ctr` and `fun`, under their indexes in that order.
pub open spec fn has_rule_for<'a>(set: &RuleSet<'a>, ctr: Seq<char>, fun: Seq<char>) -> bool {
    &&& last_index_of(set.symbols.names_view(), ctr) is Some
    &&& last_index_of(set.symbols.names_view(), fun) is Some
    &&& set.index_view().contains_key(
        rule_key(
            low_index(last_index_of(set.symbols.names_view(), ctr)->0, last_index_of(set.symbols.names_view(), fun)->0),
            high_index(last_index_of(set.symbols.names_view(), ctr)->0, last_index_of(set.symbols.names_view(), fun)->0),
        ) as u64,
    )
}

/// The rules of a book of symbols, indexed by the symbols of their redex,
/// with the equations and the heap that their bodies are made of.
pub struct RuleSet<'a> {
    pub symbols: &'a SymbolBook,
    pub rules: Rules,
    pub rule_by_symbols: HashMap<u64, usize>,
    pub body: Equations<RuleF>,
    pub heap: Heap<RuleF>,
}

impl<'a> RuleSet<'a> {
    /// The rules, in the order they were made.
    pub closed spec fn rules_view(&self) -> Seq<Option<Rule>> {
        self.rules.view()
    }

    /// The index of rules by symbols: a key made by `rule_key` to a rule
    /// index.
    pub closed spec fn index_view(&self) -> Map<u64, usize> {
        self.rule_by_symbols@
    }

    /// The book, the arenas and the heap keep their invariants, every rule
    /// slot holds a rule and the index points to rules.
    pub closed spec fn wf(&self) -> bool {
        &&& self.symbols.wf()
        &&& self.rules.wf()
        &&& self.body.wf()
        &&& self.heap.wf()
        &&& self.rules.view().len() <= RULE_INDEX_LIMIT
        &&& forall|i: int|
            0 <= i < self.rules.view().len() ==> {
                &&& #[trigger] self.rules.view()[i] is Some
                &&& self.symbols.ptr_at(self.rules.view()[i]->0.ctr_ptr, self.rules.view()[i]->0.ctr_ptr.index_of())
                &&& self.symbols.ptr_at(self.rules.view()[i]->0.fun_ptr, self.rules.view()[i]->0.fun_ptr.index_of())
            }
        &&& forall|k: u64|
            #[trigger] self.rule_by_symbols@.contains_key(k) ==> self.rule_by_symbols@[k]
                < self.rules.view().len()
    }

    /// What the invariant gives the set's users.
    pub proof fn lemma_wf(&self)
        requires
            self.wf(),
        ensures
            self.symbols.wf(),
            self.body.wf(),
            self.heap.wf(),
            self.rules_view().len() <= RULE_INDEX_LIMIT,
            forall|i: int|
                0 <= i < self.rules_view().len() ==> {
                    &&& #[trigger] self.rules_view()[i] is Some
                    &&& self.symbols.ptr_at(self.rules_view()[i]->0.ctr_ptr, self.rules_view()[i]->0.ctr_ptr.index_of())
                    &&& self.symbols.ptr_at(self.rules_view()[i]->0.fun_ptr, self.rules_view()[i]->0.fun_ptr.index_of())
                },
            forall|k: u64|
                #[trigger] self.index_view().contains_key(k) ==> self.index_view()[k]
                    < self.rules_view().len(),
    {
    }

    /// The key of the rule of the symbols `left` and `right`, smaller index
    /// first.
    fn to_key(left: SymbolPtr, right: SymbolPtr) -> (r: RuleKey)
        ensures
            r.0 == low_index(left.index_of(), right.index_of()),
            r.1 == high_index(left.index_of(), right.index_of()),
            r.0 < 0x800,
            r.1 < 0x800,
    {
        proof {
            lemma_and_le_u16(left.0 >> 0u8, 0x7ff);
            lemma_and_le_u16(right.0 >> 0u8, 0x7ff);
        }
        let a = left.get_index();
        let b = right.get_index();
        if a <= b {
            (a, b)
        } else {
            (b, a)
        }
    }

    /// The word of a key.
    fn key_word(key: RuleKey) -> (r: u64)
        requires
            key.0 < 0x800,
            key.1 < 0x800,
        ensures
            r == rule_key(key.0 as nat, key.1 as nat),
    {
        (key.0 as u64) * 0x800 + (key.1 as u64)
    }

    /// An empty rule set over `symbols`.
    pub fn new(symbols: &'a SymbolBook) -> (r: Self)
        requires
            symbols.wf(),
        ensures
            r.wf(),
            r.symbols == symbols,
            r.rules_view() == Seq::<Option<Rule>>::empty(),
            r.index_view() == Map::<u64, usize>::empty(),
            r.body.view() == Seq::<Option<Equation<RuleF>>>::empty(),
            r.heap.cells_view() == Seq::<Option<crate::cell::Cell<RuleF>>>::empty(),
            r.heap.vars_view() == Seq::<Option<Var<RuleF>>>::empty(),
    {
        Self {
            symbols,
            rules: Rules::new(),
            rule_by_symbols: HashMap::new(),
            body: Equations::new(),
            heap: Heap::new(),
        }
    }

    /// The number of rules.
    pub fn len(&self) -> (r: usize)
        ensures
            r == self.rules_view().len(),
    {
        self.rules.slots()
    }

    /// Makes the rule for the redex of the constructor named `ctr_name` and
    /// the function named `fun_name`, whose body `body` writes. Both names
    /// must be declared (the symbols last declared under them are taken),
    /// and the body must not stop the builder; the rule is then added and
    /// indexed under the constructor's and the function's indexes, in that
    /// order, replacing an earlier rule under the same key in the index.
    pub fn rule<F>(&mut self, ctr_name: &SymbolName, fun_name: &SymbolName, body: F) -> (r: Result<
        RulePtr,
        BuildError,
    >) where F: FnOnce(&mut RuleBuilder<'a>)
        requires
            old(self).wf(),
            forall|b: &mut RuleBuilder<'a>| b.wf() ==> body.requires((b,)),
            forall|b: &mut RuleBuilder<'a>|
                body.ensures((b,), ()) ==> final(b).wf() && final(b).extends(*b),
        ensures
            final(self).wf(),
            final(self).symbols == old(self).symbols,
            (last_index_of(old(self).symbols.names_view(), ctr_name.0@) is None || last_index_of(
                old(self).symbols.names_view(),
                fun_name.0@,
            ) is None) ==> r == Err::<RulePtr, BuildError>(BuildError::UnknownSymbol),
            r is Err ==> final(self).rules_view() == old(self).rules_view() && final(self).index_view() == old(self).index_view(),
            r matches Ok(p) ==> {
                &&& last_index_of(old(self).symbols.names_view(), ctr_name.0@) is Some
                &&& last_index_of(old(self).symbols.names_view(), fun_name.0@) is Some
                &&& p.index_of() == old(self).rules_view().len()
                &&& p.0 == p.index_of()
                &&& final(self).rules_view().len() == old(self).rules_view().len() + 1
                &&& final(self).rules_view().drop_last() == old(self).rules_view()
                &&& resolves(
                    old(self).symbols,
                    ctr_name.0@,
                    final(self).rules_view()[p.index_of() as int]->0.ctr_ptr,
                )
                &&& resolves(
                    old(self).symbols,
                    fun_name.0@,
                    final(self).rules_view()[p.index_of() as int]->0.fun_ptr,
                )
                &&& final(self).index_view() == old(self).index_view().insert(
                    rule_key(
                        low_index(
                            last_index_of(old(self).symbols.names_view(), ctr_name.0@)->0,
                            last_index_of(old(self).symbols.names_view(), fun_name.0@)->0,
                        ),
                        high_index(
                            last_index_of(old(self).symbols.names_view(), ctr_name.0@)->0,
                            last_index_of(old(self).symbols.names_view(), fun_name.0@)->0,
                        ),
                    ) as u64,
                    p.index_of() as usize,
                )
            },
            last_index_of(old(self).symbols.names_view(), ctr_name.0@) is Some && last_index_of(
                old(self).symbols.names_view(),
                fun_name.0@,
            ) is Some ==> exists|b: &mut RuleBuilder<'a>|
                {
                    &&& #[trigger] body.ensures((b,), ())
                    &&& b.wf()
                    &&& b.set() == *old(self)
                    &&& b.building().fvar_ptrs@ == Seq::<PVarPtr>::empty()
                    &&& b.building().bvar_count == 0
                    &&& b.building().body@ == Seq::<EquationPtr>::empty()
                    &&& resolves(old(self).symbols, ctr_name.0@, b.building().ctr_ptr)
                    &&& resolves(old(self).symbols, fun_name.0@, b.building().fun_ptr)
                    &&& b.failed() is None
                    &&& final(self).body == final(b).set().body
                    &&& final(self).heap == final(b).set().heap
                    &&& (final(b).failed() matches Some(e) ==> r == Err::<RulePtr, BuildError>(e))
                    &&& (final(b).failed() is None && old(self).rules_view().len() >= RULE_INDEX_LIMIT ==> r == Err::<
                        RulePtr,
                        BuildError,
                    >(BuildError::OutOfRoom))
                    &&& (final(b).failed() is None && old(self).rules_view().len() < RULE_INDEX_LIMIT ==> r is Ok)
                    &&& (r matches Ok(p) ==> final(self).rules_view()[p.index_of() as int] == Some(final(b).building()))
                },
            r matches Ok(p) ==> {
                let c = final(self).rules_view()[p.index_of() as int]->0.ctr_ptr.index_of();
                let f = final(self).rules_view()[p.index_of() as int]->0.fun_ptr.index_of();
                &&& final(self).index_view().contains_key(rule_key(low_index(c, f), high_index(c, f)) as u64)
                &&& final(self).index_view()[rule_key(low_index(c, f), high_index(c, f)) as u64] == p.index_of()
            },
            set_grew(*old(self), *final(self)),
    {
        let ctr_ptr = match self.symbols.get_by_name(ctr_name) {
            Some(p) => p,
            None => {
                return Err(BuildError::UnknownSymbol);
            },
        };
        let fun_ptr = match self.symbols.get_by_name(fun_name) {
            Some(p) => p,
            None => {
                return Err(BuildError::UnknownSymbol);
            },
        };
        let mut set = RuleSet::new(self.symbols);
        std::mem::swap(self, &mut set);
        let mut builder = RuleBuilder::new(ctr_ptr, fun_ptr, set);
        let ghost start = builder;
        body(&mut builder);
        assert(builder.wf());
        assert(builder.extends(start));
        let (set, r) = builder.build();
        *self = set;
        r
    }

    /// The rule for the redex of the symbols `ctr` and `fun`, in either
    /// order: the rule indexed under their indexes, smaller first.
    pub fn get_by_symbols(&self, ctr: SymbolPtr, fun: SymbolPtr) -> (r: Option<RulePtr>)
        requires
            self.wf(),
        ensures
            r is Some <==> self.index_view().contains_key(
                rule_key(
                    low_index(ctr.index_of(), fun.index_of()),
                    high_index(ctr.index_of(), fun.index_of()),
                ) as u64,
            ),
            r matches Some(p) ==> p.0 == p.index_of() && p.index_of() == self.index_view()[rule_key(
                low_index(ctr.index_of(), fun.index_of()),
                high_index(ctr.index_of(), fun.index_of()),
            ) as u64] && p.index_of() < self.rules_view().len(),
    {
        proof {
            self.lemma_wf();
        }
        let key = RuleSet::to_key(ctr, fun);
        let word = RuleSet::key_word(key);
        match self.rule_by_symbols.get(&word) {
            Some(index) => Some(RulePtr::new(*index)),
            None => None,
        }
    }

    /// The rule that `rule_ptr` points to, which must be in the set.
    pub fn get_rule(&self, rule_ptr: RulePtr) -> (r: &Rule)
        requires
            self.wf(),
            rule_ptr.index_of() < self.rules_view().len(),
        ensures
            Some(*r) == self.rules_view()[rule_ptr.index_of() as int],
    {
        match self.rules.get(rule_ptr) {
            Some(rule) => rule,
            None => vstd::pervasive::unreached(),
        }
    }

    /// The equation that `ptr` points to, which must be in the set.
    pub fn get_equation(&self, ptr: EquationPtr) -> (r: &Equation<RuleF>)
        requires
            ptr.index_of() < self.body.view().len(),
            self.body.view()[ptr.index_of() as int] is Some,
        ensures
            Some(*r) == self.body.view()[ptr.index_of() as int],
    {
        match self.body.get(ptr) {
            Some(e) => e,
            None => vstd::pervasive::unreached(),
        }
    }
}

/// The number of a port of a redex.
pub open spec fn port_num_of(port: RulePort) -> PortNum {
    match port {
        RulePort::Ctr(n) => n,
        RulePort::Fun(n) => n,
    }
}

/// The polarity of port `n` of a symbol, if the symbol has that port.
pub open spec fn port_polarity(sym: Symbol, n: PortNum) -> Option<Polarity> {
    match n {
        PortNum::Zero => if sym.arity_of() == SymbolArity::Zero {
            None
        } else {
            Some(sym.left_of())
        },
        PortNum::One => if sym.arity_of() == SymbolArity::Two {
            Some(sym.right_of())
        } else {
            None
        },
    }
}

/// What making a free variable for the redex port `port` did, from a
/// builder without failure `old` to `new`, giving `r`.
pub open spec fn fvar_outcome<'a>(old: RuleBuilder<'a>, new: RuleBuilder<'a>, port: RulePort, r: PVarPtr) -> bool {
    match port_polarity(old.port_symbol(port), port_num_of(port)) {
        None => new.failed() == Some(BuildError::MissingPort) && new.set() == old.set() && new.building() == old.building(),
        Some(p) => if !old.set().heap.var_room() {
            new.failed() == Some(BuildError::OutOfRoom) && new.set() == old.set() && new.building() == old.building()
        } else {
            let index = old.set().heap.vars_view().len();
            &&& new.failed() is None
            &&& new.set().heap.cells == old.set().heap.cells
            &&& new.set().heap.vars_view() == old.set().heap.vars_view().push(Some(Var::<RuleF>::Free(port)))
            &&& new.building().fvar_ptrs@.len() == old.building().fvar_ptrs@.len() + 1
            &&& new.building().fvar_ptrs@.drop_last() == old.building().fvar_ptrs@
            &&& new.building().fvar_ptrs@.last().made(index, p)
            &&& r.made(index, flip_spec(p))
        },
    }
}

/// `new` is `old` with an equation of the shape `shape` added to the rule
/// set and to the rule's body at `r`, or with `OutOfRoom` when the equations are full.
pub open spec fn equation_added<'a>(old: RuleBuilder<'a>, new: RuleBuilder<'a>, r: EquationPtr, shape: spec_fn(Equation<RuleF>) -> bool) -> bool {
    if old.set().body.view().len() >= EQUATION_INDEX_LIMIT {
        &&& new.failed() == Some(BuildError::OutOfRoom)
        &&& new.set() == old.set()
        &&& new.building() == old.building()
    } else {
        &&& new.failed() is None
        &&& new.set().body.view().len() == old.set().body.view().len() + 1
        &&& new.set().body.view().drop_last() == old.set().body.view()
        &&& new.set().body.view().last() is Some
        &&& shape(new.set().body.view().last()->0)
        &&& r.index_of() == old.set().body.view().len()
        &&& r.kind_of() == new.set().body.view().last()->0.kind_of()
        &&& new.building().body@ == old.building().body@.push(r)
        &&& new.building().fvar_ptrs == old.building().fvar_ptrs
        &&& new.building().bvar_count == old.building().bvar_count
    }
}

/// Writes the body of one rule: its cells, variables and equations go to
/// the rule set, and the first failure stops it.
pub struct RuleBuilder<'a> {
    rules: RuleSet<'a>,
    rule: Rule,
    ctr_symbol: Symbol,
    fun_symbol: Symbol,
    error: Option<BuildError>,
}

impl<'a> RuleBuilder<'a> {
    /// The rule set being written to.
    pub closed spec fn set(self) -> RuleSet<'a> {
        self.rules
    }

    /// The rule being written.
    pub closed spec fn building(self) -> Rule {
        self.rule
    }

    /// The first failure, if any.
    pub closed spec fn failed(self) -> Option<BuildError> {
        self.error
    }

    /// The rule set keeps its invariant, and the symbols of the rule are in
    /// the book with their declarations at hand.
    pub closed spec fn wf(self) -> bool {
        &&& self.rules.wf()
        &&& self.rules.symbols.ptr_at(self.rule.ctr_ptr, self.rule.ctr_ptr.index_of())
        &&& self.rules.symbols.ptr_at(self.rule.fun_ptr, self.rule.fun_ptr.index_of())
        &&& self.ctr_symbol == self.rules.symbols.symbols_view()[self.rule.ctr_ptr.index_of() as int]
        &&& self.fun_symbol == self.rules.symbols.symbols_view()[self.rule.fun_ptr.index_of() as int]
    }

    /// `self` comes from `prev` by writing: the book, the rules made so far,
    /// the index and the redex are the same, and a failure stays.
    pub closed spec fn extends(self, prev: Self) -> bool {
        &&& self.rules.symbols == prev.rules.symbols
        &&& self.rules.rules == prev.rules.rules
        &&& self.rules.rule_by_symbols == prev.rules.rule_by_symbols
        &&& self.rule.ctr_ptr == prev.rule.ctr_ptr
        &&& self.rule.fun_ptr == prev.rule.fun_ptr
        &&& self.ctr_symbol == prev.ctr_symbol
        &&& self.fun_symbol == prev.fun_symbol
        &&& (prev.error is Some ==> self.error == prev.error)
        &&& set_grew(prev.rules, self.rules)
    }

    /// Writing keeps the book, the rules made so far, the index and a
    /// failure.
    pub broadcast proof fn lemma_extends(a: Self, b: Self)
        requires
            #[trigger] b.extends(a),
        ensures
            b.set().symbols == a.set().symbols,
            b.set().rules_view() == a.set().rules_view(),
            b.set().index_view() == a.set().index_view(),
            b.building().ctr_ptr == a.building().ctr_ptr,
            b.building().fun_ptr == a.building().fun_ptr,
            a.failed() is Some ==> b.failed() == a.failed(),
            set_grew(a.set(), b.set()),
    {
    }

    /// The symbols whose ports the free variables stand for: those the
    /// rule's constructor and function pointers point to.
    pub proof fn lemma_port_symbols(self)
        requires
            self.wf(),
        ensures
            forall|n: PortNum|
                #[trigger] self.port_symbol(RulePort::Ctr(n)) == self.set().symbols.symbols_view()[self.building().ctr_ptr.index_of() as int],
            forall|n: PortNum|
                #[trigger] self.port_symbol(RulePort::Fun(n)) == self.set().symbols.symbols_view()[self.building().fun_ptr.index_of() as int],
    {
    }

    /// Writing in steps is writing.
    pub broadcast proof fn lemma_extends_trans(a: Self, b: Self, c: Self)
        requires
            #[trigger] b.extends(a),
            #[trigger] c.extends(b),
        ensures
            c.extends(a),
    {
    }

    fn new(ctr: SymbolPtr, fun: SymbolPtr, rules: RuleSet<'a>) -> (r: Self)
        requires
            rules.wf(),
            rules.symbols.ptr_at(ctr, ctr.index_of()),
            rules.symbols.ptr_at(fun, fun.index_of()),
        ensures
            r.wf(),
            r.rules == rules,
            r.rule.ctr_ptr == ctr,
            r.rule.fun_ptr == fun,
            r.rule.fvar_ptrs@ == Seq::<PVarPtr>::empty(),
            r.rule.bvar_count == 0,
            r.rule.body@ == Seq::<EquationPtr>::empty(),
            r.error is None,
    {
        let ctr_symbol = rules.symbols.get(ctr);
        let fun_symbol = rules.symbols.get(fun);
        Self { rules, rule: Rule::new(ctr, fun), ctr_symbol, fun_symbol, error: None }
    }

    fn fail(&mut self, e: BuildError)
        requires
            old(self).wf(),
            old(self).error is None,
        ensures
            final(self).wf(),
            final(self).extends(*old(self)),
            final(self).rules == old(self).rules,
            final(self).error == Some(e),
    {
        self.error = Some(e);
    }

    /// Records `e` as the first failure, unless there already is one.
    fn record(&mut self, e: BuildError)
        requires
            old(self).wf(),
        ensures
            final(self).wf(),
            final(self).extends(*old(self)),
            final(self).rules == old(self).rules,
            final(self).rule == old(self).rule,
            old(self).error is None ==> final(self).error == Some(e),
    {
        if self.error.is_none() {
            self.error = Some(e);
        }
    }

    /// Adds `eqn` to the rule set's equations and to the rule's body.
    fn push_equation(&mut self, eqn: Equation<RuleF>) -> (r: EquationPtr)
        requires
            old(self).wf(),
            old(self).error is None,
            eqn.wf(),
        ensures
            final(self).wf(),
            final(self).extends(*old(self)),
            final(self).rules.heap == old(self).rules.heap,
            final(self).rule.fvar_ptrs == old(self).rule.fvar_ptrs,
            final(self).rule.bvar_count == old(self).rule.bvar_count,
            old(self).rules.body.view().len() >= EQUATION_INDEX_LIMIT ==> {
                &&& final(self).error == Some(BuildError::OutOfRoom)
                &&& final(self).rules.body == old(self).rules.body
                &&& final(self).rule.body == old(self).rule.body
            },
            old(self).rules.body.view().len() < EQUATION_INDEX_LIMIT ==> {
                &&& final(self).error is None
                &&& final(self).rules.body.view() == old(self).rules.body.view().push(Some(eqn))
                &&& final(self).rules.body.view().drop_last() == old(self).rules.body.view()
                &&& final(self).rules.body.view().last() == Some(eqn)
                &&& r.index_of() == old(self).rules.body.view().len()
                &&& r.kind_of() == eqn.kind_of()
                &&& final(self).rule.body@ == old(self).rule.body@.push(r)
            },
    {
        if self.rules.body.slots() >= EQUATION_INDEX_LIMIT {
            self.record(BuildError::OutOfRoom);
            return EquationPtr(0);
        }
        let ptr = self.rules.body.allocate(eqn);
        let r = eqn.to_ptr(ptr.get_index());
        self.rule.body.push(r);
        assert(self.rules.body.view().drop_last() =~= old(self).rules.body.view());
        r
    }

    /// Adds the redex of the constructor cell `ctr` and the function cell
    /// `fun` to the body; `ctr` must be positive and `fun` negative.
    pub fn redex(&mut self, ctr: CellPtr, fun: CellPtr) -> (r: EquationPtr)
        requires
            old(self).wf(),
        ensures
            final(self).wf(),
            final(self).extends(*old(self)),
            final(self).set().heap == old(self).set().heap,
            old(self).failed() is Some ==> *final(self) == *old(self),
            old(self).failed() is None && !(ctr.polarity_of() == Polarity::Pos && fun.polarity_of()
                == Polarity::Neg) ==> final(self).failed() == Some(BuildError::ShortCircuit)
                && final(self).set() == old(self).set(),
            old(self).failed() is None && ctr.polarity_of() == Polarity::Pos && fun.polarity_of()
                == Polarity::Neg ==> equation_added(*old(self), *final(self), r, |e: Equation<RuleF>| e.is_redex(ctr, fun)),
    {
        if self.error.is_some() {
            return EquationPtr(0);
        }
        match (ctr.get_polarity(), fun.get_polarity()) {
            (Polarity::Pos, Polarity::Neg) => {},
            _ => {
                self.record(BuildError::ShortCircuit);
                return EquationPtr(0);
            },
        }
        let eqn = Equation::redex(ctr, fun);
        self.push_equation(eqn)
    }

    /// Adds the binding of the variable end `var` to the cell `cell` to
    /// the body.
    pub fn bind(&mut self, var: PVarPtr, cell: CellPtr) -> (r: EquationPtr)
        requires
            old(self).wf(),
        ensures
            final(self).wf(),
            final(self).extends(*old(self)),
            final(self).set().heap == old(self).set().heap,
            old(self).failed() is Some ==> *final(self) == *old(self),
            old(self).failed() is None ==> equation_added(*old(self), *final(self), r, |e: Equation<RuleF>| e.is_bind(var, cell)),
    {
        if self.error.is_some() {
            return EquationPtr(0);
        }
        let eqn = Equation::bind(var, cell);
        self.push_equation(eqn)
    }

    /// Adds the connection of the variable ends `left` and `right` to the
    /// body; they must have opposite polarities.
    pub fn connect(&mut self, left: PVarPtr, right: PVarPtr) -> (r: EquationPtr)
        requires
            old(self).wf(),
        ensures
            final(self).wf(),
            final(self).extends(*old(self)),
            final(self).set().heap == old(self).set().heap,
            old(self).failed() is Some ==> *final(self) == *old(self),
            old(self).failed() is None && left.polarity_of() == right.polarity_of() ==> final(self).failed()
                == Some(BuildError::ShortCircuit) && final(self).set() == old(self).set(),
            old(self).failed() is None && left.polarity_of() != right.polarity_of() ==> equation_added(
                *old(self),
                *final(self),
                r,
                |e: Equation<RuleF>| e.is_connect(left, right),
            ),
    {
        if self.error.is_some() {
            return EquationPtr(0);
        }
        if left.get_polarity() != right.get_polarity().flip() {
            self.record(BuildError::ShortCircuit);
            return EquationPtr(0);
        }
        let eqn = Equation::connect(left, right);
        self.push_equation(eqn)
    }

    /// Makes a cell of the symbol named `name`, without ports.
    pub fn cell0(&mut self, name: &SymbolName) -> (r: CellPtr)
        requires
            old(self).wf(),
        ensures
            r.ptr_bits() < 0xffffff,
            final(self).wf(),
            final(self).extends(*old(self)),
            final(self).set().body == old(self).set().body,
            final(self).building() == old(self).building(),
            old(self).failed() is Some ==> *final(self) == *old(self),
            old(self).failed() is None ==> final(self).failed() == cell0_error(
                old(self).set().symbols,
                old(self).set().heap,
                name.0@,
            ),
            old(self).failed() is None && final(self).failed() is Some ==> final(self).set() == old(self).set(),
            old(self).failed() is None && final(self).failed() is None ==> {
                &&& cell_added(old(self).set().heap, final(self).set().heap, r, final(self).set().heap.cell_at(r).symbol_of())
                &&& resolves(old(self).set().symbols, name.0@, final(self).set().heap.cell_at(r).symbol_of())
            },
    {
        if self.error.is_some() {
            return null_cell();
        }
        proof {
            self.rules.lemma_wf();
        }
        match self.rules.heap.try_cell0(self.rules.symbols, name) {
            Ok(c) => c,
            Err(e) => {
                self.record(e);
                null_cell()
            },
        }
    }

    /// Makes a cell of the symbol named `name` with `port` in its port.
    pub fn cell1(&mut self, name: &SymbolName, port: TermPtr) -> (r: CellPtr)
        requires
            old(self).wf(),
        ensures
            r.ptr_bits() < 0xffffff,
            final(self).wf(),
            final(self).extends(*old(self)),
            final(self).set().body == old(self).set().body,
            final(self).building() == old(self).building(),
            old(self).failed() is Some ==> *final(self) == *old(self),
            old(self).failed() is None ==> final(self).failed() == cell1_error(
                old(self).set().symbols,
                old(self).set().heap,
                name.0@,
                port,
            ),
            old(self).failed() is None && final(self).failed() is Some ==> final(self).set() == old(self).set(),
            old(self).failed() is None && final(self).failed() is None ==> {
                &&& cell_added(old(self).set().heap, final(self).set().heap, r, final(self).set().heap.cell_at(r).symbol_of())
                &&& resolves(old(self).set().symbols, name.0@, final(self).set().heap.cell_at(r).symbol_of())
                &&& final(self).set().heap.cell_at(r).left_of() == port
            },
    {
        if self.error.is_some() {
            return null_cell();
        }
        proof {
            self.rules.lemma_wf();
        }
        match self.rules.heap.try_cell1(self.rules.symbols, name, port) {
            Ok(c) => c,
            Err(e) => {
                self.record(e);
                null_cell()
            },
        }
    }

    /// Makes a cell of the symbol named `name` with `left_port` and
    /// `right_port` in its ports.
    pub fn cell2(&mut self, name: &SymbolName, left_port: TermPtr, right_port: TermPtr) -> (r: CellPtr)
        requires
            old(self).wf(),
        ensures
            r.ptr_bits() < 0xffffff,
            final(self).wf(),
            final(self).extends(*old(self)),
            final(self).set().body == old(self).set().body,
            final(self).building() == old(self).building(),
            old(self).failed() is Some ==> *final(self) == *old(self),
            old(self).failed() is None ==> final(self).failed() == cell2_error(
                old(self).set().symbols,
                old(self).set().heap,
                name.0@,
                left_port,
                right_port,
            ),
            old(self).failed() is None && final(self).failed() is Some ==> final(self).set() == old(self).set(),
            old(self).failed() is None && final(self).failed() is None ==> {
                &&& cell_added(old(self).set().heap, final(self).set().heap, r, final(self).set().heap.cell_at(r).symbol_of())
                &&& resolves(old(self).set().symbols, name.0@, final(self).set().heap.cell_at(r).symbol_of())
                &&& final(self).set().heap.cell_at(r).left_of() == left_port
                &&& final(self).set().heap.cell_at(r).right_of() == right_port
            },
    {
        if self.error.is_some() {
            return null_cell();
        }
        proof {
            self.rules.lemma_wf();
        }
        match self.rules.heap.try_cell2(self.rules.symbols, name, left_port, right_port) {
            Ok(c) => c,
            Err(e) => {
                self.record(e);
                null_cell()
            },
        }
    }

    /// Whether the symbol of the side of the redex that `port` belongs to
    /// has that port.
    fn has_port(&self, port: RulePort) -> (r: bool)
        requires
            self.wf(),
        ensures
            r == port_polarity(self.port_symbol(port), port_num_of(port)) is Some,
    {
        let (symbol, port_num) = match port {
            RulePort::Ctr(port_num) => (self.ctr_symbol, port_num),
            RulePort::Fun(port_num) => (self.fun_symbol, port_num),
        };
        proof {
            self.rules.lemma_wf();
            self.rules.symbols.lemma_wf();
        }
        port_num.is_valid_port(symbol.get_arity())
    }

    /// The polarity of the port `port` of the redex, whose symbol has it.
    fn get_port_polarity(&self, port: RulePort) -> (r: Polarity)
        requires
            self.wf(),
            port_polarity(self.port_symbol(port), port_num_of(port)) is Some,
        ensures
            port_polarity(self.port_symbol(port), port_num_of(port)) == Some(r),
    {
        let (symbol, port_num) = match port {
            RulePort::Ctr(port_num) => (self.ctr_symbol, port_num),
            RulePort::Fun(port_num) => (self.fun_symbol, port_num),
        };
        proof {
            self.rules.lemma_wf();
            self.rules.symbols.lemma_wf();
        }
        let arity = symbol.get_arity();
        match port_num {
            PortNum::Zero => {
                assert(arity != SymbolArity::Zero);
                symbol.get_left_polarity()
            },
            PortNum::One => {
                assert(arity == SymbolArity::Two);
                symbol.get_right_polarity()
            },
        }
    }

    /// The symbol of the side of the redex that `port` belongs to.
    pub closed spec fn port_symbol(self, port: RulePort) -> Symbol {
        match port {
            RulePort::Ctr(_) => self.ctr_symbol,
            RulePort::Fun(_) => self.fun_symbol,
        }
    }

    /// A new free variable for the port `port` of the redex: the end of the
    /// port's own polarity goes to the rule's interface, the other end is
    /// given back to be used in the body.
    fn port_var(&mut self, port: RulePort) -> (r: PVarPtr)
        requires
            old(self).wf(),
        ensures
            r.ptr_bits() < 0xffffff,
            final(self).wf(),
            final(self).extends(*old(self)),
            final(self).rules.body == old(self).rules.body,
            final(self).rule.body == old(self).rule.body,
            final(self).rule.bvar_count == old(self).rule.bvar_count,
            old(self).error is Some ==> *final(self) == *old(self),
            old(self).error is None ==> fvar_outcome(*old(self), *final(self), port, r),
    {
        if self.error.is_some() {
            return null_pvar();
        }
        if !self.has_port(port) {
            self.record(BuildError::MissingPort);
            return null_pvar();
        }
        let polarity = self.get_port_polarity(port);
        if !self.rules.heap.can_store_var() {
            self.record(BuildError::OutOfRoom);
            return null_pvar();
        }
        let var_ptr = self.rules.heap.fvar(port);
        let (neg_pvar, pos_pvar) = PVarPtr::wire(var_ptr);
        match polarity {
            Polarity::Pos => {
                self.rule.fvar_ptrs.push(pos_pvar);
                assert(self.rule.fvar_ptrs@.drop_last() =~= old(self).rule.fvar_ptrs@);
                neg_pvar
            },
            Polarity::Neg => {
                self.rule.fvar_ptrs.push(neg_pvar);
                assert(self.rule.fvar_ptrs@.drop_last() =~= old(self).rule.fvar_ptrs@);
                pos_pvar
            },
        }
    }

    /// The body's end of a new variable for the constructor's first port.
    pub fn ctr_port_0(&mut self) -> (r: PVarPtr)
        requires
            old(self).wf(),
        ensures
            r.ptr_bits() < 0xffffff,
            final(self).wf(),
            final(self).extends(*old(self)),
            final(self).set().body == old(self).set().body,
            final(self).building().body == old(self).building().body,
            old(self).failed() is Some ==> *final(self) == *old(self),
            old(self).failed() is None ==> fvar_outcome(*old(self), *final(self), RulePort::Ctr(PortNum::Zero), r),
            final(self).building().bvar_count == old(self).building().bvar_count,
    {
        self.port_var(RulePort::Ctr(PortNum::Zero))
    }

    /// The body's end of a new variable for the constructor's second port.
    pub fn ctr_port_1(&mut self) -> (r: PVarPtr)
        requires
            old(self).wf(),
        ensures
            r.ptr_bits() < 0xffffff,
            final(self).wf(),
            final(self).extends(*old(self)),
            final(self).set().body == old(self).set().body,
            final(self).building().body == old(self).building().body,
            old(self).failed() is Some ==> *final(self) == *old(self),
            old(self).failed() is None ==> fvar_outcome(*old(self), *final(self), RulePort::Ctr(PortNum::One), r),
            final(self).building().bvar_count == old(self).building().bvar_count,
    {
        self.port_var(RulePort::Ctr(PortNum::One))
    }

    /// The body's end of a new variable for the function's first port.
    pub fn fun_port_0(&mut self) -> (r: PVarPtr)
        requires
            old(self).wf(),
        ensures
            r.ptr_bits() < 0xffffff,
            final(self).wf(),
            final(self).extends(*old(self)),
            final(self).set().body == old(self).set().body,
            final(self).building().body == old(self).building().body,
            old(self).failed() is Some ==> *final(self) == *old(self),
            old(self).failed() is None ==> fvar_outcome(*old(self), *final(self), RulePort::Fun(PortNum::Zero), r),
            final(self).building().bvar_count == old(self).building().bvar_count,
    {
        self.port_var(RulePort::Fun(PortNum::Zero))
    }

    /// The body's end of a new variable for the function's second port.
    pub fn fun_port_1(&mut self) -> (r: PVarPtr)
        requires
            old(self).wf(),
        ensures
            r.ptr_bits() < 0xffffff,
            final(self).wf(),
            final(self).extends(*old(self)),
            final(self).set().body == old(self).set().body,
            final(self).building().body == old(self).building().body,
            old(self).failed() is Some ==> *final(self) == *old(self),
            old(self).failed() is None ==> fvar_outcome(*old(self), *final(self), RulePort::Fun(PortNum::One), r),
            final(self).building().bvar_count == old(self).building().bvar_count,
    {
        self.port_var(RulePort::Fun(PortNum::One))
    }

    /// A new bound variable, numbered after the rule's earlier ones: its
    /// negative and its positive end.
    pub fn var(&mut self) -> (r: (PVarPtr, PVarPtr))
        requires
            old(self).wf(),
        ensures
            r.0.ptr_bits() < 0xffffff,
            r.1.ptr_bits() < 0xffffff,
            final(self).wf(),
            final(self).extends(*old(self)),
            final(self).set().body == old(self).set().body,
            final(self).building().body == old(self).building().body,
            final(self).building().fvar_ptrs == old(self).building().fvar_ptrs,
            old(self).failed() is Some ==> *final(self) == *old(self),
            old(self).failed() is None && (old(self).building().bvar_count == 255
                || !old(self).set().heap.var_room()) ==> final(self).failed() == Some(
                BuildError::OutOfRoom,
            ) && final(self).set() == old(self).set() && final(self).building() == old(self).building(),
            old(self).failed() is None && old(self).building().bvar_count < 255
                && old(self).set().heap.var_room() ==> {
                &&& final(self).failed() is None
                &&& final(self).building().bvar_count == old(self).building().bvar_count + 1
                &&& final(self).set().heap.cells == old(self).set().heap.cells
                &&& final(self).set().heap.vars_view() == old(self).set().heap.vars_view().push(
                    Some(Var::<RuleF>::Bound(old(self).building().bvar_count)),
                )
                &&& r.0.made(old(self).set().heap.vars_view().len(), Polarity::Neg)
                &&& r.1.made(old(self).set().heap.vars_view().len(), Polarity::Pos)
            },
    {
        if self.error.is_some() {
            return (null_pvar(), null_pvar());
        }
        if self.rule.bvar_count == 255 || !self.rules.heap.can_store_var() {
            self.record(BuildError::OutOfRoom);
            return (null_pvar(), null_pvar());
        }
        self.rule.bvar_count = self.rule.bvar_count + 1;
        let bvar = self.rules.heap.bvar(self.rule.bvar_count - 1);
        PVarPtr::wire(bvar)
    }

    /// Adds the rule to the set unless the body failed or the set is full.
    fn build(self) -> (r: (RuleSet<'a>, Result<RulePtr, BuildError>))
        requires
            self.wf(),
        ensures
            r.0.wf(),
            r.0.symbols == self.rules.symbols,
            r.0.body == self.rules.body,
            r.0.heap == self.rules.heap,
            self.error matches Some(e) ==> r.1 == Err::<RulePtr, BuildError>(e),
            self.error is None && self.rules.rules_view().len() >= RULE_INDEX_LIMIT ==> r.1 == Err::<RulePtr, BuildError>(BuildError::OutOfRoom),
            self.error is None && self.rules.rules_view().len() < RULE_INDEX_LIMIT ==> r.1 is Ok,
            r.1 is Err ==> r.0.rules_view() == self.rules.rules_view() && r.0.index_view()
                == self.rules.index_view(),
            r.1 matches Ok(p) ==> {
                &&& self.error is None
                &&& p.index_of() == self.rules.rules_view().len()
                &&& p.0 == p.index_of()
                &&& r.0.rules_view() == self.rules.rules_view().push(Some(self.rule))
                &&& r.0.index_view() == self.rules.index_view().insert(
                    rule_key(
                        low_index(self.rule.ctr_ptr.index_of(), self.rule.fun_ptr.index_of()),
                        high_index(self.rule.ctr_ptr.index_of(), self.rule.fun_ptr.index_of()),
                    ) as u64,
                    p.index_of() as usize,
                )
            },
    {
        let RuleBuilder { rules, rule, ctr_symbol, fun_symbol, error } = self;
        let mut rules = rules;
        match error {
            Some(e) => (rules, Err(e)),
            None => {
                if rules.rules.slots() >= RULE_INDEX_LIMIT {
                    return (rules, Err(BuildError::OutOfRoom));
                }
                let key = RuleSet::to_key(rule.ctr_ptr, rule.fun_ptr);
                let word = RuleSet::key_word(key);
                let ghost before = rules.rules.view();
                let ghost kept = rule;
                let allocated = rules.rules.allocate(rule);
                let index = allocated.get_index();
                let ptr = RulePtr::new(index);
                let ignored = rules.rule_by_symbols.insert(word, index);
                proof {
                    assert forall|i: int| 0 <= i < rules.rules.view().len() implies {
                        &&& #[trigger] rules.rules.view()[i] is Some
                        &&& rules.symbols.ptr_at(rules.rules.view()[i]->0.ctr_ptr, rules.rules.view()[i]->0.ctr_ptr.index_of())
                        &&& rules.symbols.ptr_at(rules.rules.view()[i]->0.fun_ptr, rules.rules.view()[i]->0.fun_ptr.index_of())
                    } by {
                        if i < before.len() {
                            assert(rules.rules.view()[i] == before[i]);
                        }
                    }
                }
                (rules, Ok(ptr))
            },
        }
    }
}


/// One side of a rule's redex: the symbol's name alone, or in parentheses
/// with its ports named `L₀` (and `L₁`), where `L` is `letter`.
pub open spec fn side_text(name: Seq<char>, arity: SymbolArity, letter: char) -> Seq<char> {
    match arity {
        SymbolArity::Zero => name,
        SymbolArity::One => seq!['('] + name + seq![' ', letter, '₀', ')'],
        SymbolArity::Two => seq!['('] + name + seq![' ', letter, '₀', ' ', letter, '₁', ')'],
    }
}

/// The text of the equation of a rule set at `ptr`, if it is held and
/// every cell and variable it reaches is held.
pub open spec fn rule_equation_text<'a>(set: &RuleSet<'a>, ptr: EquationPtr) -> Option<Seq<char>> {
    if ptr.index_of() < set.body.view().len() && set.body.view()[ptr.index_of() as int] is Some {
        equation_text(&set.heap, set.symbols, set.body.view()[ptr.index_of() as int]->0)
    } else {
        None
    }
}

/// The texts of the equations at `body`, each after a comma and a space.
pub open spec fn rule_body_text<'a>(set: &RuleSet<'a>, body: Seq<EquationPtr>) -> Option<Seq<char>>
    decreases body.len(),
{
    if body.len() == 0 {
        Some(Seq::<char>::empty())
    } else {
        match rule_body_text(set, body.drop_last()) {
            Some(a) => match rule_equation_text(set, body.last()) {
                Some(b) => Some(a + seq![',', ' '] + b),
                None => None,
            },
            None => None,
        }
    }
}

/// The text of a rule: `F ⋈ C  ⟶  ` and its body, where `F` and `C` are
/// the function's and the constructor's sides.
pub open spec fn rule_text<'a>(set: &RuleSet<'a>, rule: Rule) -> Option<Seq<char>> {
    let names = set.symbols.names_view();
    if rule.fun_ptr.index_of() >= names.len() || rule.ctr_ptr.index_of() >= names.len() {
        None
    } else {
        match rule_body_text(set, rule.body@) {
            Some(b) => Some(
                side_text(names[rule.fun_ptr.index_of() as int], rule.fun_ptr.arity_of(), 'F') + seq![' ', '⋈', ' ']
                    + side_text(names[rule.ctr_ptr.index_of() as int], rule.ctr_ptr.arity_of(), 'C')
                    + seq![' ', ' ', '⟶', ' ', ' '] + b,
            ),
            None => None,
        }
    }
}

/// The texts of the first `n` rules of a set, each on a line of its own.
pub open spec fn rule_set_text<'a>(set: &RuleSet<'a>, n: nat) -> Option<Seq<char>>
    decreases n,
{
    if n == 0 {
        Some(Seq::<char>::empty())
    } else {
        match rule_set_text(set, (n - 1) as nat) {
            Some(a) => match rule_text(set, set.rules_view()[n - 1]->0) {
                Some(b) => Some(a + b + seq!['\n']),
                None => None,
            },
            None => None,
        }
    }
}

/// One equation without a text leaves the whole body without one.
pub proof fn lemma_rule_body_text_none<'a>(set: &RuleSet<'a>, body: Seq<EquationPtr>, i: int)
    requires
        0 <= i < body.len(),
        rule_equation_text(set, body[i]) is None,
    ensures
        rule_body_text(set, body) is None,
    decreases body.len(),
{
    if i < body.len() - 1 {
        lemma_rule_body_text_none(set, body.drop_last(), i);
    }
}

/// One rule without a text leaves the whole set without one.
pub proof fn lemma_rule_set_text_none<'a>(set: &RuleSet<'a>, n: nat, i: int)
    requires
        0 <= i < n,
        rule_text(set, set.rules_view()[i]->0) is None,
    ensures
        rule_set_text(set, n) is None,
    decreases n,
{
    if i < n - 1 {
        lemma_rule_set_text_none(set, (n - 1) as nat, i);
    }
}

/// Appends a side of a rule's redex, with its ports named `zero` and `one`.
fn push_side(out: &mut String, name: &SymbolName, arity: SymbolArity, letter: Ghost<char>, zero: &str, one: &str)
    requires
        zero@ == seq![letter@, '₀'],
        one@ == seq![letter@, '₁'],
    ensures
        final(out)@ == old(out)@ + side_text(name.0@, arity, letter@),
{
    proof {
        reveal_strlit("(");
        reveal_strlit(")");
        reveal_strlit(" ");
    }
    match arity {
        SymbolArity::Zero => {
            out.append(name.0);
        },
        SymbolArity::One => {
            out.append("(");
            out.append(name.0);
            out.append(" ");
            out.append(zero);
            out.append(")");
            assert(out@ =~= old(out)@ + side_text(name.0@, arity, letter@));
        },
        SymbolArity::Two => {
            out.append("(");
            out.append(name.0);
            out.append(" ");
            out.append(zero);
            out.append(" ");
            out.append(one);
            out.append(")");
            assert(out@ =~= old(out)@ + side_text(name.0@, arity, letter@));
        },
    }
}

impl<'a> RuleSet<'a> {
    /// The rule `rule_ptr` with its set, ready to be shown.
    pub fn display_rule(&'a self, rule_ptr: RulePtr) -> (r: RuleDisplay<'a>)
        ensures
            r.rule_ptr == rule_ptr,
            r.rules == self,
    {
        RuleDisplay { rule_ptr, rules: self }
    }

    /// The equations at `body` with their set, ready to be shown.
    pub fn display_body(&'a self, body: &'a [EquationPtr]) -> (r: RuleBodyDisplay<'a>)
        ensures
            r.body == body,
            r.rules == self,
    {
        RuleBodyDisplay { body, rules: self }
    }

    /// A cell of the set's heap, ready to be shown.
    pub fn display_cell(&'a self, cell_ptr: &'a CellPtr) -> (r: CellDisplay<'a, RuleF>)
        ensures
            r.cell_ptr == cell_ptr,
            r.symbols == self.symbols,
            r.heap == &self.heap,
    {
        self.heap.display_cell(self.symbols, cell_ptr)
    }

    /// A variable of the set's heap, ready to be shown.
    pub fn display_var(&'a self, var_ptr: VarPtr) -> (r: VarDisplay<'a, RuleF>)
        ensures
            r.var_ptr == var_ptr,
            r.symbols == self.symbols,
            r.heap == &self.heap,
    {
        self.heap.display_var(self.symbols, var_ptr)
    }

    /// An equation over the set's heap, ready to be shown.
    pub fn display_equation(&'a self, equation: &'a Equation<RuleF>) -> (r: EquationDisplay<'a, RuleF>)
        ensures
            r.equation == equation,
            r.symbols == self.symbols,
            r.heap == &self.heap,
    {
        EquationDisplay { equation, symbols: self.symbols, heap: &self.heap }
    }

    /// Every rule's text on a line of its own, if every equation of every
    /// rule can be shown.
    pub fn try_to_string(&self) -> (r: Option<String>)
        requires
            self.wf(),
        ensures
            r is None <==> rule_set_text(self, self.rules_view().len()) is None,
            r matches Some(s) ==> rule_set_text(self, self.rules_view().len()) == Some(s@),
    {
        proof {
            self.lemma_wf();
        }
        let n = self.rules.slots();
        let mut out = String::new();
        let mut i: usize = 0;
        while i < n
            invariant
                self.wf(),
                n == self.rules_view().len(),
                n <= RULE_INDEX_LIMIT,
                i <= n,
                rule_set_text(self, i as nat) == Some(out@),
            decreases n - i,
        {
            proof {
                self.lemma_wf();
                reveal_strlit("\n");
            }
            let shown = RuleDisplay { rule_ptr: RulePtr::new(i), rules: self };
            match shown.try_to_string() {
                Some(t) => {
                    out.append(t.as_str());
                    out.append("\n");
                },
                None => {
                    proof {
                        lemma_rule_set_text_none(self, n as nat, i as int);
                    }
                    return None;
                },
            }
            i = i + 1;
        }
        Some(out)
    }

    /// Every rule's text on a line of its own; every equation of every rule
    /// must be shown.
    pub fn to_string(&self) -> (r: String)
        requires
            self.wf(),
            rule_set_text(self, self.rules_view().len()) is Some,
        ensures
            rule_set_text(self, self.rules_view().len()) == Some(r@),
    {
        match self.try_to_string() {
            Some(s) => s,
            None => vstd::pervasive::unreached(),
        }
    }
}

/// A rule with its set, ready to be shown.
pub struct RuleDisplay<'a> {
    pub rule_ptr: RulePtr,
    pub rules: &'a RuleSet<'a>,
}

impl<'a> RuleDisplay<'a> {
    /// The rule's text, if every equation of its body can be shown; the
    /// rule must be in the set.
    #[verifier::spinoff_prover]
    #[verifier::rlimit(40)]
    pub fn try_to_string(&self) -> (r: Option<String>)
        requires
            self.rules.wf(),
            self.rule_ptr.index_of() < self.rules.rules_view().len(),
        ensures
            r is None <==> rule_text(self.rules, self.rules.rules_view()[self.rule_ptr.index_of() as int]->0) is None,
            r matches Some(s) ==> rule_text(self.rules, self.rules.rules_view()[self.rule_ptr.index_of() as int]->0) == Some(s@),
    {
        proof {
            self.rules.lemma_wf();
            self.rules.symbols.lemma_wf();
            reveal_strlit(" ⋈ ");
            reveal_strlit("  ⟶  ");
            reveal_strlit("F₀");
            reveal_strlit("C₀");
            reveal_strlit("F₁");
            reveal_strlit("C₁");
        }
        let rule = self.rules.get_rule(self.rule_ptr);
        let ctr_name = match self.rules.symbols.get_name(rule.ctr_ptr) {
            Some(n) => n,
            None => {
                return None;
            },
        };
        let fun_name = match self.rules.symbols.get_name(rule.fun_ptr) {
            Some(n) => n,
            None => {
                return None;
            },
        };
        let body = match self.rules.display_body(rule.body()).try_to_string() {
            Some(b) => b,
            None => {
                return None;
            },
        };
        let mut s = String::new();
        proof {
            assert("F₀"@ =~= seq!['F', '₀']);
            assert("F₁"@ =~= seq!['F', '₁']);
            assert("C₀"@ =~= seq!['C', '₀']);
            assert("C₁"@ =~= seq!['C', '₁']);
        }
        push_side(&mut s, &fun_name, rule.fun_ptr.get_arity(), Ghost('F'), "F₀", "F₁");
        s.append(" ⋈ ");
        push_side(&mut s, &ctr_name, rule.ctr_ptr.get_arity(), Ghost('C'), "C₀", "C₁");
        s.append("  ⟶  ");
        s.append(body.as_str());
        let ghost names = self.rules.symbols.names_view();
        assert(s@ =~= side_text(names[rule.fun_ptr.index_of() as int], rule.fun_ptr.arity_of(), 'F') + seq![' ', '⋈', ' ']
                    + side_text(names[rule.ctr_ptr.index_of() as int], rule.ctr_ptr.arity_of(), 'C')
                    + seq![' ', ' ', '⟶', ' ', ' '] + body@);
        Some(s)
    }

    /// The rule's text; every equation of its body must be shown and the
    /// rule must be in the set.
    pub fn to_string(&self) -> (r: String)
        requires
            self.rules.wf(),
            self.rule_ptr.index_of() < self.rules.rules_view().len(),
            rule_text(self.rules, self.rules.rules_view()[self.rule_ptr.index_of() as int]->0) is Some,
        ensures
            rule_text(self.rules, self.rules.rules_view()[self.rule_ptr.index_of() as int]->0) == Some(r@),
    {
        match self.try_to_string() {
            Some(s) => s,
            None => vstd::pervasive::unreached(),
        }
    }
}

/// Some equations of a rule set, ready to be shown.
pub struct RuleBodyDisplay<'a> {
    pub body: &'a [EquationPtr],
    pub rules: &'a RuleSet<'a>,
}

impl<'a> RuleBodyDisplay<'a> {
    /// The equations' texts, each after a comma and a space, if each is
    /// held and can be shown.
    pub fn try_to_string(&self) -> (r: Option<String>)
        requires
            self.rules.wf(),
        ensures
            r is None <==> rule_body_text(self.rules, self.body@) is None,
            r matches Some(s) ==> rule_body_text(self.rules, self.body@) == Some(s@),
    {
        proof {
            self.rules.lemma_wf();
        }
        let mut out = String::new();
        let mut i: usize = 0;
        assert(self.body@.take(0) =~= Seq::<EquationPtr>::empty());
        while i < self.body.len()
            invariant
                self.rules.wf(),
                self.rules.symbols.wf(),
                i <= self.body@.len(),
                rule_body_text(self.rules, self.body@.take(i as int)) == Some(out@),
            decreases self.body@.len() - i,
        {
            proof {
                reveal_strlit(", ");
                assert(self.body@.take(i + 1).drop_last() =~= self.body@.take(i as int));
            }
            let ptr = self.body[i];
            let eqn = match self.rules.body.get(ptr) {
                Some(e) => e,
                None => {
                    proof {
                        lemma_rule_body_text_none(self.rules, self.body@, i as int);
                    }
                    return None;
                },
            };
            match self.rules.display_equation(eqn).try_to_string() {
                Some(t) => {
                    out.append(", ");
                    out.append(t.as_str());
                },
                None => {
                    proof {
                        lemma_rule_body_text_none(self.rules, self.body@, i as int);
                    }
                    return None;
                },
            }
            i = i + 1;
        }
        assert(self.body@.take(self.body@.len() as int) =~= self.body@);
        Some(out)
    }

    /// The equations' texts, each after a comma and a space; each must be
    /// held and shown.
    pub fn to_string(&self) -> (r: String)
        requires
            self.rules.wf(),
            rule_body_text(self.rules, self.body@) is Some,
        ensures
            rule_body_text(self.rules, self.body@) == Some(r@),
    {
        match self.try_to_string() {
            Some(s) => s,
            None => vstd::pervasive::unreached(),
        }
    }
}


/// The lookup key of a pair of symbols does not depend on their order.
pub proof fn law_lookup_is_symmetric(a: nat, b: nat)
    ensures
        rule_key(low_index(a, b), high_index(a, b)) == rule_key(low_index(b, a), high_index(b, a)),
{
}

/// Two pairs of symbol indexes below the index limit share a key only if
/// they are the same pair.
pub proof fn law_keys_are_distinct(a: nat, b: nat, c: nat, d: nat)
    requires
        a < 0x800,
        b < 0x800,
        c < 0x800,
        d < 0x800,
        rule_key(a, b) == rule_key(c, d),
    ensures
        a == c,
        b == d,
{
}

/// A rule just made, indexed under its symbols' indexes smaller first, is
/// what looking up the two symbols gives, in either order.
pub proof fn law_rule_is_found(before: Map<u64, usize>, after: Map<u64, usize>, ctr: nat, fun: nat, index: usize)
    requires
        after == before.insert(rule_key(low_index(ctr, fun), high_index(ctr, fun)) as u64, index),
    ensures
        after.contains_key(rule_key(low_index(ctr, fun), high_index(ctr, fun)) as u64),
        after[rule_key(low_index(ctr, fun), high_index(ctr, fun)) as u64] == index,
        after.contains_key(rule_key(low_index(fun, ctr), high_index(fun, ctr)) as u64),
        after[rule_key(low_index(fun, ctr), high_index(fun, ctr)) as u64] == index,
{
}

/// A pointer word with no bit set above the pointer is its own pointer
/// field.
pub proof fn lemma_pointer_word(w: u32)
    by (bit_vector)
    ensures
        w >> 24u8 == 0 ==> (w >> 0u8) & 0xffffff == w,
{
}

/// What a set holds stays as it was when the set grows: its equations,
/// the variables its ends name and its cells.
pub proof fn lemma_set_grew_keeps<'a>(set1: RuleSet<'a>, set2: RuleSet<'a>)
    requires
        set_grew(set1, set2),
        set2.symbols == set1.symbols,
    ensures
        forall|ptr: EquationPtr| #[trigger] equation_at(set1, ptr) is Some ==> equation_at(set2, ptr) == equation_at(set1, ptr),
        forall|w: u32, var: Var<RuleF>, pol: Polarity| #[trigger] end_holds(set1, w, var, pol) ==> end_holds(set2, w, var, pol),
        forall|w: u32, name: Seq<char>| #[trigger] cell_named(set1, w, name) ==> cell_named(set2, w, name),
        forall|c: CellPtr| #[trigger] set1.heap.has_cell(c) ==> set2.heap.cell_at(c) == set1.heap.cell_at(c),
{
    assert forall|c: CellPtr| #[trigger] set1.heap.has_cell(c) implies set2.heap.cell_at(c) == set1.heap.cell_at(c) by {
        assert(set2.heap.cells_view()[c.index_of() as int] == set1.heap.cells_view()[c.index_of() as int]);
    }
    assert forall|w: u32, name: Seq<char>| #[trigger] cell_named(set1, w, name) implies cell_named(set2, w, name) by {
        let c = CellPtr(w);
        assert(set2.heap.cells_view()[c.index_of() as int] == set1.heap.cells_view()[c.index_of() as int]);
    }
    assert forall|w: u32, var: Var<RuleF>, pol: Polarity| #[trigger] end_holds(set1, w, var, pol) implies end_holds(set2, w, var, pol) by {
        let v = PVarPtr(w);
        assert(set2.heap.vars_view()[v.index_of() as int] == set1.heap.vars_view()[v.index_of() as int]);
    }
    assert forall|ptr: EquationPtr| #[trigger] equation_at(set1, ptr) is Some implies equation_at(set2, ptr) == equation_at(set1, ptr) by {
        assert(set2.body.view()[ptr.index_of() as int] == set1.body.view()[ptr.index_of() as int]);
    }
}

/// Growing in steps is growing.
pub proof fn lemma_set_grew_trans<'a>(a: RuleSet<'a>, b: RuleSet<'a>, c: RuleSet<'a>)
    requires
        set_grew(a, b),
        set_grew(b, c),
    ensures
        set_grew(a, c),
{
    assert forall|i: int| 0 <= i < a.body.view().len() implies #[trigger] c.body.view()[i] == a.body.view()[i] by {
        assert(c.body.view()[i] == b.body.view()[i]);
    }
    assert forall|i: int| 0 <= i < a.heap.vars_view().len() implies #[trigger] c.heap.vars_view()[i] == a.heap.vars_view()[i] by {
        assert(c.heap.vars_view()[i] == b.heap.vars_view()[i]);
    }
    assert forall|i: int|
        0 <= i < a.heap.cells_view().len() && a.heap.cells_view()[i] is Some implies #[trigger] c.heap.cells_view()[i]
        == a.heap.cells_view()[i] by {
        assert(b.heap.cells_view()[i] == a.heap.cells_view()[i]);
    }
}

} // verus!
