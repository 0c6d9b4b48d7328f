//! The runtime: reduces a net by rewriting each redex with its rule.
//!
//! Work is a queue of tasks (a redex to rewrite, a variable to bind, two
//! variables to connect); each task may add more. The runtime takes them in
//! order until none is left or the fuel it was given runs out.
use vstd::prelude::*;
use std::collections::VecDeque;

use crate::arena::ArenaPtr;
use crate::cell::{Cell, CellPtr};
use crate::equation::{Equation, EquationKind};
use crate::heap::{cells_kept, lemma_slot_filled, port_word, Heap};
use crate::net::{store_of, Net, NetF, NetVar};
use crate::rule::{port_valid, PortNum, Rule, RuleF, RulePort, RuleSet};
use crate::symbol::SymbolArity;
use crate::term::{TermKind, TermPtr};
use crate::var::{PVarPtr, PVarPtrBuffer, Var, VarPtr, VAR_INDEX_LIMIT};
use crate::Polarity;

verus! {

/// A unit of work of the runtime.
#[derive(Debug, Clone, Copy, PartialEq, Eq, Structural)]
pub enum Task {
    /// Rewrite the redex of a constructor cell and a function cell.
    Redex(CellPtr, CellPtr),
    /// Bind a variable end to a cell.
    Bind(PVarPtr, CellPtr),
    /// Connect two variable ends.
    Connect(PVarPtr, PVarPtr),
}

/// Why the runtime stopped before its work was done.
#[derive(Debug, Clone, Copy, PartialEq, Eq, Structural)]
pub enum EvalError {
    /// The fuel ran out with work left.
    OutOfFuel,
    /// No rule rewrites the redex of two symbols.
    MissingRule,
    /// Two cells of the same polarity met.
    ShortCircuit,
    /// A pointer led to no cell or variable, or to a malformed word.
    Dangling,
    /// A rule asked for a port that a cell does not have.
    MissingPort,
    /// The heap of the net is full.
    OutOfRoom,
    /// A rule has more bound variables than a buffer holds.
    TooManyVars,
    /// A rule's cells nest deeper than its heap could hold, so they loop.
    Cyclic,
}

/// The constructor cell and the function cell of two cells met at a wire,
/// if one is positive and the other negative.
pub open spec fn ordered(left: CellPtr, right: CellPtr) -> Option<(CellPtr, CellPtr)> {
    match (left.polarity_of(), right.polarity_of()) {
        (Polarity::Pos, Polarity::Neg) => Some((left, right)),
        (Polarity::Neg, Polarity::Pos) => Some((right, left)),
        _ => None,
    }
}

/// The task that an equation of a net's body asks for.
pub open spec fn task_of(e: Equation<NetF>) -> Task {
    match e.kind_of() {
        EquationKind::Redex => Task::Redex(CellPtr(e.left_bits() as u32), CellPtr(e.right_bits() as u32)),
        EquationKind::Bind => Task::Bind(PVarPtr(e.left_bits() as u32), CellPtr(e.right_bits() as u32)),
        EquationKind::Connect => Task::Connect(PVarPtr(e.left_bits() as u32), PVarPtr(e.right_bits() as u32)),
    }
}

/// The cell of a redex that the port `port` belongs to.
pub open spec fn side_cell(ctr: Cell<NetF>, fun: Cell<NetF>, port: RulePort) -> Cell<NetF> {
    match port {
        RulePort::Ctr(_) => ctr,
        RulePort::Fun(_) => fun,
    }
}

/// The number of a port of a redex.
pub open spec fn side_port(port: RulePort) -> PortNum {
    match port {
        RulePort::Ctr(n) => n,
        RulePort::Fun(n) => n,
    }
}

/// The term found at the port `port` of the redex of `ctr` and `fun`.
pub open spec fn resolved(ctr: Cell<NetF>, fun: Cell<NetF>, port: RulePort) -> Result<TermPtr, EvalError> {
    let cell = side_cell(ctr, fun, port);
    if !cell.wf() {
        Err(EvalError::Dangling)
    } else if !port_valid(side_port(port), cell.symbol_of().arity_of()) {
        Err(EvalError::MissingPort)
    } else {
        Ok(cell.port_of(side_port(port)))
    }
}

/// `t` is the term of the end of polarity `pol` of the variable at `index`.
pub open spec fn pvar_term(t: TermPtr, index: nat, pol: Polarity) -> bool {
    &&& t.kind_of() == TermKind::Var
    &&& t.0 >> 25u8 == 0
    &&& PVarPtr(t.term_bits()).made(index, pol)
    &&& t.ptr_bits() < 0x1ffffff
}

/// The variables of a buffer in use are held pointers.
pub open spec fn buffer_ready(bvars: &PVarPtrBuffer) -> bool {
    &&& bvars.wf()
    &&& forall|i: int| 0 <= i < bvars.len_spec() ==> (#[trigger] bvars.view()[i]).wf()
}

/// The runtime of a rule set: the rules it rewrites with and the number of
/// redexes it has rewritten.
pub struct Runtime<'a> {
    pub debug: bool,
    pub rules: &'a RuleSet<'a>,
    pub rewrites: usize,
}

impl<'a> Runtime<'a> {
    /// A runtime for `rules` that has rewritten nothing.
    pub fn new(rules: &'a RuleSet<'a>, debug: bool) -> (r: Self)
        ensures
            r.rules == rules,
            r.debug == debug,
            r.rewrites == 0,
    {
        Self { rules, debug, rewrites: 0 }
    }

    /// The number of redexes rewritten (modulo the size of a `usize`).
    pub fn get_rewrites(&self) -> (r: usize)
        ensures
            r == self.rewrites,
    {
        self.rewrites
    }

    /// The constructor cell and the function cell of `left_ptr` and
    /// `right_ptr`, which have opposite polarities.
    pub fn order_ctr_fun(&self, left_ptr: CellPtr, right_ptr: CellPtr) -> (r: (CellPtr, CellPtr))
        requires
            left_ptr.polarity_of() != right_ptr.polarity_of(),
        ensures
            ordered(left_ptr, right_ptr) == Some(r),
    {
        match left_ptr.get_polarity() {
            Polarity::Pos => (left_ptr, right_ptr),
            Polarity::Neg => (right_ptr, left_ptr),
        }
    }

    /// The term at the port `port` of the redex of `ctr` and `fun`.
    pub fn resolve_fvar(&self, ctr: Cell<NetF>, fun: Cell<NetF>, port: &RulePort) -> (r: Result<TermPtr, EvalError>)
        ensures
            r == resolved(ctr, fun, *port),
    {
        let (cell, port_num) = match port {
            RulePort::Ctr(n) => (ctr, *n),
            RulePort::Fun(n) => (fun, *n),
        };
        let symbol_ptr = cell.get_symbol_ptr();
        if !((symbol_ptr.0 >> 12u8) & 3 <= 2) {
            return Err(EvalError::Dangling);
        }
        if !port_num.is_valid_port(symbol_ptr.get_arity()) {
            return Err(EvalError::MissingPort);
        }
        Ok(cell.get_port(port_num))
    }

    /// A buffer of `bvar_count` new bound variables of the net's heap.
    pub fn new_bvar_buffer(&self, heap: &mut Heap<NetF>, bvar_count: u8) -> (r: Result<PVarPtrBuffer, EvalError>)
        requires
            old(heap).wf(),
        ensures
            final(heap).wf(),
            final(heap).cells == old(heap).cells,
            bvar_count as usize >= PVarPtrBuffer::MAX_BUFFER_LEN ==> r == Err::<PVarPtrBuffer, EvalError>(EvalError::TooManyVars)
                && *final(heap) == *old(heap),
            r matches Ok(b) ==> {
                &&& buffer_ready(&b)
                &&& b.len_spec() == bvar_count
                &&& final(heap).vars_view().len() == old(heap).vars_view().len() + bvar_count
                &&& final(heap).vars_view().take(old(heap).vars_view().len() as int) == old(heap).vars_view()
                &&& forall|i: int| 0 <= i < bvar_count ==> #[trigger] b.view()[i].index_of() == old(heap).vars_view().len() + i
                &&& forall|i: int| 0 <= i < bvar_count ==> #[trigger] final(heap).vars_view()[old(heap).vars_view().len() + i]
                    == Some(Var::<NetF>::Bound(NetVar(NetVar::NULL)))
            },
            r matches Err(e) ==> e == EvalError::TooManyVars || e == EvalError::OutOfRoom,
            (bvar_count as usize) < PVarPtrBuffer::MAX_BUFFER_LEN && r is Err ==> r == Err::<PVarPtrBuffer, EvalError>(
                EvalError::OutOfRoom,
            ),
            (bvar_count as usize) < PVarPtrBuffer::MAX_BUFFER_LEN ==> (r is Ok <==> (bvar_count == 0 || old(
                heap,
            ).vars_view().len() + bvar_count <= VAR_INDEX_LIMIT)),
    {
        if bvar_count as usize >= PVarPtrBuffer::MAX_BUFFER_LEN {
            return Err(EvalError::TooManyVars);
        }
        let mut buffer = PVarPtrBuffer::new(bvar_count);
        let ghost start = heap.vars_view();
        let mut i: u8 = 0;
        while i < bvar_count
            invariant
                heap.wf(),
                heap.cells == old(heap).cells,
                start == old(heap).vars_view(),
                (bvar_count as usize) < PVarPtrBuffer::MAX_BUFFER_LEN,
                i <= bvar_count,
                buffer.wf(),
                buffer.len_spec() == bvar_count,
                buffer.view().len() == PVarPtrBuffer::MAX_BUFFER_LEN,
                heap.vars_view().len() == start.len() + i,
                i > 0 ==> start.len() + i <= VAR_INDEX_LIMIT,
                heap.vars_view().take(start.len() as int) == start,
                forall|k: int| 0 <= k < i ==> (#[trigger] buffer.view()[k]).wf(),
                forall|k: int| 0 <= k < i ==> #[trigger] buffer.view()[k].index_of() == start.len() + k,
                forall|k: int| 0 <= k < i ==> #[trigger] heap.vars_view()[start.len() + k]
                    == Some(Var::<NetF>::Bound(NetVar(NetVar::NULL))),
            decreases bvar_count - i,
        {
            if !heap.can_store_var() {
                return Err(EvalError::OutOfRoom);
            }
            let ghost before = heap.vars_view();
            let v = heap.bvar(NetVar::default());
            proof {
                assert(heap.vars_view().take(start.len() as int) =~= before.take(start.len() as int));
                assert forall|k: int| 0 <= k < i implies #[trigger] heap.vars_view()[start.len() + k]
                    == Some(Var::<NetF>::Bound(NetVar(NetVar::NULL))) by {
                    assert(heap.vars_view()[start.len() + k] == before[start.len() + k]);
                }
            }
            buffer.set(i, v);
            i = i + 1;
        }
        Ok(buffer)
    }
}


/// What instantiating the rule variable end `v` gives, for the redex of
/// `ctr` and `fun` with the fresh variables `bvars`: a bound variable of
/// the rule becomes the end of the same polarity of its fresh variable, a
/// free one becomes the term at the port it names.
pub open spec fn var_instance<'a>(
    rules: &RuleSet<'a>,
    bvars: &PVarPtrBuffer,
    ctr: Cell<NetF>,
    fun: Cell<NetF>,
    v: PVarPtr,
    r: Result<TermPtr, EvalError>,
) -> bool {
    if !rules.heap.has_var(v.index_of()) {
        r == Err::<TermPtr, EvalError>(EvalError::Dangling)
    } else {
        match rules.heap.var_at(v.index_of()) {
            Var::Bound(id) => if id >= bvars.len_spec() {
                r == Err::<TermPtr, EvalError>(EvalError::Dangling)
            } else {
                r matches Ok(t) && pvar_term(t, bvars.view()[id as int].index_of(), v.polarity_of())
            },
            Var::Free(port) => r == resolved(ctr, fun, port),
        }
    }
}

/// `t` is, in `heap`, an instance of the rule term `rule_term` for the
/// redex of `ctr` and `fun`, at most `depth` cells deep: the instance of a
/// rule variable end is `var_instance`'s, that of a rule cell a cell of
/// `heap` instantiated from it.
pub open spec fn term_instance<'a>(
    rules: &RuleSet<'a>,
    bvars: &PVarPtrBuffer,
    ctr: Cell<NetF>,
    fun: Cell<NetF>,
    heap: Heap<NetF>,
    rule_term: TermPtr,
    t: TermPtr,
    depth: nat,
) -> bool
    decreases depth, 1nat,
{
    match rule_term.kind_of() {
        TermKind::Var => var_instance(rules, bvars, ctr, fun, PVarPtr(rule_term.term_bits()), Ok(t)),
        TermKind::Cell => t.kind_of() == TermKind::Cell && cell_instance(
            rules,
            bvars,
            ctr,
            fun,
            heap,
            CellPtr(rule_term.term_bits()),
            CellPtr(t.term_bits()),
            depth,
        ),
    }
}

/// The cell at `c` in `heap` is an instance of the rule cell at
/// `rule_cell`, at most `depth` cells deep: it has the rule cell's symbol,
/// and each of its ports holds an instance of the rule cell's port.
pub open spec fn cell_instance<'a>(
    rules: &RuleSet<'a>,
    bvars: &PVarPtrBuffer,
    ctr: Cell<NetF>,
    fun: Cell<NetF>,
    heap: Heap<NetF>,
    rule_cell: CellPtr,
    c: CellPtr,
    depth: nat,
) -> bool
    decreases depth, 0nat,
{
    if depth == 0 {
        false
    } else {
        let rc = rules.heap.cell_at(rule_cell);
        let nc = heap.cell_at(c);
        &&& rules.heap.has_cell(rule_cell)
        &&& heap.has_cell(c)
        &&& nc.symbol_of() == rc.symbol_of()
        &&& match rc.symbol_of().arity_of() {
            SymbolArity::Zero => true,
            SymbolArity::One => term_instance(rules, bvars, ctr, fun, heap, rc.left_of(), nc.left_of(), (depth - 1) as nat),
            SymbolArity::Two => {
                &&& term_instance(rules, bvars, ctr, fun, heap, rc.left_of(), nc.left_of(), (depth - 1) as nat)
                &&& term_instance(rules, bvars, ctr, fun, heap, rc.right_of(), nc.right_of(), (depth - 1) as nat)
            },
        }
    }
}

/// An instance stays one when the heap keeps its cells.
pub proof fn lemma_term_instance_kept<'a>(
    rules: &RuleSet<'a>,
    bvars: &PVarPtrBuffer,
    ctr: Cell<NetF>,
    fun: Cell<NetF>,
    h1: Heap<NetF>,
    h2: Heap<NetF>,
    rule_term: TermPtr,
    t: TermPtr,
    depth: nat,
)
    requires
        term_instance(rules, bvars, ctr, fun, h1, rule_term, t, depth),
        cells_kept(h1, h2),
    ensures
        term_instance(rules, bvars, ctr, fun, h2, rule_term, t, depth),
    decreases depth, 1nat,
{
    if rule_term.kind_of() == TermKind::Cell {
        lemma_cell_instance_kept(rules, bvars, ctr, fun, h1, h2, CellPtr(rule_term.term_bits()), CellPtr(t.term_bits()), depth);
    }
}

/// A cell instance stays one when the heap keeps its cells.
pub proof fn lemma_cell_instance_kept<'a>(
    rules: &RuleSet<'a>,
    bvars: &PVarPtrBuffer,
    ctr: Cell<NetF>,
    fun: Cell<NetF>,
    h1: Heap<NetF>,
    h2: Heap<NetF>,
    rule_cell: CellPtr,
    c: CellPtr,
    depth: nat,
)
    requires
        cell_instance(rules, bvars, ctr, fun, h1, rule_cell, c, depth),
        cells_kept(h1, h2),
    ensures
        cell_instance(rules, bvars, ctr, fun, h2, rule_cell, c, depth),
    decreases depth, 0nat,
{
    let i = c.index_of() as int;
    assert(h2.cells_view()[i] == h1.cells_view()[i]);
    let rc = rules.heap.cell_at(rule_cell);
    let nc = h1.cell_at(c);
    let d = (depth - 1) as nat;
    match rc.symbol_of().arity_of() {
        SymbolArity::Zero => {},
        SymbolArity::One => {
            lemma_term_instance_kept(rules, bvars, ctr, fun, h1, h2, rc.left_of(), nc.left_of(), d);
        },
        SymbolArity::Two => {
            lemma_term_instance_kept(rules, bvars, ctr, fun, h1, h2, rc.left_of(), nc.left_of(), d);
            lemma_term_instance_kept(rules, bvars, ctr, fun, h1, h2, rc.right_of(), nc.right_of(), d);
        },
    }
}

/// Why the rule variable end `v` has no instance for the redex of `ctr`
/// and `fun`, if it has none: as `var_instance` says.
pub open spec fn var_error<'a>(
    rules: &RuleSet<'a>,
    bvars: &PVarPtrBuffer,
    ctr: Cell<NetF>,
    fun: Cell<NetF>,
    v: PVarPtr,
) -> Option<EvalError> {
    if !rules.heap.has_var(v.index_of()) {
        Some(EvalError::Dangling)
    } else {
        match rules.heap.var_at(v.index_of()) {
            Var::Bound(id) => if id >= bvars.len_spec() {
                Some(EvalError::Dangling)
            } else {
                None
            },
            Var::Free(port) => match resolved(ctr, fun, port) {
                Ok(_) => None,
                Err(e) => Some(e),
            },
        }
    }
}

/// The instance of the rule variable end `v`, when it has one, fits a port
/// of a cell: always for a fresh variable, and for a port of the redex when
/// the term found there does.
pub open spec fn var_fits_port<'a>(rules: &RuleSet<'a>, ctr: Cell<NetF>, fun: Cell<NetF>, v: PVarPtr) -> bool {
    match rules.heap.var_at(v.index_of()) {
        Var::Bound(_) => true,
        Var::Free(port) => match resolved(ctr, fun, port) {
            Ok(t) => port_word(t),
            Err(_) => true,
        },
    }
}

/// What instantiating the rule term `rule_term`, at most `depth` cells
/// deep, in a heap with room for `room` more cells, comes to: the error met
/// first, or the number of cells it makes and whether its term fits a port.
pub open spec fn term_outcome<'a>(
    rules: &RuleSet<'a>,
    bvars: &PVarPtrBuffer,
    ctr: Cell<NetF>,
    fun: Cell<NetF>,
    rule_term: TermPtr,
    depth: nat,
    room: int,
) -> Result<(int, bool), EvalError>
    decreases depth, 1nat,
{
    match rule_term.kind_of() {
        TermKind::Var => {
            let v = PVarPtr(rule_term.term_bits());
            match var_error(rules, bvars, ctr, fun, v) {
                Some(e) => Err(e),
                None => Ok((0, var_fits_port(rules, ctr, fun, v))),
            }
        },
        TermKind::Cell => match cell_outcome(rules, bvars, ctr, fun, CellPtr(rule_term.term_bits()), depth, room) {
            Ok(k) => Ok((k, true)),
            Err(e) => Err(e),
        },
    }
}

/// What instantiating the rule cell at `rule_cell`, at most `depth` cells
/// deep, in a heap with room for `room` more cells, comes to: the error met
/// first, in the order the ports are instantiated and checked, or the
/// number of cells it makes.
pub open spec fn cell_outcome<'a>(
    rules: &RuleSet<'a>,
    bvars: &PVarPtrBuffer,
    ctr: Cell<NetF>,
    fun: Cell<NetF>,
    rule_cell: CellPtr,
    depth: nat,
    room: int,
) -> Result<int, EvalError>
    decreases depth, 0nat,
{
    if depth == 0 {
        Err(EvalError::Cyclic)
    } else if !rules.heap.has_cell(rule_cell) {
        Err(EvalError::Dangling)
    } else {
        let rc = rules.heap.cell_at(rule_cell);
        let d = (depth - 1) as nat;
        if !rc.symbol_of().wf() {
            Err(EvalError::Dangling)
        } else {
            match rc.symbol_of().arity_of() {
                SymbolArity::Zero => if room <= 0 {
                    Err(EvalError::OutOfRoom)
                } else {
                    Ok(1)
                },
                SymbolArity::One => match term_outcome(rules, bvars, ctr, fun, rc.left_of(), d, room) {
                    Err(e) => Err(e),
                    Ok((k, fits)) => if !fits {
                        Err(EvalError::Dangling)
                    } else if room - k <= 0 {
                        Err(EvalError::OutOfRoom)
                    } else {
                        Ok(k + 1)
                    },
                },
                SymbolArity::Two => match term_outcome(rules, bvars, ctr, fun, rc.left_of(), d, room) {
                    Err(e) => Err(e),
                    Ok((k1, fits1)) => match term_outcome(rules, bvars, ctr, fun, rc.right_of(), d, room - k1) {
                        Err(e) => Err(e),
                        Ok((k2, fits2)) => if !(fits1 && fits2) {
                            Err(EvalError::Dangling)
                        } else if room - k1 - k2 <= 0 {
                            Err(EvalError::OutOfRoom)
                        } else {
                            Ok(k1 + k2 + 1)
                        },
                    },
                },
            }
        }
    }
}

/// The result `res` of binding the instance `t` of a rule variable end to
/// the new cell `c`: a cell `t` makes a redex with `c` if their polarities
/// differ; a variable end `t` must be a variable of `heap`, and the binding
/// gives what `bind_outcome` says.
pub open spec fn bind_result(heap: Heap<NetF>, c: CellPtr, t: TermPtr, res: Result<(), EvalError>) -> bool {
    match t.kind_of() {
        TermKind::Cell => match ordered(c, CellPtr(t.term_bits())) {
            Some(_) => res is Ok,
            None => res == Err::<(), EvalError>(EvalError::ShortCircuit),
        },
        TermKind::Var => {
            let v = PVarPtr(t.term_bits());
            if !heap.has_var(v.index_of()) {
                res == Err::<(), EvalError>(EvalError::Dangling)
            } else {
                match bind_outcome(previous(store_of(heap.var_at(v.index_of())), c), c) {
                    Ok(_) => res is Ok,
                    Err(e) => res == Err::<(), EvalError>(e),
                }
            }
        },
    }
}

/// The result `res` of connecting the instances `lt` and `rt` of two rule
/// variable ends: what `instance_outcome` says.
pub open spec fn connect_result(lt: TermPtr, rt: TermPtr, res: Result<(), EvalError>) -> bool {
    match instance_outcome(lt, rt) {
        Ok(_) => res is Ok,
        Err(e) => res == Err::<(), EvalError>(e),
    }
}

/// The result `r` of instantiating the rule equation `rule_ctr ~ rule_fun`
/// in `heap`, giving `new_heap`: the constructor cell's outcome, then the
/// function cell's in the room left; on success, the cells they use.
pub open spec fn redex_outcome<'a>(
    rules: &RuleSet<'a>,
    bvars: &PVarPtrBuffer,
    ctr: Cell<NetF>,
    fun: Cell<NetF>,
    heap: Heap<NetF>,
    new_heap: Heap<NetF>,
    rule_ctr: CellPtr,
    rule_fun: CellPtr,
    r: Result<(), EvalError>,
) -> bool {
    match cell_outcome(rules, bvars, ctr, fun, rule_ctr, instance_depth(rules), heap.cell_room_count()) {
        Err(e) => r == Err::<(), EvalError>(e),
        Ok(k1) => match cell_outcome(rules, bvars, ctr, fun, rule_fun, instance_depth(rules), heap.cell_room_count() - k1) {
            Err(e) => r == Err::<(), EvalError>(e),
            Ok(k2) => r is Ok && new_heap.cell_room_count() == heap.cell_room_count() - k1 - k2,
        },
    }
}

/// The result `r` of instantiating the rule equation `rule_var ~ rule_cell`
/// in `heap`, giving `new_heap`: the rule cell's outcome, then the rule
/// variable's; otherwise what binding the variable's instance `t` to the
/// new cell `c` gives, as `bind_result` says.
pub open spec fn bind_outcome_of<'a>(
    rules: &RuleSet<'a>,
    bvars: &PVarPtrBuffer,
    ctr: Cell<NetF>,
    fun: Cell<NetF>,
    heap: Heap<NetF>,
    new_heap: Heap<NetF>,
    rule_var: PVarPtr,
    rule_cell: CellPtr,
    r: Result<(), EvalError>,
) -> bool {
    match cell_outcome(rules, bvars, ctr, fun, rule_cell, instance_depth(rules), heap.cell_room_count()) {
        Err(e) => r == Err::<(), EvalError>(e),
        Ok(k) => {
            &&& new_heap.cell_room_count() == heap.cell_room_count() - k
            &&& match var_error(rules, bvars, ctr, fun, rule_var) {
                Some(e) => r == Err::<(), EvalError>(e),
                None => exists|c: CellPtr, t: TermPtr|
                    {
                        &&& #[trigger] bind_result(heap, c, t, r)
                        &&& var_instance(rules, bvars, ctr, fun, rule_var, Ok(t))
                        &&& c.polarity_of() == rules.heap.cell_at(rule_cell).symbol_of().polarity_of()
                        &&& !heap.has_cell(c)
                        &&& new_heap.has_cell(c)
                    },
            }
        },
    }
}

/// The result `r` of instantiating the rule equation `left ~ right`: the
/// left end's error, then the right end's, else what `connect_result` of
/// their instances says.
pub open spec fn connect_outcome_of<'a>(
    rules: &RuleSet<'a>,
    bvars: &PVarPtrBuffer,
    ctr: Cell<NetF>,
    fun: Cell<NetF>,
    left: PVarPtr,
    right: PVarPtr,
    r: Result<(), EvalError>,
) -> bool {
    match var_error(rules, bvars, ctr, fun, left) {
        Some(e) => r == Err::<(), EvalError>(e),
        None => match var_error(rules, bvars, ctr, fun, right) {
            Some(e) => r == Err::<(), EvalError>(e),
            None => exists|lt: TermPtr, rt: TermPtr|
                {
                    &&& #[trigger] connect_result(lt, rt, r)
                    &&& var_instance(rules, bvars, ctr, fun, left, Ok(lt))
                    &&& var_instance(rules, bvars, ctr, fun, right, Ok(rt))
                },
        },
    }
}

/// The result `r` of instantiating the well-formed rule equation `e` in
/// `heap`, giving `new_heap`, by its kind.
pub open spec fn equation_outcome<'a>(
    rules: &RuleSet<'a>,
    bvars: &PVarPtrBuffer,
    ctr: Cell<NetF>,
    fun: Cell<NetF>,
    e: Equation<RuleF>,
    heap: Heap<NetF>,
    new_heap: Heap<NetF>,
    r: Result<(), EvalError>,
) -> bool {
    match e.kind_of() {
        EquationKind::Redex => redex_outcome(
            rules,
            bvars,
            ctr,
            fun,
            heap,
            new_heap,
            CellPtr(e.left_bits() as u32),
            CellPtr(e.right_bits() as u32),
            r,
        ),
        EquationKind::Bind => bind_outcome_of(
            rules,
            bvars,
            ctr,
            fun,
            heap,
            new_heap,
            PVarPtr(e.left_bits() as u32),
            CellPtr(e.right_bits() as u32),
            r,
        ),
        EquationKind::Connect => new_heap == heap && connect_outcome_of(
            rules,
            bvars,
            ctr,
            fun,
            PVarPtr(e.left_bits() as u32),
            PVarPtr(e.right_bits() as u32),
            r,
        ),
    }
}

/// Facts about the words of cells and terms that instantiation relies on.
pub proof fn lemma_instance_bits(w: u64, p: u32, c: u32)
    by (bit_vector)
    ensures
        ((w >> 50u8) & 0x3fff) as u16 >> 14u8 == 0,
        p >> 24u8 == 0 ==> (p >> 0u8) & 0xffffff == p,
        (p >> 0u8) & 0xffffff < 0xffffff && (p >> 25u8) == 0 ==> (p >> 0u8) & 0x1ffffff < 0x1ffffff,
{
}

impl<'a> Runtime<'a> {
    /// The term that the rule variable end `rule_var_ptr` stands for in the
    /// redex of `ctr` and `fun`.
    pub fn instantiate_var(&self, bvars: &PVarPtrBuffer, ctr: Cell<NetF>, fun: Cell<NetF>, rule_var_ptr: &PVarPtr) -> (r: Result<TermPtr, EvalError>)
        requires
            self.rules.wf(),
            buffer_ready(bvars),
        ensures
            var_instance(self.rules, bvars, ctr, fun, *rule_var_ptr, r),
    {
        let index = rule_var_ptr.get_fvar_ptr();
        match self.rules.heap.vars.get(index) {
            None => Err(EvalError::Dangling),
            Some(var) => match var {
                Var::Bound(id) => {
                    if *id >= bvars.len() {
                        return Err(EvalError::Dangling);
                    }
                    let p = match rule_var_ptr.get_polarity() {
                        Polarity::Pos => bvars.get_pos_var(*id),
                        Polarity::Neg => bvars.get_neg_var(*id),
                    };
                    let t = TermPtr::new_pvar(p);
                    proof {
                        lemma_instance_bits(0, p.0, 0);
                        lemma_instance_bits(0, t.0, 0);
                        assert(PVarPtr(t.term_bits()) == p);
                    }
                    Ok(t)
                },
                Var::Free(port) => self.resolve_fvar(ctr, fun, port),
            },
        }
    }

    /// A new cell of the net's heap for the rule cell `rule_cell_ptr`, with
    /// its ports instantiated in turn, at most `depth` cells deep.
    pub fn instantiate_cell(
        &self,
        heap: &mut Heap<NetF>,
        bvars: &PVarPtrBuffer,
        ctr: Cell<NetF>,
        fun: Cell<NetF>,
        rule_cell_ptr: CellPtr,
        depth: usize,
    ) -> (r: Result<CellPtr, EvalError>)
        requires
            old(heap).wf(),
            self.rules.wf(),
            buffer_ready(bvars),
        ensures
            final(heap).wf(),
            final(heap).vars == old(heap).vars,
            final(heap).cells.capacity_spec() == old(heap).cells.capacity_spec(),
            cells_kept(*old(heap), *final(heap)),
            depth == 0 ==> r == Err::<CellPtr, EvalError>(EvalError::Cyclic) && *final(heap) == *old(heap),
            depth > 0 && !self.rules.heap.has_cell(rule_cell_ptr) ==> r == Err::<CellPtr, EvalError>(
                EvalError::Dangling,
            ) && *final(heap) == *old(heap),
            r matches Ok(c) ==> {
                &&& self.rules.heap.has_cell(rule_cell_ptr)
                &&& final(heap).has_cell(c)
                &&& !old(heap).has_cell(c)
                &&& final(heap).cell_at(c).symbol_of() == self.rules.heap.cell_at(rule_cell_ptr).symbol_of()
                &&& final(heap).cell_at(c).wf()
                &&& c.polarity_of() == final(heap).cell_at(c).symbol_of().polarity_of()
                &&& c.wf()
                &&& c.ptr_bits() < 0xffffff
                &&& cell_instance(self.rules, bvars, ctr, fun, *final(heap), rule_cell_ptr, c, depth as nat)
            },
            match cell_outcome(self.rules, bvars, ctr, fun, rule_cell_ptr, depth as nat, old(heap).cell_room_count()) {
                Ok(k) => r is Ok && final(heap).cell_room_count() == old(heap).cell_room_count() - k,
                Err(e) => r == Err::<CellPtr, EvalError>(e),
            },
        decreases depth, 0nat,
    {
        if depth == 0 {
            return Err(EvalError::Cyclic);
        }
        let rule_cell = match self.rules.heap.cells.get_checked(&rule_cell_ptr) {
            Some(c) => *c,
            None => {
                return Err(EvalError::Dangling);
            },
        };
        let symbol_ptr = rule_cell.get_symbol_ptr();
        if !((symbol_ptr.0 >> 12u8) & 3 <= 2) {
            return Err(EvalError::Dangling);
        }
        proof {
            lemma_instance_bits(rule_cell.0, 0, 0);
        }
        let ghost start = *heap;
        match symbol_ptr.get_arity() {
            SymbolArity::Zero => {
                if !heap.can_store_cell() {
                    return Err(EvalError::OutOfRoom);
                }
                let c = heap.cell0(symbol_ptr);
                proof {
                    lemma_slot_filled(start.cells_view(), heap.cells_view(), c.index_of(), heap.cell_at(c));
                }
                Ok(c)
            },
            SymbolArity::One => {
                let port = match self.instantiate_port(heap, bvars, ctr, fun, rule_cell.get_left_port(), depth - 1) {
                    Ok(t) => t,
                    Err(e) => {
                        return Err(e);
                    },
                };
                if !(port.0 >> 25u8 == 0 && port.get_ptr() < 0x1ffffff) {
                    return Err(EvalError::Dangling);
                }
                if !heap.can_store_cell() {
                    return Err(EvalError::OutOfRoom);
                }
                let ghost mid = *heap;
                let c = heap.cell1(symbol_ptr, port);
                proof {
                    lemma_slot_filled(mid.cells_view(), heap.cells_view(), c.index_of(), heap.cell_at(c));
                    lemma_term_instance_kept(self.rules, bvars, ctr, fun, mid, *heap, rule_cell.left_of(), port, (depth - 1) as nat);
                }
                Ok(c)
            },
            SymbolArity::Two => {
                let left = match self.instantiate_port(heap, bvars, ctr, fun, rule_cell.get_left_port(), depth - 1) {
                    Ok(t) => t,
                    Err(e) => {
                        return Err(e);
                    },
                };
                let ghost after_left = *heap;
                let right = match self.instantiate_port(heap, bvars, ctr, fun, rule_cell.get_right_port(), depth - 1) {
                    Ok(t) => t,
                    Err(e) => {
                        return Err(e);
                    },
                };
                if !(left.0 >> 25u8 == 0 && left.get_ptr() < 0x1ffffff && right.0 >> 25u8 == 0
                    && right.get_ptr() < 0x1ffffff) {
                    return Err(EvalError::Dangling);
                }
                if !heap.can_store_cell() {
                    return Err(EvalError::OutOfRoom);
                }
                let ghost mid = *heap;
                let c = heap.cell2(&symbol_ptr, left, right);
                proof {
                    lemma_slot_filled(mid.cells_view(), heap.cells_view(), c.index_of(), heap.cell_at(c));
                    lemma_term_instance_kept(self.rules, bvars, ctr, fun, after_left, mid, rule_cell.left_of(), left, (depth - 1) as nat);
                    lemma_term_instance_kept(self.rules, bvars, ctr, fun, mid, *heap, rule_cell.left_of(), left, (depth - 1) as nat);
                    lemma_term_instance_kept(self.rules, bvars, ctr, fun, mid, *heap, rule_cell.right_of(), right, (depth - 1) as nat);
                }
                Ok(c)
            },
        }
    }

    /// The term for the rule term `rule_port_ptr`: a new cell for a cell,
    /// the instance of a variable for a variable.
    pub fn instantiate_port(
        &self,
        heap: &mut Heap<NetF>,
        bvars: &PVarPtrBuffer,
        ctr: Cell<NetF>,
        fun: Cell<NetF>,
        rule_port_ptr: TermPtr,
        depth: usize,
    ) -> (r: Result<TermPtr, EvalError>)
        requires
            old(heap).wf(),
            self.rules.wf(),
            buffer_ready(bvars),
        ensures
            final(heap).wf(),
            final(heap).vars == old(heap).vars,
            final(heap).cells.capacity_spec() == old(heap).cells.capacity_spec(),
            cells_kept(*old(heap), *final(heap)),
            rule_port_ptr.kind_of() == TermKind::Var ==> *final(heap) == *old(heap)
                && var_instance(self.rules, bvars, ctr, fun, PVarPtr(rule_port_ptr.term_bits()), r),
            rule_port_ptr.kind_of() == TermKind::Cell ==> (r matches Ok(t) ==> {
                &&& t.kind_of() == TermKind::Cell
                &&& final(heap).has_cell(CellPtr(t.term_bits()))
                &&& final(heap).cell_at(CellPtr(t.term_bits())).symbol_of()
                    == self.rules.heap.cell_at(CellPtr(rule_port_ptr.term_bits())).symbol_of()
                &&& t.0 >> 25u8 == 0
                &&& t.ptr_bits() < 0x1ffffff
            }),
            r matches Ok(t) ==> term_instance(self.rules, bvars, ctr, fun, *final(heap), rule_port_ptr, t, depth as nat),
            match term_outcome(self.rules, bvars, ctr, fun, rule_port_ptr, depth as nat, old(heap).cell_room_count()) {
                Ok((k, fits)) => r is Ok && final(heap).cell_room_count() == old(heap).cell_room_count() - k
                    && port_word(r->Ok_0) == fits,
                Err(e) => r == Err::<TermPtr, EvalError>(e),
            },
        decreases depth, 1nat,
    {
        match rule_port_ptr.get_kind() {
            TermKind::Cell => {
                let c = match self.instantiate_cell(heap, bvars, ctr, fun, rule_port_ptr.get_cell_ptr(), depth) {
                    Ok(c) => c,
                    Err(e) => {
                        return Err(e);
                    },
                };
                let t = TermPtr::new_cell(c);
                proof {
                    lemma_instance_bits(0, c.0, 0);
                    lemma_instance_bits(0, t.0, 0);
                    assert(CellPtr(t.term_bits()).0 == c.ptr_bits());
                }
                Ok(t)
            },
            TermKind::Var => self.instantiate_var(bvars, ctr, fun, &rule_port_ptr.get_pvar_ptr()),
        }
    }
}


/// `new` is `old` with tasks added at its end.
pub open spec fn queue_grew(old: Seq<Task>, new: Seq<Task>) -> bool {
    &&& new.len() >= old.len()
    &&& forall|i: int| 0 <= i < old.len() ==> #[trigger] new[i] == old[i]
}

/// The variable `var` bound to the cell word `word`, bound or free as before.
pub open spec fn rebound(var: Var<NetF>, word: u32) -> Var<NetF> {
    match var {
        Var::Bound(_) => Var::Bound(NetVar(word)),
        Var::Free(_) => Var::Free(NetVar(word)),
    }
}

/// The cell a variable holding `store` was bound to before being bound to
/// `cell`, if it was bound to another cell.
pub open spec fn previous(store: NetVar, cell: CellPtr) -> Option<CellPtr> {
    if store.0 != NetVar::NULL && store.0 != cell.ptr_bits() {
        Some(CellPtr(store.0))
    } else {
        None
    }
}

/// The tasks that binding a variable whose cell was `prev` to `cell`
/// gives: none if it held no other cell, else the redex of the two cells.
pub open spec fn bind_outcome(prev: Option<CellPtr>, cell: CellPtr) -> Result<Seq<Task>, EvalError> {
    match prev {
        None => Ok(Seq::<Task>::empty()),
        Some(other) => match ordered(cell, other) {
            Some(p) => Ok(seq![Task::Redex(p.0, p.1)]),
            None => Err(EvalError::ShortCircuit),
        },
    }
}

/// The tasks that connecting the variable ends `l` and `r`, holding the
/// cells `lc` and `rc` (if bound), gives: the redex of two cells, the
/// binding of an unbound end to the other's cell, or the same connection
/// again while both are unbound.
pub open spec fn connect_outcome(l: PVarPtr, r: PVarPtr, lc: Option<CellPtr>, rc: Option<CellPtr>) -> Result<Seq<Task>, EvalError> {
    match (lc, rc) {
        (Some(a), Some(b)) => match ordered(a, b) {
            Some(p) => Ok(seq![Task::Redex(p.0, p.1)]),
            None => Err(EvalError::ShortCircuit),
        },
        (None, Some(c)) => Ok(seq![Task::Bind(l, c)]),
        (Some(c), None) => Ok(seq![Task::Bind(r, c)]),
        (None, None) => Ok(seq![Task::Connect(l, r)]),
    }
}

/// The tasks that connecting the instances `l` and `r` of two rule
/// variables gives: the redex of two cells, the binding of a variable end
/// to a cell, or the connection of two variable ends.
pub open spec fn instance_outcome(l: TermPtr, r: TermPtr) -> Result<Seq<Task>, EvalError> {
    match (l.kind_of(), r.kind_of()) {
        (TermKind::Cell, TermKind::Cell) => match ordered(CellPtr(l.term_bits()), CellPtr(r.term_bits())) {
            Some(p) => Ok(seq![Task::Redex(p.0, p.1)]),
            None => Err(EvalError::ShortCircuit),
        },
        (TermKind::Cell, TermKind::Var) => Ok(seq![Task::Bind(PVarPtr(r.term_bits()), CellPtr(l.term_bits()))]),
        (TermKind::Var, TermKind::Cell) => Ok(seq![Task::Bind(PVarPtr(l.term_bits()), CellPtr(r.term_bits()))]),
        (TermKind::Var, TermKind::Var) => Ok(seq![Task::Connect(PVarPtr(l.term_bits()), PVarPtr(r.term_bits()))]),
    }
}

/// Binding the variable end `var_ptr` to the cell at `cell_ptr` took the
/// heap from `h0` to `h1` and the queue from `q0` to `q1`, with result `r`:
/// the variable is rebound to the cell; if it held another cell, a bound
/// variable is freed and the redex of the two cells is added.
pub open spec fn bind_done(
    h0: Heap<NetF>,
    h1: Heap<NetF>,
    q0: Seq<Task>,
    q1: Seq<Task>,
    var_ptr: PVarPtr,
    cell_ptr: CellPtr,
    r: Result<(), EvalError>,
) -> bool {
    &&& h1.cells == h0.cells
    &&& !h0.has_var(var_ptr.index_of()) ==> r == Err::<(), EvalError>(EvalError::Dangling) && h1 == h0 && q1 == q0
    &&& h0.has_var(var_ptr.index_of()) ==> {
        let var = h0.var_at(var_ptr.index_of());
        let prev = previous(store_of(var), cell_ptr);
        let updated = h0.vars_view().update(var_ptr.index_of() as int, Some(rebound(var, cell_ptr.ptr_bits())));
        &&& (prev is Some && var is Bound) ==> h1.vars_view() == updated.update(var_ptr.index_of() as int, None)
        &&& !(prev is Some && var is Bound) ==> h1.vars_view() == updated
        &&& match bind_outcome(prev, cell_ptr) {
            Ok(tasks) => r is Ok && q1 == q0 + tasks,
            Err(e) => r == Err::<(), EvalError>(e) && q1 == q0,
        }
    }
}

/// Connecting the variable ends `left` and `right` in `heap` took the
/// queue from `q0` to `q1`, with result `r`, as `connect_outcome` says of
/// the cells the two variables hold.
pub open spec fn connect_done(
    heap: Heap<NetF>,
    q0: Seq<Task>,
    q1: Seq<Task>,
    left: PVarPtr,
    right: PVarPtr,
    r: Result<(), EvalError>,
) -> bool {
    &&& !heap.has_var(left.index_of()) || !heap.has_var(right.index_of()) ==> r
        == Err::<(), EvalError>(EvalError::Dangling) && q1 == q0
    &&& heap.has_var(left.index_of()) && heap.has_var(right.index_of()) ==> match connect_outcome(
        left,
        right,
        crate::net::stored_cell(store_of(heap.var_at(left.index_of())).0),
        crate::net::stored_cell(store_of(heap.var_at(right.index_of())).0),
    ) {
        Ok(tasks) => r is Ok && q1 == q0 + tasks,
        Err(e) => r == Err::<(), EvalError>(e) && q1 == q0,
    }
}

impl<'a> Runtime<'a> {
    /// Binds the variable of the end `var_ptr` to `cell_ptr` and gives back
    /// `cell_ptr` with the other cell it was bound to, if any.
    pub fn set_or_get_var(&self, heap: &mut Heap<NetF>, var_ptr: PVarPtr, cell_ptr: CellPtr) -> (r: Result<(CellPtr, Option<CellPtr>), EvalError>)
        requires
            old(heap).wf(),
        ensures
            final(heap).wf(),
            final(heap).cells == old(heap).cells,
            !old(heap).has_var(var_ptr.index_of()) ==> r == Err::<(CellPtr, Option<CellPtr>), EvalError>(EvalError::Dangling)
                && *final(heap) == *old(heap),
            old(heap).has_var(var_ptr.index_of()) ==> {
                let var = old(heap).var_at(var_ptr.index_of());
                &&& r == Ok::<(CellPtr, Option<CellPtr>), EvalError>((cell_ptr, previous(store_of(var), cell_ptr)))
                &&& final(heap).vars_view() == old(heap).vars_view().update(
                    var_ptr.index_of() as int,
                    Some(rebound(var, cell_ptr.ptr_bits())),
                )
            },
    {
        let index = var_ptr.get_fvar_ptr();
        let var = match heap.vars.get(index) {
            Some(v) => v,
            None => {
                return Err(EvalError::Dangling);
            },
        };
        let mut store = *var.get_store();
        let bound = var.is_bound();
        let (c, prev) = store.set_or_get(cell_ptr);
        let new_var = if bound {
            Var::Bound(store)
        } else {
            Var::Free(store)
        };
        heap.set_var(&var_ptr, new_var);
        Ok((c, prev))
    }

    /// Binds the variable end `var_ptr` to `cell_ptr`; if it was bound to
    /// another cell, frees a bound variable and adds the redex of the two
    /// cells.
    pub fn eval_bind(&self, queue: &mut VecDeque<Task>, heap: &mut Heap<NetF>, var_ptr: PVarPtr, cell_ptr: CellPtr) -> (r: Result<(), EvalError>)
        requires
            old(heap).wf(),
        ensures
            final(heap).wf(),
            bind_done(*old(heap), *final(heap), old(queue)@, final(queue)@, var_ptr, cell_ptr, r),
    {
        let bound = match heap.vars.get(var_ptr.get_fvar_ptr()) {
            Some(v) => v.is_bound(),
            None => {
                return Err(EvalError::Dangling);
            },
        };
        let (cell_ptr, prev) = match self.set_or_get_var(heap, var_ptr, cell_ptr) {
            Ok(p) => p,
            Err(e) => {
                return Err(e);
            },
        };
        match prev {
            Some(other_cell_ptr) => {
                if bound {
                    heap.free_var(var_ptr);
                }
                if cell_ptr.get_polarity() == other_cell_ptr.get_polarity() {
                    return Err(EvalError::ShortCircuit);
                }
                let (ctr_ptr, fun_ptr) = self.order_ctr_fun(cell_ptr, other_cell_ptr);
                queue.push_back(Task::Redex(ctr_ptr, fun_ptr));
                assert(queue@ =~= old(queue)@ + seq![Task::Redex(ctr_ptr, fun_ptr)]);
                Ok(())
            },
            None => {
                assert(queue@ =~= old(queue)@ + Seq::<Task>::empty());
                Ok(())
            },
        }
    }

    /// Connects the variable ends `left_var_ptr` and `right_var_ptr`
    /// according to the cells they are bound to.
    pub fn eval_connect(&self, queue: &mut VecDeque<Task>, heap: &Heap<NetF>, left_var_ptr: PVarPtr, right_var_ptr: PVarPtr) -> (r: Result<(), EvalError>)
        requires
            heap.wf(),
        ensures
            connect_done(*heap, old(queue)@, final(queue)@, left_var_ptr, right_var_ptr, r),
    {
        let left_var = match heap.vars.get(left_var_ptr.get_fvar_ptr()) {
            Some(v) => v,
            None => {
                return Err(EvalError::Dangling);
            },
        };
        let right_var = match heap.vars.get(right_var_ptr.get_fvar_ptr()) {
            Some(v) => v,
            None => {
                return Err(EvalError::Dangling);
            },
        };
        let task = match (left_var.get_store().get_cell_ptr(), right_var.get_store().get_cell_ptr()) {
            (Some(left_cell_ptr), Some(right_cell_ptr)) => {
                if left_cell_ptr.get_polarity() == right_cell_ptr.get_polarity() {
                    return Err(EvalError::ShortCircuit);
                }
                let (c, f) = self.order_ctr_fun(left_cell_ptr, right_cell_ptr);
                Task::Redex(c, f)
            },
            (None, Some(cell_ptr)) => Task::Bind(left_var_ptr, cell_ptr),
            (Some(cell_ptr), None) => Task::Bind(right_var_ptr, cell_ptr),
            (None, None) => Task::Connect(left_var_ptr, right_var_ptr),
        };
        queue.push_back(task);
        assert(queue@ =~= old(queue)@ + seq![task]);
        Ok(())
    }
}


/// The count after one more rewrite, wrapping at the size of a `usize`.
pub open spec fn next_count(n: usize) -> usize {
    if n == usize::MAX {
        0
    } else {
        (n + 1) as usize
    }
}

/// `new` holds every cell of `old` but those at `a` and `b`, in the same
/// slots.
pub open spec fn cells_kept_but(old: Heap<NetF>, new: Heap<NetF>, a: CellPtr, b: CellPtr) -> bool {
    &&& new.cells_view().len() >= old.cells_view().len()
    &&& forall|i: int|
        0 <= i < old.cells_view().len() && old.cells_view()[i] is Some && i != a.index_of() && i
            != b.index_of() ==> #[trigger] new.cells_view()[i] == old.cells_view()[i]
}

/// How deep instantiation may go: as deep as the rule set's heap has cell
/// slots.
pub open spec fn instance_depth<'a>(rules: &RuleSet<'a>) -> nat {
    rules.heap.cells_view().len()
}

/// The rule equation `rule_ctr ~ rule_fun` was instantiated: one redex was
/// added to the queue, of an instance of each rule cell in `heap`.
pub open spec fn redex_instantiated<'a>(
    rules: &RuleSet<'a>,
    bvars: &PVarPtrBuffer,
    ctr: Cell<NetF>,
    fun: Cell<NetF>,
    heap: Heap<NetF>,
    old_queue: Seq<Task>,
    new_queue: Seq<Task>,
    rule_ctr: CellPtr,
    rule_fun: CellPtr,
) -> bool {
    &&& new_queue.len() == old_queue.len() + 1
    &&& new_queue.drop_last() == old_queue
    &&& new_queue.last() matches Task::Redex(c, f) && {
        &&& cell_instance(rules, bvars, ctr, fun, heap, rule_ctr, c, instance_depth(rules))
        &&& cell_instance(rules, bvars, ctr, fun, heap, rule_fun, f, instance_depth(rules))
    }
}

/// The rule equation `rule_var ~ rule_cell` was instantiated: `c` is an
/// instance of the rule cell in `new_heap`, `t` the instance of the rule
/// variable end. A cell `t` makes a redex with `c`; a variable end `t` is
/// bound to `c`, which adds the redex of `c` with the cell it held before,
/// if any.
pub open spec fn bind_instantiated<'a>(
    rules: &RuleSet<'a>,
    bvars: &PVarPtrBuffer,
    ctr: Cell<NetF>,
    fun: Cell<NetF>,
    old_heap: Heap<NetF>,
    new_heap: Heap<NetF>,
    old_queue: Seq<Task>,
    new_queue: Seq<Task>,
    rule_var: PVarPtr,
    rule_cell: CellPtr,
    c: CellPtr,
    t: TermPtr,
) -> bool {
    &&& cell_instance(rules, bvars, ctr, fun, new_heap, rule_cell, c, instance_depth(rules))
    &&& var_instance(rules, bvars, ctr, fun, rule_var, Ok(t))
    &&& queue_grew(old_queue, new_queue)
    &&& t.kind_of() == TermKind::Cell ==> {
        &&& new_heap.vars == old_heap.vars
        &&& ordered(c, CellPtr(t.term_bits())) matches Some(p) && new_queue == old_queue.push(Task::Redex(p.0, p.1))
    }
    &&& t.kind_of() == TermKind::Var ==> {
        let v = PVarPtr(t.term_bits());
        let var = old_heap.var_at(v.index_of());
        &&& old_heap.has_var(v.index_of())
        &&& new_heap.vars_view() == old_heap.vars_view().update(v.index_of() as int, Some(rebound(var, c.ptr_bits())))
        &&& bind_outcome(previous(store_of(var), c), c) == Ok::<Seq<Task>, EvalError>(new_queue.skip(old_queue.len() as int))
    }
}

/// The rule equation `rule_left ~ rule_right` was instantiated: the tasks
/// that the instances of the two rule variable ends give were added.
pub open spec fn connect_instantiated<'a>(
    rules: &RuleSet<'a>,
    bvars: &PVarPtrBuffer,
    ctr: Cell<NetF>,
    fun: Cell<NetF>,
    old_queue: Seq<Task>,
    new_queue: Seq<Task>,
    rule_left: PVarPtr,
    rule_right: PVarPtr,
    lt: TermPtr,
    rt: TermPtr,
) -> bool {
    &&& var_instance(rules, bvars, ctr, fun, rule_left, Ok(lt))
    &&& var_instance(rules, bvars, ctr, fun, rule_right, Ok(rt))
    &&& instance_outcome(lt, rt) == Ok::<Seq<Task>, EvalError>(new_queue.skip(old_queue.len() as int))
    &&& queue_grew(old_queue, new_queue)
}

/// The rule equation `e` was instantiated for the redex of `ctr` and
/// `fun`, taking the heap from `h0` to `h1` and the queue from `q0` to `q1`.
pub open spec fn equation_instantiated<'a>(
    rules: &RuleSet<'a>,
    bvars: &PVarPtrBuffer,
    ctr: Cell<NetF>,
    fun: Cell<NetF>,
    e: Equation<RuleF>,
    h0: Heap<NetF>,
    h1: Heap<NetF>,
    q0: Seq<Task>,
    q1: Seq<Task>,
) -> bool {
    &&& e.wf()
    &&& h1.wf()
    &&& cells_kept(h0, h1)
    &&& match e.kind_of() {
        EquationKind::Redex => redex_instantiated(
            rules,
            bvars,
            ctr,
            fun,
            h1,
            q0,
            q1,
            CellPtr(e.left_bits() as u32),
            CellPtr(e.right_bits() as u32),
        ),
        EquationKind::Bind => exists|c: CellPtr, t: TermPtr|
            #[trigger] bind_instantiated(
                rules,
                bvars,
                ctr,
                fun,
                h0,
                h1,
                q0,
                q1,
                PVarPtr(e.left_bits() as u32),
                CellPtr(e.right_bits() as u32),
                c,
                t,
            ),
        EquationKind::Connect => {
            &&& h1 == h0
            &&& exists|lt: TermPtr, rt: TermPtr|
                #[trigger] connect_instantiated(
                    rules,
                    bvars,
                    ctr,
                    fun,
                    q0,
                    q1,
                    PVarPtr(e.left_bits() as u32),
                    PVarPtr(e.right_bits() as u32),
                    lt,
                    rt,
                )
        },
    }
}

/// `bvars` are `n` new bound variables, unbound, that `heap` holds after
/// the variables `vars` it had before.
pub open spec fn fresh_bvars(vars: Seq<Option<Var<NetF>>>, heap: Heap<NetF>, bvars: &PVarPtrBuffer, n: nat) -> bool {
    &&& buffer_ready(bvars)
    &&& bvars.len_spec() == n
    &&& heap.vars_view().len() == vars.len() + n
    &&& heap.vars_view().take(vars.len() as int) == vars
    &&& forall|i: int| 0 <= i < n ==> #[trigger] bvars.view()[i].index_of() == vars.len() + i
    &&& forall|i: int| 0 <= i < n ==> #[trigger] heap.vars_view()[vars.len() + i] == Some(Var::<NetF>::Bound(NetVar(NetVar::NULL)))
}

/// The redex of the cells `ctr` and `fun` was rewritten by `rule`: in the
/// heap left by freeing the two cells, whose cell slots are `freed` and
/// whose variables are `vars`, fresh bound variables `bvars` were made,
/// giving `heaps[0]`; then the equations of the rule's body were
/// instantiated in turn, the `k`-th taking the heap from `heaps[k]` to
/// `heaps[k + 1]` and the queue from `queues[k]` to `queues[k + 1]`.
pub open spec fn redex_rewritten<'a>(
    rules: &RuleSet<'a>,
    rule: Rule,
    ctr: Cell<NetF>,
    fun: Cell<NetF>,
    freed: Seq<Option<Cell<NetF>>>,
    vars: Seq<Option<Var<NetF>>>,
    bvars: &PVarPtrBuffer,
    heaps: Seq<Heap<NetF>>,
    queues: Seq<Seq<Task>>,
) -> bool {
    let n = rule.body@.len();
    &&& heaps.len() == n + 1
    &&& queues.len() == n + 1
    &&& heaps[0].cells_view() == freed
    &&& fresh_bvars(vars, heaps[0], bvars, rule.bvar_count as nat)
    &&& body_steps(rules, rule, bvars, ctr, fun, heaps, queues, n as int)
}

/// The first `n` equations of the body of `rule` were instantiated in
/// turn, as `body_step` says.
pub open spec fn body_steps<'a>(
    rules: &RuleSet<'a>,
    rule: Rule,
    bvars: &PVarPtrBuffer,
    ctr: Cell<NetF>,
    fun: Cell<NetF>,
    heaps: Seq<Heap<NetF>>,
    queues: Seq<Seq<Task>>,
    n: int,
) -> bool {
    forall|k: int| 0 <= k < n ==> #[trigger] body_step(rules, rule, bvars, ctr, fun, heaps, queues, k)
}

/// The `k`-th equation of the body of `rule` is in the rule set and was
/// instantiated, taking the heap from `heaps[k]` to `heaps[k + 1]` and the
/// queue from `queues[k]` to `queues[k + 1]`.
pub open spec fn body_step<'a>(
    rules: &RuleSet<'a>,
    rule: Rule,
    bvars: &PVarPtrBuffer,
    ctr: Cell<NetF>,
    fun: Cell<NetF>,
    heaps: Seq<Heap<NetF>>,
    queues: Seq<Seq<Task>>,
    k: int,
) -> bool {
    &&& rules.body.view()[rule.body@[k].index_spec() as int] is Some
    &&& equation_instantiated(
        rules,
        bvars,
        ctr,
        fun,
        rules.body.view()[rule.body@[k].index_spec() as int]->0,
        heaps[k],
        heaps[k + 1],
        queues[k],
        queues[k + 1],
    )
}

/// One more instantiated equation extends the steps.
pub proof fn lemma_body_steps_push<'a>(
    rules: &RuleSet<'a>,
    rule: Rule,
    bvars: &PVarPtrBuffer,
    ctr: Cell<NetF>,
    fun: Cell<NetF>,
    heaps: Seq<Heap<NetF>>,
    queues: Seq<Seq<Task>>,
    n: int,
    h: Heap<NetF>,
    q: Seq<Task>,
)
    requires
        0 <= n,
        heaps.len() == n + 1,
        queues.len() == n + 1,
        body_steps(rules, rule, bvars, ctr, fun, heaps, queues, n),
        rules.body.view()[rule.body@[n].index_spec() as int] is Some,
        equation_instantiated(
            rules,
            bvars,
            ctr,
            fun,
            rules.body.view()[rule.body@[n].index_spec() as int]->0,
            heaps[n],
            h,
            queues[n],
            q,
        ),
    ensures
        body_steps(rules, rule, bvars, ctr, fun, heaps.push(h), queues.push(q), n + 1),
{
    assert forall|k: int| 0 <= k < n + 1 implies #[trigger] body_step(rules, rule, bvars, ctr, fun, heaps.push(h), queues.push(q), k) by {
        assert(heaps.push(h)[k] == heaps[k]);
        assert(queues.push(q)[k] == queues[k]);
        if k < n {
            assert(body_step(rules, rule, bvars, ctr, fun, heaps, queues, k));
            assert(heaps.push(h)[k + 1] == heaps[k + 1]);
            assert(queues.push(q)[k + 1] == queues[k + 1]);
        }
    }
}

/// When the cells at `ctr_ptr` and `fun_ptr` are two distinct live cells of
/// `heap`, the rule set has a rule for their symbols.
pub open spec fn redex_has_rule<'a>(rules: &RuleSet<'a>, heap: Heap<NetF>, ctr_ptr: CellPtr, fun_ptr: CellPtr) -> bool {
    heap.has_cell(ctr_ptr) && heap.has_cell(fun_ptr) && fun_ptr.index_of() != ctr_ptr.index_of()
        ==> rules.index_view().contains_key(
        crate::rule::rule_key(
            crate::rule::low_index(heap.cell_at(ctr_ptr).symbol_of().index_of(), heap.cell_at(fun_ptr).symbol_of().index_of()),
            crate::rule::high_index(heap.cell_at(ctr_ptr).symbol_of().index_of(), heap.cell_at(fun_ptr).symbol_of().index_of()),
        ) as u64,
    )
}

/// Rewriting the redex of the cells at `ctr_ptr` and `fun_ptr` took the
/// heap from `h0` to `h1`, the queue from `q0` to `q1` and the count of
/// rewrites from `n0` to `n1`, with result `r`. A missing cell gives
/// `Dangling`; a missing rule for the symbols of two live cells gives
/// `MissingRule` and changes nothing; otherwise both cells are freed, one
/// more rewrite is counted and, on success, the rule's body was
/// instantiated as `redex_rewritten` says.
#[verifier::opaque]
pub open spec fn redex_done<'a>(
    rules: &RuleSet<'a>,
    h0: Heap<NetF>,
    h1: Heap<NetF>,
    q0: Seq<Task>,
    q1: Seq<Task>,
    n0: usize,
    n1: usize,
    ctr_ptr: CellPtr,
    fun_ptr: CellPtr,
    r: Result<(), EvalError>,
) -> bool {
    &&& queue_grew(q0, q1)
    &&& cells_kept_but(h0, h1, ctr_ptr, fun_ptr)
    &&& !h0.has_cell(ctr_ptr) ==> r == Err::<(), EvalError>(EvalError::Dangling) && h1 == h0 && n1 == n0 && q1 == q0
    &&& h0.has_cell(ctr_ptr) && (fun_ptr.index_of() == ctr_ptr.index_of() || !h0.has_cell(fun_ptr)) ==> {
        &&& r == Err::<(), EvalError>(EvalError::Dangling)
        &&& n1 == n0
        &&& q1 == q0
        &&& h1.cells_view() == h0.cells_view().update(ctr_ptr.index_of() as int, None)
        &&& h1.vars == h0.vars
    }
    &&& h0.has_cell(ctr_ptr) && h0.has_cell(fun_ptr) && fun_ptr.index_of() != ctr_ptr.index_of() ==> {
        let key = crate::rule::rule_key(
            crate::rule::low_index(h0.cell_at(ctr_ptr).symbol_of().index_of(), h0.cell_at(fun_ptr).symbol_of().index_of()),
            crate::rule::high_index(h0.cell_at(ctr_ptr).symbol_of().index_of(), h0.cell_at(fun_ptr).symbol_of().index_of()),
        ) as u64;
        let freed = h0.cells_view().update(ctr_ptr.index_of() as int, None).update(fun_ptr.index_of() as int, None);
        &&& !rules.index_view().contains_key(key) ==> {
            &&& r == Err::<(), EvalError>(EvalError::MissingRule)
            &&& n1 == n0
            &&& q1 == q0
            &&& h1 == h0
        }
        &&& rules.index_view().contains_key(key) ==> {
            &&& n1 == next_count(n0)
            &&& r is Ok ==> exists|bvars: PVarPtrBuffer, heaps: Seq<Heap<NetF>>, queues: Seq<Seq<Task>>|
                {
                    &&& #[trigger] redex_rewritten(
                        rules,
                        rules.rules_view()[rules.index_view()[key] as int]->0,
                        h0.cell_at(ctr_ptr),
                        h0.cell_at(fun_ptr),
                        freed,
                        h0.vars_view(),
                        &bvars,
                        heaps,
                        queues,
                    )
                    &&& heaps.last() == h1
                    &&& queues[0] == q0
                    &&& queues.last() == q1
                }
            &&& rules.rules_view()[rules.index_view()[key] as int]->0.bvar_count as usize >= PVarPtrBuffer::MAX_BUFFER_LEN
                ==> r == Err::<(), EvalError>(EvalError::TooManyVars)
            &&& fresh_vars_fail(rules.rules_view()[rules.index_view()[key] as int]->0, h0.vars_view()) ==> r == Err::<
                (),
                EvalError,
            >(EvalError::OutOfRoom)
            &&& fresh_vars_fit(rules.rules_view()[rules.index_view()[key] as int]->0, h0.vars_view()) ==> exists|
                bvars: PVarPtrBuffer,
                heaps: Seq<Heap<NetF>>,
                queues: Seq<Seq<Task>>,
                n: int,
            |
                #[trigger] redex_run(
                    rules,
                    rules.rules_view()[rules.index_view()[key] as int]->0,
                    h0.cell_at(ctr_ptr),
                    h0.cell_at(fun_ptr),
                    freed,
                    h0.vars_view(),
                    &bvars,
                    heaps,
                    queues,
                    n,
                    h1,
                    q0,
                    q1,
                    r,
                )
        }
    }
}

/// The fresh bound variables of `rule` do not fit after the variables
/// `vars`.
pub open spec fn fresh_vars_fail(rule: Rule, vars: Seq<Option<Var<NetF>>>) -> bool {
    &&& (rule.bvar_count as usize) < PVarPtrBuffer::MAX_BUFFER_LEN
    &&& rule.bvar_count > 0
    &&& vars.len() + rule.bvar_count > VAR_INDEX_LIMIT
}

/// The fresh bound variables of `rule` can be made after the variables
/// `vars`.
pub open spec fn fresh_vars_fit(rule: Rule, vars: Seq<Option<Var<NetF>>>) -> bool {
    &&& (rule.bvar_count as usize) < PVarPtrBuffer::MAX_BUFFER_LEN
    &&& (rule.bvar_count == 0 || vars.len() + rule.bvar_count <= VAR_INDEX_LIMIT)
}

/// How rewriting by `rule` went once its fresh variables `bvars` were
/// made in the heap left by freeing the redex (cell slots `freed`,
/// variables `vars`), giving `heaps[0]`: the first `n` equations of the
/// body were instantiated in turn, as `body_steps` says. If that is all of
/// them, the result is `Ok` with the heap `end_heap` and the queue
/// `end_queue` that the last step left. Otherwise the next one failed: the
/// result is `Dangling` if the equation is missing from the set or has no
/// kind, else the error its outcome gives, the queue as the steps before
/// left it.
pub open spec fn redex_run<'a>(
    rules: &RuleSet<'a>,
    rule: Rule,
    ctr: Cell<NetF>,
    fun: Cell<NetF>,
    freed: Seq<Option<Cell<NetF>>>,
    vars: Seq<Option<Var<NetF>>>,
    bvars: &PVarPtrBuffer,
    heaps: Seq<Heap<NetF>>,
    queues: Seq<Seq<Task>>,
    n: int,
    end_heap: Heap<NetF>,
    start_queue: Seq<Task>,
    end_queue: Seq<Task>,
    r: Result<(), EvalError>,
) -> bool {
    &&& 0 <= n <= rule.body@.len()
    &&& heaps.len() == n + 1
    &&& queues.len() == n + 1
    &&& heaps[0].cells_view() == freed
    &&& fresh_bvars(vars, heaps[0], bvars, rule.bvar_count as nat)
    &&& queues[0] == start_queue
    &&& body_steps(rules, rule, bvars, ctr, fun, heaps, queues, n)
    &&& n == rule.body@.len() ==> r is Ok && end_heap == heaps[n] && end_queue == queues[n]
    &&& n < rule.body@.len() ==> {
        let index = rule.body@[n].index_spec();
        let slot = rules.body.view()[index as int];
        let missing = index >= rules.body.view().len() || slot is None;
        &&& r is Err
        &&& end_queue == queues[n]
        &&& (missing || !slot->0.wf()) ==> r == Err::<(), EvalError>(EvalError::Dangling) && end_heap == heaps[n]
        &&& !missing && slot->0.wf() ==> equation_outcome(rules, bvars, ctr, fun, slot->0, heaps[n], end_heap, r)
    }
}

impl<'a> Runtime<'a> {
    /// Adds the redex of new cells for the rule cells `rule_ctr_ptr` and
    /// `rule_fun_ptr`.
    pub fn instantiate_redex(
        &self,
        queue: &mut VecDeque<Task>,
        heap: &mut Heap<NetF>,
        bvars: &PVarPtrBuffer,
        ctr: Cell<NetF>,
        fun: Cell<NetF>,
        rule_ctr_ptr: &CellPtr,
        rule_fun_ptr: &CellPtr,
    ) -> (r: Result<(), EvalError>)
        requires
            old(heap).wf(),
            self.rules.wf(),
            buffer_ready(bvars),
        ensures
            final(heap).wf(),
            final(heap).vars == old(heap).vars,
            final(heap).cells.capacity_spec() == old(heap).cells.capacity_spec(),
            cells_kept(*old(heap), *final(heap)),
            r is Err ==> final(queue)@ == old(queue)@,
            r is Ok ==> redex_instantiated(
                self.rules,
                bvars,
                ctr,
                fun,
                *final(heap),
                old(queue)@,
                final(queue)@,
                *rule_ctr_ptr,
                *rule_fun_ptr,
            ),
            redex_outcome(self.rules, bvars, ctr, fun, *old(heap), *final(heap), *rule_ctr_ptr, *rule_fun_ptr, r),
    {
        let depth = self.rules.heap.cells.slots();
        let ctr_ptr = match self.instantiate_cell(heap, bvars, ctr, fun, *rule_ctr_ptr, depth) {
            Ok(c) => c,
            Err(e) => {
                return Err(e);
            },
        };
        let ghost mid = *heap;
        let fun_ptr = match self.instantiate_cell(heap, bvars, ctr, fun, *rule_fun_ptr, depth) {
            Ok(c) => c,
            Err(e) => {
                return Err(e);
            },
        };
        proof {
            lemma_cell_instance_kept(self.rules, bvars, ctr, fun, mid, *heap, *rule_ctr_ptr, ctr_ptr, depth as nat);
        }
        queue.push_back(Task::Redex(ctr_ptr, fun_ptr));
        assert(queue@.drop_last() =~= old(queue)@);
        Ok(())
    }

    /// Binds the instance of the rule variable end `rule_var_ptr` to a new
    /// cell for the rule cell `rule_cell_ptr`.
    pub fn instantiate_bind(
        &self,
        queue: &mut VecDeque<Task>,
        heap: &mut Heap<NetF>,
        bvars: &PVarPtrBuffer,
        ctr: Cell<NetF>,
        fun: Cell<NetF>,
        rule_var_ptr: &PVarPtr,
        rule_cell_ptr: &CellPtr,
    ) -> (r: Result<(), EvalError>)
        requires
            old(heap).wf(),
            self.rules.wf(),
            buffer_ready(bvars),
        ensures
            final(heap).wf(),
            final(heap).cells.capacity_spec() == old(heap).cells.capacity_spec(),
            cells_kept(*old(heap), *final(heap)),
            queue_grew(old(queue)@, final(queue)@),
            final(queue)@.len() <= old(queue)@.len() + 1,
            r is Err ==> final(queue)@ == old(queue)@,
            r is Ok ==> exists|c: CellPtr, t: TermPtr|
                #[trigger] bind_instantiated(
                    self.rules,
                    bvars,
                    ctr,
                    fun,
                    *old(heap),
                    *final(heap),
                    old(queue)@,
                    final(queue)@,
                    *rule_var_ptr,
                    *rule_cell_ptr,
                    c,
                    t,
                ),
            bind_outcome_of(self.rules, bvars, ctr, fun, *old(heap), *final(heap), *rule_var_ptr, *rule_cell_ptr, r),
    {
        let depth = self.rules.heap.cells.slots();
        let cell_ptr = match self.instantiate_cell(heap, bvars, ctr, fun, *rule_cell_ptr, depth) {
            Ok(c) => c,
            Err(e) => {
                return Err(e);
            },
        };
        let ghost h1 = *heap;
        let term_ptr = match self.instantiate_var(bvars, ctr, fun, rule_var_ptr) {
            Ok(t) => t,
            Err(e) => {
                return Err(e);
            },
        };
        match term_ptr.get_kind() {
            TermKind::Cell => {
                let other_cell_ptr = term_ptr.get_cell_ptr();
                if cell_ptr.get_polarity() == other_cell_ptr.get_polarity() {
                    assert(bind_result(*old(heap), cell_ptr, term_ptr, Err(EvalError::ShortCircuit)));
                    return Err(EvalError::ShortCircuit);
                }
                let (ctr_ptr, fun_ptr) = self.order_ctr_fun(cell_ptr, other_cell_ptr);
                assert(bind_result(*old(heap), cell_ptr, term_ptr, Ok(())));
                queue.push_back(Task::Redex(ctr_ptr, fun_ptr));
                assert(queue@.take(old(queue)@.len() as int) =~= old(queue)@);
                assert(bind_instantiated(self.rules, bvars, ctr, fun, *old(heap), *heap, old(queue)@, queue@,
                    *rule_var_ptr, *rule_cell_ptr, cell_ptr, term_ptr));
                Ok(())
            },
            TermKind::Var => {
                let new_cell = cell_ptr;
                let (cell_ptr, prev) = match self.set_or_get_var(heap, term_ptr.get_pvar_ptr(), cell_ptr) {
                    Ok(p) => p,
                    Err(e) => {
                        assert(bind_result(*old(heap), new_cell, term_ptr, Err(e)));
                        return Err(e);
                    },
                };
                match prev {
                    Some(other_cell_ptr) => {
                        if cell_ptr.get_polarity() == other_cell_ptr.get_polarity() {
                            assert(bind_result(*old(heap), new_cell, term_ptr, Err(EvalError::ShortCircuit)));
                            return Err(EvalError::ShortCircuit);
                        }
                        let (ctr_ptr, fun_ptr) = self.order_ctr_fun(cell_ptr, other_cell_ptr);
                        assert(bind_result(*old(heap), new_cell, term_ptr, Ok(())));
                        queue.push_back(Task::Redex(ctr_ptr, fun_ptr));
                        proof {
                            assert(queue@.take(old(queue)@.len() as int) =~= old(queue)@);
                            assert(queue@.skip(old(queue)@.len() as int) =~= seq![Task::Redex(ctr_ptr, fun_ptr)]);
                            lemma_cell_instance_kept(self.rules, bvars, ctr, fun, h1, *heap, *rule_cell_ptr, cell_ptr, depth as nat);
                        }
                        assert(bind_instantiated(self.rules, bvars, ctr, fun, *old(heap), *heap, old(queue)@, queue@,
                            *rule_var_ptr, *rule_cell_ptr, cell_ptr, term_ptr));
                        Ok(())
                    },
                    None => {
                        assert(bind_result(*old(heap), new_cell, term_ptr, Ok(())));
                        proof {
                            assert(queue@.take(old(queue)@.len() as int) =~= old(queue)@);
                            assert(queue@.skip(old(queue)@.len() as int) =~= Seq::<Task>::empty());
                            lemma_cell_instance_kept(self.rules, bvars, ctr, fun, h1, *heap, *rule_cell_ptr, cell_ptr, depth as nat);
                        }
                        assert(bind_instantiated(self.rules, bvars, ctr, fun, *old(heap), *heap, old(queue)@, queue@,
                            *rule_var_ptr, *rule_cell_ptr, cell_ptr, term_ptr));
                        Ok(())
                    },
                }
            },
        }
    }

    /// Connects the instances of the rule variable ends `rule_left_var` and
    /// `rule_right_var`.
    pub fn instantiate_connect(
        &self,
        queue: &mut VecDeque<Task>,
        bvars: &PVarPtrBuffer,
        ctr: Cell<NetF>,
        fun: Cell<NetF>,
        rule_left_var: &PVarPtr,
        rule_right_var: &PVarPtr,
    ) -> (r: Result<(), EvalError>)
        requires
            self.rules.wf(),
            buffer_ready(bvars),
        ensures
            r is Err ==> final(queue)@ == old(queue)@,
            r is Ok ==> exists|lt: TermPtr, rt: TermPtr|
                #[trigger] connect_instantiated(
                    self.rules,
                    bvars,
                    ctr,
                    fun,
                    old(queue)@,
                    final(queue)@,
                    *rule_left_var,
                    *rule_right_var,
                    lt,
                    rt,
                ),
            connect_outcome_of(self.rules, bvars, ctr, fun, *rule_left_var, *rule_right_var, r),
    {
        let left_port_ptr = match self.instantiate_var(bvars, ctr, fun, rule_left_var) {
            Ok(t) => t,
            Err(e) => {
                return Err(e);
            },
        };
        let right_port_ptr = match self.instantiate_var(bvars, ctr, fun, rule_right_var) {
            Ok(t) => t,
            Err(e) => {
                return Err(e);
            },
        };
        let task = match (left_port_ptr.get_kind(), right_port_ptr.get_kind()) {
            (TermKind::Cell, TermKind::Cell) => {
                let left_cell_ptr = left_port_ptr.get_cell_ptr();
                let right_cell_ptr = right_port_ptr.get_cell_ptr();
                if left_cell_ptr.get_polarity() == right_cell_ptr.get_polarity() {
                    assert(connect_result(left_port_ptr, right_port_ptr, Err(EvalError::ShortCircuit)));
                    return Err(EvalError::ShortCircuit);
                }
                let (c, f) = self.order_ctr_fun(left_cell_ptr, right_cell_ptr);
                Task::Redex(c, f)
            },
            (TermKind::Cell, TermKind::Var) => Task::Bind(right_port_ptr.get_pvar_ptr(), left_port_ptr.get_cell_ptr()),
            (TermKind::Var, TermKind::Cell) => Task::Bind(left_port_ptr.get_pvar_ptr(), right_port_ptr.get_cell_ptr()),
            (TermKind::Var, TermKind::Var) => Task::Connect(left_port_ptr.get_pvar_ptr(), right_port_ptr.get_pvar_ptr()),
        };
        queue.push_back(task);
        proof {
            assert(queue@.skip(old(queue)@.len() as int) =~= seq![task]);
            assert(queue@.take(old(queue)@.len() as int) =~= old(queue)@);
            assert(instance_outcome(left_port_ptr, right_port_ptr) == Ok::<Seq<Task>, EvalError>(queue@.skip(old(queue)@.len() as int)));
            assert(connect_result(left_port_ptr, right_port_ptr, Ok(())));
            assert(connect_instantiated(self.rules, bvars, ctr, fun, old(queue)@, queue@, *rule_left_var, *rule_right_var,
                left_port_ptr, right_port_ptr));
        }
        Ok(())
    }

    /// Instantiates the rule equation `rule_eqn` for the redex of `ctr` and
    /// `fun`.
    pub fn rewrite_equation(
        &self,
        queue: &mut VecDeque<Task>,
        heap: &mut Heap<NetF>,
        bvars: &PVarPtrBuffer,
        ctr: Cell<NetF>,
        fun: Cell<NetF>,
        rule_eqn: Equation<RuleF>,
    ) -> (r: Result<(), EvalError>)
        requires
            old(heap).wf(),
            self.rules.wf(),
            buffer_ready(bvars),
        ensures
            final(heap).wf(),
            final(heap).cells.capacity_spec() == old(heap).cells.capacity_spec(),
            cells_kept(*old(heap), *final(heap)),
            queue_grew(old(queue)@, final(queue)@),
            !rule_eqn.wf() ==> r == Err::<(), EvalError>(EvalError::Dangling) && *final(heap) == *old(heap),
            r is Err ==> final(queue)@ == old(queue)@,
            r is Ok ==> equation_instantiated(
                self.rules,
                bvars,
                ctr,
                fun,
                rule_eqn,
                *old(heap),
                *final(heap),
                old(queue)@,
                final(queue)@,
            ),
            rule_eqn.wf() ==> equation_outcome(self.rules, bvars, ctr, fun, rule_eqn, *old(heap), *final(heap), r),
    {
        if !((rule_eqn.0 >> 62u8) & 3 <= 2) {
            return Err(EvalError::Dangling);
        }
        match rule_eqn.get_kind() {
            EquationKind::Redex => {
                let rule_ctr = rule_eqn.get_redex_ctr();
                let rule_fun = rule_eqn.get_redex_fun();
                assert(rule_ctr == CellPtr(rule_eqn.left_bits() as u32));
                assert(rule_fun == CellPtr(rule_eqn.right_bits() as u32));
                let r = self.instantiate_redex(queue, heap, bvars, ctr, fun, &rule_ctr, &rule_fun);
                assert(queue@.take(old(queue)@.len() as int) =~= old(queue)@);
                r
            },
            EquationKind::Bind => {
                let rule_var = rule_eqn.get_bind_var();
                let rule_cell = rule_eqn.get_bind_cell();
                assert(rule_var == PVarPtr(rule_eqn.left_bits() as u32));
                assert(rule_cell == CellPtr(rule_eqn.right_bits() as u32));
                self.instantiate_bind(queue, heap, bvars, ctr, fun, &rule_var, &rule_cell)
            },
            EquationKind::Connect => {
                let rule_left = rule_eqn.get_connect_left();
                let rule_right = rule_eqn.get_connect_right();
                assert(rule_left == PVarPtr(rule_eqn.left_bits() as u32));
                assert(rule_right == PVarPtr(rule_eqn.right_bits() as u32));
                let r = self.instantiate_connect(queue, bvars, ctr, fun, &rule_left, &rule_right);
                assert(queue@.take(old(queue)@.len() as int) =~= old(queue)@);
                r
            },
        }
    }

    /// Rewrites the redex of the cells `ctr_ptr` and `fun_ptr`: both cells
    /// are freed, the rule for their symbols is looked up, one more rewrite
    /// is counted, fresh variables are made for the rule's bound variables
    /// and each equation of the rule's body is instantiated in turn.
    pub fn eval_redex(&mut self, queue: &mut VecDeque<Task>, heap: &mut Heap<NetF>, ctr_ptr: CellPtr, fun_ptr: CellPtr) -> (r: Result<(), EvalError>)
        requires
            old(heap).wf(),
            old(self).rules.wf(),
            redex_has_rule(old(self).rules, *old(heap), ctr_ptr, fun_ptr),
        ensures
            final(heap).wf(),
            final(self).rules == old(self).rules,
            final(self).debug == old(self).debug,
            redex_done(
                old(self).rules,
                *old(heap),
                *final(heap),
                old(queue)@,
                final(queue)@,
                old(self).rewrites,
                final(self).rewrites,
                ctr_ptr,
                fun_ptr,
                r,
            ),
    {
        proof {
            reveal(redex_done);
        }
        if !heap.cells.get_checked(&ctr_ptr).is_some() {
            return Err(EvalError::Dangling);
        }
        let ghost h0 = *heap;
        let ctr = heap.free_cell(ctr_ptr);
        if !heap.cells.get_checked(&fun_ptr).is_some() {
            return Err(EvalError::Dangling);
        }
        let fun = heap.free_cell(fun_ptr);
        let ghost h1 = *heap;
        assert(cells_kept_but(h0, h1, ctr_ptr, fun_ptr));
        let rule_ptr = self.rules.get_by_symbols(ctr.get_symbol_ptr(), fun.get_symbol_ptr()).unwrap();
        let rules = self.rules;
        let rule = rules.get_rule(rule_ptr);
        self.rewrites = if self.rewrites == usize::MAX {
            0
        } else {
            self.rewrites + 1
        };
        let ghost key = crate::rule::rule_key(
            crate::rule::low_index(h0.cell_at(ctr_ptr).symbol_of().index_of(), h0.cell_at(fun_ptr).symbol_of().index_of()),
            crate::rule::high_index(h0.cell_at(ctr_ptr).symbol_of().index_of(), h0.cell_at(fun_ptr).symbol_of().index_of()),
        ) as u64;
        assert(*rule == rules.rules_view()[rules.index_view()[key] as int]->0);
        let bvars = match self.new_bvar_buffer(heap, rule.bvar_count) {
            Ok(b) => b,
            Err(e) => {
                return Err(e);
            },
        };
        let ghost mut heaps: Seq<Heap<NetF>> = seq![*heap];
        let ghost mut queues: Seq<Seq<Task>> = seq![queue@];
        assert(fresh_bvars(h1.vars_view(), heaps[0], &bvars, rule.bvar_count as nat));
        let mut i: usize = 0;
        while i < rule.body.len()
            invariant
                heaps.len() == i + 1,
                queues.len() == i + 1,
                heaps.last() == *heap,
                queues.last() == queue@,
                queues[0] == old(queue)@,
                heaps[0].cells_view() == h1.cells_view(),
                fresh_bvars(h1.vars_view(), heaps[0], &bvars, rule.bvar_count as nat),
                h1.cells_view() == h0.cells_view().update(ctr_ptr.index_of() as int, None).update(fun_ptr.index_of() as int, None),
                h1.vars_view() == h0.vars_view(),
                ctr == h0.cell_at(ctr_ptr),
                fun == h0.cell_at(fun_ptr),
                *rule == rules.rules_view()[rules.index_view()[key] as int]->0,
                body_steps(rules, *rule, &bvars, ctr, fun, heaps, queues, i as int),
                fresh_vars_fit(*rule, h0.vars_view()),
                heap.wf(),
                self.rules == rules,
                rules.wf(),
                buffer_ready(&bvars),
                i <= rule.body@.len(),
                self.rewrites == next_count(old(self).rewrites),
                self.debug == old(self).debug,
                queue_grew(old(queue)@, queue@),
                rules == old(self).rules,
                old(heap).has_cell(ctr_ptr),
                old(heap).has_cell(fun_ptr),
                fun_ptr.index_of() != ctr_ptr.index_of(),
                rules.index_view().contains_key(key),
                key == crate::rule::rule_key(
                    crate::rule::low_index(h0.cell_at(ctr_ptr).symbol_of().index_of(), h0.cell_at(fun_ptr).symbol_of().index_of()),
                    crate::rule::high_index(h0.cell_at(ctr_ptr).symbol_of().index_of(), h0.cell_at(fun_ptr).symbol_of().index_of()),
                ) as u64,
                cells_kept_but(h0, *heap, ctr_ptr, fun_ptr),
                h0 == *old(heap),
            decreases rule.body@.len() - i,
        {
            proof {
                reveal(redex_done);
            }
            let rule_eqn = match rules.body.get(rule.body[i]) {
                Some(e) => *e,
                None => {
                    assert(redex_run(rules, *rule, ctr, fun, h1.cells_view(), h0.vars_view(), &bvars, heaps, queues, i as int,
                        *heap, old(queue)@, queue@, Err(EvalError::Dangling)));
                    return Err(EvalError::Dangling);
                },
            };
            let ghost q = queue@;
            let ghost hb = *heap;
            let result = self.rewrite_equation(queue, heap, &bvars, ctr, fun, rule_eqn);
            proof {
                assert forall|k: int|
                    0 <= k < h0.cells_view().len() && h0.cells_view()[k] is Some && k != ctr_ptr.index_of() && k
                        != fun_ptr.index_of() implies #[trigger] heap.cells_view()[k] == h0.cells_view()[k] by {
                    assert(hb.cells_view()[k] == h0.cells_view()[k]);
                }
                assert forall|k: int| 0 <= k < old(queue)@.len() implies #[trigger] queue@[k] == old(queue)@[k] by {
                    assert(q[k] == old(queue)@[k]);
                }
            }
            match result {
                Ok(()) => {},
                Err(e) => {
                    assert(redex_run(rules, *rule, ctr, fun, h1.cells_view(), h0.vars_view(), &bvars, heaps, queues, i as int,
                        *heap, old(queue)@, queue@, Err(e)));
                    return Err(e);
                },
            }
            proof {
                lemma_body_steps_push(rules, *rule, &bvars, ctr, fun, heaps, queues, i as int, *heap, queue@);
                heaps = heaps.push(*heap);
                queues = queues.push(queue@);
            }
            i = i + 1;
        }
        assert(redex_rewritten(rules, *rule, ctr, fun, h1.cells_view(), h0.vars_view(), &bvars, heaps, queues));
        assert(redex_run(rules, *rule, ctr, fun, h1.cells_view(), h0.vars_view(), &bvars, heaps, queues, i as int,
            *heap, old(queue)@, queue@, Ok(())));
        Ok(())
    }
}


/// Carrying out `task` took the heap from `h0` to `h1`, the queue from `q0`
/// to `q1` and the count of rewrites from `n0` to `n1`, with result `r`.
pub open spec fn task_done<'a>(
    rules: &RuleSet<'a>,
    task: Task,
    h0: Heap<NetF>,
    h1: Heap<NetF>,
    q0: Seq<Task>,
    q1: Seq<Task>,
    n0: usize,
    n1: usize,
    r: Result<(), EvalError>,
) -> bool {
    match task {
        Task::Redex(ctr_ptr, fun_ptr) => redex_done(rules, h0, h1, q0, q1, n0, n1, ctr_ptr, fun_ptr, r),
        Task::Bind(var_ptr, cell_ptr) => n1 == n0 && bind_done(h0, h1, q0, q1, var_ptr, cell_ptr, r),
        Task::Connect(left, right) => n1 == n0 && h1 == h0 && connect_done(h0, q0, q1, left, right, r),
    }
}

/// The `k`-th step of a run: the first task of `queues[k]` was carried out
/// on the heap `heaps[k]` with the count of rewrites `counts[k]`,
/// successfully, giving the next state.
pub open spec fn run_step<'a>(
    rules: &RuleSet<'a>,
    heaps: Seq<Heap<NetF>>,
    queues: Seq<Seq<Task>>,
    counts: Seq<usize>,
    k: int,
) -> bool {
    &&& queues[k].len() > 0
    &&& exists|res: Result<(), EvalError>|
        {
            &&& res is Ok
            &&& #[trigger] task_done(
                rules,
                queues[k][0],
                heaps[k],
                heaps[k + 1],
                queues[k].drop_first(),
                queues[k + 1],
                counts[k],
                counts[k + 1],
                res,
            )
        }
}

/// `heaps`, `queues` and `counts` are the states of a run of `n`
/// successful steps.
pub open spec fn run_steps<'a>(
    rules: &RuleSet<'a>,
    heaps: Seq<Heap<NetF>>,
    queues: Seq<Seq<Task>>,
    counts: Seq<usize>,
    n: int,
) -> bool {
    &&& 0 <= n
    &&& heaps.len() == n + 1
    &&& queues.len() == n + 1
    &&& counts.len() == n + 1
    &&& forall|k: int| 0 <= k < n ==> #[trigger] run_step(rules, heaps, queues, counts, k)
}

/// After the `steps` successful steps of the run, with at most `fuel`
/// steps allowed, the reduction ended with the heap `end_heap`, the count
/// `end_count` and the result `r`: `Ok` when no task is left; `OutOfFuel`
/// when all the fuel was used with tasks left; otherwise the error of the
/// next task, which failed.
pub open spec fn run_ended<'a>(
    rules: &RuleSet<'a>,
    heaps: Seq<Heap<NetF>>,
    queues: Seq<Seq<Task>>,
    counts: Seq<usize>,
    steps: int,
    fuel: nat,
    end_heap: Heap<NetF>,
    end_count: usize,
    r: Result<(), EvalError>,
) -> bool {
    &&& steps <= fuel
    &&& match r {
        Ok(()) => queues[steps].len() == 0 && end_heap == heaps[steps] && end_count == counts[steps],
        Err(e) => {
            ||| {
                &&& steps == fuel
                &&& queues[steps].len() > 0
                &&& e == EvalError::OutOfFuel
                &&& end_heap == heaps[steps]
                &&& end_count == counts[steps]
            }
            ||| {
                &&& steps < fuel
                &&& queues[steps].len() > 0
                &&& exists|q: Seq<Task>|
                    #[trigger] task_done(
                        rules,
                        queues[steps][0],
                        heaps[steps],
                        end_heap,
                        queues[steps].drop_first(),
                        q,
                        counts[steps],
                        end_count,
                        Err(e),
                    )
            }
        }
    }
}

/// One more successful step extends a run.
pub proof fn lemma_run_steps_push<'a>(
    rules: &RuleSet<'a>,
    heaps: Seq<Heap<NetF>>,
    queues: Seq<Seq<Task>>,
    counts: Seq<usize>,
    n: int,
    h: Heap<NetF>,
    q: Seq<Task>,
    c: usize,
    res: Result<(), EvalError>,
)
    requires
        run_steps(rules, heaps, queues, counts, n),
        queues[n].len() > 0,
        res is Ok,
        task_done(rules, queues[n][0], heaps[n], h, queues[n].drop_first(), q, counts[n], c, res),
    ensures
        run_steps(rules, heaps.push(h), queues.push(q), counts.push(c), n + 1),
{
    assert forall|k: int| 0 <= k < n + 1 implies #[trigger] run_step(rules, heaps.push(h), queues.push(q), counts.push(c), k) by {
        assert(heaps.push(h)[k] == heaps[k]);
        assert(queues.push(q)[k] == queues[k]);
        assert(counts.push(c)[k] == counts[k]);
        let hs = heaps.push(h);
        let qs = queues.push(q);
        let cs = counts.push(c);
        if k < n {
            assert(run_step(rules, heaps, queues, counts, k));
            assert(hs[k + 1] == heaps[k + 1]);
            assert(qs[k + 1] == queues[k + 1]);
            assert(cs[k + 1] == counts[k + 1]);
            let r0 = choose|r0: Result<(), EvalError>|
                r0 is Ok && #[trigger] task_done(
                    rules,
                    queues[k][0],
                    heaps[k],
                    heaps[k + 1],
                    queues[k].drop_first(),
                    queues[k + 1],
                    counts[k],
                    counts[k + 1],
                    r0,
                );
            assert(task_done(rules, qs[k][0], hs[k], hs[k + 1], qs[k].drop_first(), qs[k + 1], cs[k], cs[k + 1], r0));
        } else {
            assert(hs[k + 1] == h);
            assert(qs[k + 1] == q);
            assert(cs[k + 1] == c);
            assert(task_done(rules, qs[k][0], hs[k], hs[k + 1], qs[k].drop_first(), qs[k + 1], cs[k], cs[k + 1], res));
        }
    }
}

impl<'a> Runtime<'a> {
    /// Whether the rule set has a rule for the redex of the cells at
    /// `ctr_ptr` and `fun_ptr`, when they are two distinct live cells.
    pub fn redex_rule_found(&self, heap: &Heap<NetF>, ctr_ptr: CellPtr, fun_ptr: CellPtr) -> (r: bool)
        requires
            heap.wf(),
            self.rules.wf(),
        ensures
            r == redex_has_rule(self.rules, *heap, ctr_ptr, fun_ptr),
    {
        if ctr_ptr.get_index() == fun_ptr.get_index() {
            return true;
        }
        match (heap.cells.get_checked(&ctr_ptr), heap.cells.get_checked(&fun_ptr)) {
            (Some(ctr), Some(fun)) => self.rules.get_by_symbols(ctr.get_symbol_ptr(), fun.get_symbol_ptr()).is_some(),
            _ => true,
        }
    }

    /// Carries out one task: a redex without a rule for its symbols is
    /// refused with `MissingRule` before anything changes.
    pub fn eval_equation(&mut self, queue: &mut VecDeque<Task>, heap: &mut Heap<NetF>, task: Task) -> (r: Result<(), EvalError>)
        requires
            old(heap).wf(),
            old(self).rules.wf(),
        ensures
            final(heap).wf(),
            final(self).rules == old(self).rules,
            final(self).debug == old(self).debug,
            queue_grew(old(queue)@, final(queue)@),
            final(self).rewrites == old(self).rewrites || final(self).rewrites == next_count(old(self).rewrites),
            task_done(
                old(self).rules,
                task,
                *old(heap),
                *final(heap),
                old(queue)@,
                final(queue)@,
                old(self).rewrites,
                final(self).rewrites,
                r,
            ),
    {
        proof {
            reveal(redex_done);
        }
        match task {
            Task::Redex(ctr_ptr, fun_ptr) => {
                if !self.redex_rule_found(heap, ctr_ptr, fun_ptr) {
                    return Err(EvalError::MissingRule);
                }
                self.eval_redex(queue, heap, ctr_ptr, fun_ptr)
            },
            Task::Bind(var_ptr, cell_ptr) => {
                let r = self.eval_bind(queue, heap, var_ptr, cell_ptr);
                assert(queue_grew(old(queue)@, queue@));
                r
            },
            Task::Connect(left, right) => {
                let r = self.eval_connect(queue, heap, left, right);
                assert(queue_grew(old(queue)@, queue@));
                r
            },
        }
    }

    /// The task of an equation of a net's body; its kind must be a kind.
    pub fn task_of_equation(e: &Equation<NetF>) -> (r: Task)
        requires
            e.wf(),
        ensures
            r == task_of(*e),
    {
        match e.get_kind() {
            EquationKind::Redex => Task::Redex(e.get_redex_ctr(), e.get_redex_fun()),
            EquationKind::Bind => Task::Bind(e.get_bind_var(), e.get_bind_cell()),
            EquationKind::Connect => Task::Connect(e.get_connect_left(), e.get_connect_right()),
        }
    }

    /// Reduces `net`: its body becomes the first tasks, in order, and tasks
    /// are carried out one at a time, new ones after the others, until none
    /// is left, a task fails, or `fuel` tasks have been carried out with
    /// work left. The net comes back with an empty body, the same head and
    /// its heap as reduced.
    pub fn eval(&mut self, net: Net<'a>, fuel: usize) -> (r: (Net<'a>, Result<(), EvalError>))
        requires
            old(self).rules.wf(),
            net.wf(),
        ensures
            r.0.wf(),
            r.0.symbols == net.symbols,
            r.0.head == net.head,
            r.0.body@ == Seq::<Equation<NetF>>::empty(),
            final(self).rules == old(self).rules,
            final(self).debug == old(self).debug,
            net.body@.len() == 0 ==> r.1 is Ok && r.0.heap == net.heap && final(self).rewrites == old(self).rewrites,
            fuel == 0 && net.body@.len() > 0 && (forall|i: int| 0 <= i < net.body@.len() ==> (#[trigger] net.body@[i]).wf())
                ==> r.1 == Err::<(), EvalError>(EvalError::OutOfFuel) && r.0.heap == net.heap,
            (exists|i: int| 0 <= i < net.body@.len() && !(#[trigger] net.body@[i]).wf()) ==> r.1 == Err::<(), EvalError>(EvalError::Dangling)
                && r.0.heap == net.heap,
            (forall|i: int| 0 <= i < net.body@.len() ==> (#[trigger] net.body@[i]).wf()) ==> exists|
                heaps: Seq<Heap<NetF>>,
                queues: Seq<Seq<Task>>,
                counts: Seq<usize>,
                steps: int,
            |
                {
                    &&& #[trigger] run_steps(old(self).rules, heaps, queues, counts, steps)
                    &&& heaps[0] == net.heap
                    &&& queues[0] == Seq::new(net.body@.len(), |k: int| task_of(net.body@[k]))
                    &&& counts[0] == old(self).rewrites
                    &&& run_ended(old(self).rules, heaps, queues, counts, steps, fuel as nat, r.0.heap, final(self).rewrites, r.1)
                },
    {
        let mut work = net;
        let mut body: Vec<Equation<NetF>> = Vec::new();
        std::mem::swap(&mut work.body, &mut body);
        let mut queue: VecDeque<Task> = VecDeque::new();
        let mut i: usize = 0;
        while i < body.len()
            invariant
                i <= body@.len(),
                queue@.len() == i,
                forall|k: int| 0 <= k < i ==> (#[trigger] body@[k]).wf(),
                forall|k: int| 0 <= k < i ==> #[trigger] queue@[k] == task_of(body@[k]),
                body@ == net.body@,
                *self == *old(self),
                self.rules.wf(),
                work.wf(),
                work.symbols == net.symbols,
                work.head == net.head,
                work.heap == net.heap,
                work.body@ == Seq::<Equation<NetF>>::empty(),
            decreases body@.len() - i,
        {
            if !((body[i].0 >> 62u8) & 3 <= 2) {
                return (work, Err(EvalError::Dangling));
            }
            queue.push_back(Self::task_of_equation(&body[i]));
            i = i + 1;
        }
        let ghost start = work.heap;
        assert(queue@ =~= Seq::new(net.body@.len(), |k: int| task_of(net.body@[k])));
        let ghost mut heaps: Seq<Heap<NetF>> = seq![work.heap];
        let ghost mut queues: Seq<Seq<Task>> = seq![queue@];
        let ghost mut counts: Seq<usize> = seq![self.rewrites];
        let mut steps: usize = 0;
        while steps < fuel
            invariant
                run_steps(old(self).rules, heaps, queues, counts, steps as int),
                heaps[0] == net.heap,
                queues[0] == Seq::new(net.body@.len(), |k: int| task_of(net.body@[k])),
                counts[0] == old(self).rewrites,
                heaps.last() == work.heap,
                queues.last() == queue@,
                counts.last() == self.rewrites,
                work.wf(),
                self.rules.wf(),
                self.rules == old(self).rules,
                self.debug == old(self).debug,
                work.symbols == net.symbols,
                work.head == net.head,
                work.body@ == Seq::<Equation<NetF>>::empty(),
                steps <= fuel,
                body@.len() == 0 && steps == 0 ==> queue@.len() == 0,
                body@.len() > 0 && steps == 0 ==> queue@.len() > 0,
                steps == 0 ==> work.heap == start && self.rewrites == old(self).rewrites,
                body@.len() == 0 ==> steps == 0 && queue@.len() == 0,
                forall|k: int| 0 <= k < body@.len() ==> (#[trigger] body@[k]).wf(),
                start == net.heap,
                body@ == net.body@,
            decreases fuel - steps,
        {
            match queue.pop_front() {
                None => {
                    assert(run_ended(old(self).rules, heaps, queues, counts, steps as int, fuel as nat, work.heap,
                        self.rewrites, Ok(())));
                    return (work, Ok(()));
                },
                Some(task) => {
                    let ghost popped = queue@;
                    let ghost h = work.heap;
                    let ghost n = self.rewrites;
                    let done = self.eval_equation(&mut queue, &mut work.heap, task);
                    assert(task_done(old(self).rules, task, h, work.heap, popped, queue@, n, self.rewrites, done));
                    match done {
                        Ok(()) => {
                            proof {
                                assert(task == queues[steps as int][0]);
                                assert(popped =~= queues[steps as int].drop_first());
                                lemma_run_steps_push(old(self).rules, heaps, queues, counts, steps as int, work.heap, queue@,
                                    self.rewrites, done);
                                heaps = heaps.push(work.heap);
                                queues = queues.push(queue@);
                                counts = counts.push(self.rewrites);
                            }
                        },
                        Err(e) => {
                            assert(task_done(old(self).rules, queues[steps as int][0], heaps[steps as int], work.heap,
                                queues[steps as int].drop_first(), queue@, counts[steps as int], self.rewrites, Err(e)));
                            assert(run_ended(old(self).rules, heaps, queues, counts, steps as int, fuel as nat, work.heap,
                                self.rewrites, Err(e)));
                            return (work, Err(e));
                        },
                    }
                },
            }
            steps = steps + 1;
        }
        if queue.len() == 0 {
            assert(run_ended(old(self).rules, heaps, queues, counts, steps as int, fuel as nat, work.heap,
                self.rewrites, Ok(())));
            (work, Ok(()))
        } else {
            assert(run_ended(old(self).rules, heaps, queues, counts, steps as int, fuel as nat, work.heap,
                self.rewrites, Err(EvalError::OutOfFuel)));
            (work, Err(EvalError::OutOfFuel))
        }
    }
}


/// A buffer of up to ten equations of a net.
pub struct EquationsBuffer {
    buffer: Vec<Equation<NetF>>,
    len: u8,
}

impl EquationsBuffer {
    /// The number of slots of a buffer.
    pub const MAX_BUFFER_LEN: usize = 10;

    /// The equations pushed so far, in order.
    pub closed spec fn view(&self) -> Seq<Equation<NetF>> {
        self.buffer@.take(self.len as int)
    }

    /// The slots hold the buffer's equations.
    pub closed spec fn wf(&self) -> bool {
        &&& self.buffer@.len() == Self::MAX_BUFFER_LEN
        &&& self.len as usize <= Self::MAX_BUFFER_LEN
    }

    /// An empty buffer.
    pub fn new() -> (r: Self)
        ensures
            r.wf(),
            r.view() == Seq::<Equation<NetF>>::empty(),
    {
        let mut buffer: Vec<Equation<NetF>> = Vec::new();
        let mut i: usize = 0;
        while i < Self::MAX_BUFFER_LEN
            invariant
                i <= Self::MAX_BUFFER_LEN,
                buffer@.len() == i,
            decreases Self::MAX_BUFFER_LEN - i,
        {
            buffer.push(Equation::default());
            i = i + 1;
        }
        let r = Self { buffer, len: 0 };
        assert(r.view() =~= Seq::<Equation<NetF>>::empty());
        r
    }

    /// Adds `eqn` after the others; the buffer must not be full.
    pub fn push(&mut self, eqn: Equation<NetF>)
        requires
            old(self).wf(),
            old(self).view().len() < Self::MAX_BUFFER_LEN,
        ensures
            final(self).wf(),
            final(self).view() == old(self).view().push(eqn),
    {
        let ghost before = self.view();
        self.buffer.set(self.len as usize, eqn);
        self.len = self.len + 1;
        assert(self.view() =~= before.push(eqn));
    }

    /// The equation at `index`, which must have been pushed.
    pub fn get(&self, index: u8) -> (r: Equation<NetF>)
        requires
            self.wf(),
            index < self.view().len(),
        ensures
            r == self.view()[index as int],
    {
        self.buffer[index as usize]
    }

    /// The equations pushed so far.
    pub fn slice(&self) -> (r: &[Equation<NetF>])
        requires
            self.wf(),
        ensures
            r@ == self.view(),
    {
        let (used, _) = self.buffer.as_slice().split_at(self.len as usize);
        used
    }
}


/// Two cells met at a wire are ordered the same way whichever comes first,
/// and the order puts the positive cell first and the negative one second.
pub proof fn law_ordering(a: CellPtr, b: CellPtr)
    ensures
        ordered(a, b) == ordered(b, a),
        ordered(a, b) matches Some(p) ==> {
            &&& p.0.polarity_of() == Polarity::Pos
            &&& p.1.polarity_of() == Polarity::Neg
            &&& ((p.0 == a && p.1 == b) || (p.0 == b && p.1 == a))
        },
        ordered(a, b) is None <==> a.polarity_of() == b.polarity_of(),
{
}

/// Binding an unbound variable gives nothing back; binding it again to
/// another cell gives back the first cell, and to the same cell nothing.
pub proof fn law_bind_twice(first: CellPtr, second: CellPtr)
    requires
        first.ptr_bits() < 0xffffff,
    ensures
        previous(NetVar(NetVar::NULL), first) is None,
        first.ptr_bits() != second.ptr_bits() ==> previous(NetVar(first.ptr_bits()), second)
            == Some(CellPtr(first.ptr_bits())),
        first.ptr_bits() == second.ptr_bits() ==> previous(NetVar(first.ptr_bits()), second) is None,
{
}


/// The cell that the variable end `v` of `heap` holds, if any.
pub open spec fn held_cell(heap: Heap<NetF>, v: PVarPtr) -> Option<CellPtr> {
    crate::net::stored_cell(store_of(heap.var_at(v.index_of())).0)
}

/// Connecting two variable ends of which only the left one holds a cell
/// queues the binding of the right (unbound) end to that cell, and carrying
/// out that task leaves both variables holding the cell.
pub proof fn law_connect_binds_the_unbound_right_end(
    heap: Heap<NetF>,
    q0: Seq<Task>,
    q1: Seq<Task>,
    left: PVarPtr,
    right: PVarPtr,
    r: Result<(), EvalError>,
    c: CellPtr,
    h1: Heap<NetF>,
    q2: Seq<Task>,
    r2: Result<(), EvalError>,
)
    requires
        c.wf(),
        heap.has_var(left.index_of()),
        heap.has_var(right.index_of()),
        held_cell(heap, left) == Some(c),
        held_cell(heap, right) is None,
        connect_done(heap, q0, q1, left, right, r),
    ensures
        r is Ok,
        q1 == q0.push(Task::Bind(right, c)),
        q1.last() matches Task::Bind(v, x) && bind_done(heap, h1, q1, q2, v, x, r2) ==> {
            &&& r2 is Ok
            &&& q2 == q1
            &&& held_cell(h1, left) == Some(c)
            &&& held_cell(h1, right) == Some(c)
        },
{
    assert(q0 + seq![Task::Bind(right, c)] =~= q0.push(Task::Bind(right, c)));
    lemma_rebound_holds(heap, h1, q1, q2, right, c, r2);
}

/// Connecting two variable ends of which only the right one holds a cell
/// queues the binding of the left (unbound) end to that cell, and carrying
/// out that task leaves both variables holding the cell.
pub proof fn law_connect_binds_the_unbound_left_end(
    heap: Heap<NetF>,
    q0: Seq<Task>,
    q1: Seq<Task>,
    left: PVarPtr,
    right: PVarPtr,
    r: Result<(), EvalError>,
    c: CellPtr,
    h1: Heap<NetF>,
    q2: Seq<Task>,
    r2: Result<(), EvalError>,
)
    requires
        c.wf(),
        heap.has_var(left.index_of()),
        heap.has_var(right.index_of()),
        held_cell(heap, left) is None,
        held_cell(heap, right) == Some(c),
        connect_done(heap, q0, q1, left, right, r),
    ensures
        r is Ok,
        q1 == q0.push(Task::Bind(left, c)),
        q1.last() matches Task::Bind(v, x) && bind_done(heap, h1, q1, q2, v, x, r2) ==> {
            &&& r2 is Ok
            &&& q2 == q1
            &&& held_cell(h1, left) == Some(c)
            &&& held_cell(h1, right) == Some(c)
        },
{
    assert(q0 + seq![Task::Bind(left, c)] =~= q0.push(Task::Bind(left, c)));
    lemma_rebound_holds(heap, h1, q1, q2, left, c, r2);
}

/// Binding an unbound variable end `v` to the cell `c` makes it hold `c`,
/// queues nothing and leaves every other variable as it was.
proof fn lemma_rebound_holds(
    heap: Heap<NetF>,
    h1: Heap<NetF>,
    q1: Seq<Task>,
    q2: Seq<Task>,
    v: PVarPtr,
    c: CellPtr,
    r2: Result<(), EvalError>,
)
    requires
        c.wf(),
        heap.has_var(v.index_of()),
        held_cell(heap, v) is None,
    ensures
        bind_done(heap, h1, q1, q2, v, c, r2) ==> {
            &&& r2 is Ok
            &&& q2 == q1
            &&& held_cell(h1, v) == Some(c)
            &&& h1.vars_view() == heap.vars_view().update(v.index_of() as int, h1.vars_view()[v.index_of() as int])
        },
{
    crate::rule::lemma_pointer_word(c.0);
    assert(q1 + Seq::<Task>::empty() =~= q1);
    if bind_done(heap, h1, q1, q2, v, c, r2) {
        let var = heap.var_at(v.index_of());
        assert(previous(store_of(var), c) is None);
        let updated = heap.vars_view().update(v.index_of() as int, Some(rebound(var, c.ptr_bits())));
        assert(h1.vars_view() == updated);
        assert(store_of(rebound(var, c.ptr_bits())).0 == c.ptr_bits());
        let w = c.0;
        assert(w >> 24u8 == 0 ==> (w >> 0u8) & 0xffffff < 0xffffffff) by (bit_vector);
        assert(c.ptr_bits() != NetVar::NULL);
        assert(h1.var_at(v.index_of()) == rebound(var, c.ptr_bits()));
        assert(h1.vars_view() =~= heap.vars_view().update(v.index_of() as int, h1.vars_view()[v.index_of() as int]));
    }
}

/// Connecting two variable ends that hold cells of opposite polarities
/// queues their redex, the positive (constructor) cell first.
pub proof fn law_connect_of_two_cells(
    heap: Heap<NetF>,
    q0: Seq<Task>,
    q1: Seq<Task>,
    left: PVarPtr,
    right: PVarPtr,
    r: Result<(), EvalError>,
    lc: CellPtr,
    rc: CellPtr,
)
    requires
        heap.has_var(left.index_of()),
        heap.has_var(right.index_of()),
        held_cell(heap, left) == Some(lc),
        held_cell(heap, right) == Some(rc),
        lc.polarity_of() != rc.polarity_of(),
        connect_done(heap, q0, q1, left, right, r),
    ensures
        r is Ok,
        q1.len() == q0.len() + 1,
        q1.drop_last() == q0,
        q1.last() matches Task::Redex(c, f) && c.polarity_of() == Polarity::Pos && f.polarity_of() == Polarity::Neg
            && ((c == lc && f == rc) || (c == rc && f == lc)),
{
    assert((q0 + seq![q1.last()]).drop_last() =~= q0);
}

/// The task, if it is a redex, holds the positive (constructor) cell first
/// and the negative (function) cell second.
pub open spec fn constructor_first(t: Task) -> bool {
    match t {
        Task::Redex(c, f) => c.polarity_of() == Polarity::Pos && f.polarity_of() == Polarity::Neg,
        _ => true,
    }
}

/// Every redex that the runtime queues holds the positive (constructor)
/// cell first and the negative (function) cell second: whether it comes
/// from binding a variable that held a cell, from connecting two variable
/// ends, or from connecting the instances of two rule variables.
pub proof fn law_queued_redexes_put_the_constructor_first(
    prev: Option<CellPtr>,
    cell: CellPtr,
    l: PVarPtr,
    r: PVarPtr,
    lc: Option<CellPtr>,
    rc: Option<CellPtr>,
    lt: TermPtr,
    rt: TermPtr,
)
    ensures
        bind_outcome(prev, cell) matches Ok(ts) ==> forall|k: int| 0 <= k < ts.len() ==> constructor_first(#[trigger] ts[k]),
        connect_outcome(l, r, lc, rc) matches Ok(ts) ==> forall|k: int| 0 <= k < ts.len() ==> constructor_first(#[trigger] ts[k]),
        instance_outcome(lt, rt) matches Ok(ts) ==> forall|k: int| 0 <= k < ts.len() ==> constructor_first(#[trigger] ts[k]),
{
}

/// Connecting the instances of two rule variables queues one task: the
/// redex of two cells of opposite polarities, the positive (constructor)
/// cell first; the binding of a variable end to a cell; or the connection
/// of two variable ends, in their order.
pub proof fn law_connected_instances_give_one_task(
    rules: &RuleSet,
    bvars: &PVarPtrBuffer,
    ctr: Cell<NetF>,
    fun: Cell<NetF>,
    q0: Seq<Task>,
    q1: Seq<Task>,
    rule_left: PVarPtr,
    rule_right: PVarPtr,
    lt: TermPtr,
    rt: TermPtr,
)
    requires
        connect_instantiated(rules, bvars, ctr, fun, q0, q1, rule_left, rule_right, lt, rt),
    ensures
        q1.len() == q0.len() + 1,
        q1.take(q0.len() as int) == q0,
        lt.kind_of() == TermKind::Cell && rt.kind_of() == TermKind::Cell ==> {
            &&& CellPtr(lt.term_bits()).polarity_of() != CellPtr(rt.term_bits()).polarity_of()
            &&& q1.last() matches Task::Redex(c, f) && c.polarity_of() == Polarity::Pos && f.polarity_of()
                == Polarity::Neg && ((c == CellPtr(lt.term_bits()) && f == CellPtr(rt.term_bits())) || (c == CellPtr(
                rt.term_bits(),
            ) && f == CellPtr(lt.term_bits())))
        },
        lt.kind_of() == TermKind::Cell && rt.kind_of() == TermKind::Var ==> q1.last() == Task::Bind(
            PVarPtr(rt.term_bits()),
            CellPtr(lt.term_bits()),
        ),
        lt.kind_of() == TermKind::Var && rt.kind_of() == TermKind::Cell ==> q1.last() == Task::Bind(
            PVarPtr(lt.term_bits()),
            CellPtr(rt.term_bits()),
        ),
        lt.kind_of() == TermKind::Var && rt.kind_of() == TermKind::Var ==> q1.last() == Task::Connect(
            PVarPtr(lt.term_bits()),
            PVarPtr(rt.term_bits()),
        ),
{
    let ts = q1.skip(q0.len() as int);
    assert(ts.len() == 1);
    assert(q1.last() == ts[0]);
    assert(q1.take(q0.len() as int) =~= q0) by {
        assert forall|i: int| 0 <= i < q0.len() implies q1.take(q0.len() as int)[i] == q0[i] by {
        }
    }
}

/// Connecting two variable ends that hold no cell yet queues their
/// connection again, in the same order.
pub proof fn law_connect_of_two_unbound_ends(
    heap: Heap<NetF>,
    q0: Seq<Task>,
    q1: Seq<Task>,
    left: PVarPtr,
    right: PVarPtr,
    r: Result<(), EvalError>,
)
    requires
        heap.has_var(left.index_of()),
        heap.has_var(right.index_of()),
        held_cell(heap, left) is None,
        held_cell(heap, right) is None,
        connect_done(heap, q0, q1, left, right, r),
    ensures
        r is Ok,
        q1 == q0.push(Task::Connect(left, right)),
{
    assert(q0 + seq![Task::Connect(left, right)] =~= q0.push(Task::Connect(left, right)));
}

} // verus!
