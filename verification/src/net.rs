//! Nets: the equations to reduce, the interface and the heap they live in.
use vstd::prelude::*;
use vstd::string::StringExecFns;
use std::marker::PhantomData;

use crate::cell::{CellPtr, CELL_INDEX_LIMIT};
use crate::equation::{equations_text, Equation, EquationBuilder, EquationsDisplay};
use crate::heap::{cell_text, Heap};
use crate::symbol::SymbolBook;
use crate::term::TermFamily;
use crate::text;
use crate::var::{PVarPtr, Var, VarPtr};
use crate::BuildError;

verus! {

/// The family of the terms of nets: every variable holds the cell it has
/// been bound to, if any.
#[derive(Debug, Clone, Copy)]
pub struct NetF {}

/// How a variable of a net at `index` is shown: `x.index` when bound,
/// `_.index` when free.
pub open spec fn net_store_text(var: Var<NetF>, index: nat) -> Seq<char> {
    match var {
        Var::Bound(_) => seq!['x', '.'] + text::decimal(index),
        Var::Free(_) => seq!['_', '.'] + text::decimal(index),
    }
}

impl TermFamily for NetF {
    type BoundStore = NetVar;

    type FreeStore = NetVar;

    open spec fn bound_default() -> NetVar {
        NetVar(NetVar::NULL)
    }

    open spec fn free_default() -> NetVar {
        NetVar(NetVar::NULL)
    }

    fn default_bound() -> NetVar {
        NetVar::default()
    }

    fn default_free() -> NetVar {
        NetVar::default()
    }

    open spec fn store_text(var: Var<Self>, index: nat) -> Seq<char> {
        net_store_text(var, index)
    }

    fn display_store(symbols: &SymbolBook, heap: &Heap<Self>, var: &Var<Self>, index: usize) -> (r: String) {
        proof {
            reveal_strlit("x.");
            reveal_strlit("_.");
        }
        let mut s = match var {
            Var::Bound(_) => text::lit("x."),
            Var::Free(_) => text::lit("_."),
        };
        text::push_decimal(&mut s, index as u64);
        s
    }
}

/// What a variable of a net holds: the word of the cell it is bound to, or
/// `NULL` while it is unbound.
#[derive(Debug, Clone, Copy, PartialEq, Eq, Structural)]
pub struct NetVar(pub u32);

/// The cell that a variable's word stands for, if it is bound.
pub open spec fn stored_cell(word: u32) -> Option<CellPtr> {
    if word != NetVar::NULL {
        Some(CellPtr(word))
    } else {
        None
    }
}

impl NetVar {
    /// The word of an unbound variable.
    pub const NULL: u32 = 0xffff_ffff;

    /// The cell the variable is bound to, if any.
    pub fn get_cell_ptr(&self) -> (r: Option<CellPtr>)
        ensures
            r == stored_cell(self.0),
    {
        let value = self.0;
        if value != Self::NULL {
            Some(CellPtr::from_u32(value))
        } else {
            None
        }
    }

    /// Binds the variable to `cell_ptr`, and gives back `cell_ptr` with the
    /// cell it was bound to before, if it was bound to another cell.
    pub fn set_or_get(&mut self, cell_ptr: CellPtr) -> (r: (CellPtr, Option<CellPtr>))
        ensures
            final(self).0 == cell_ptr.ptr_bits(),
            r.0 == cell_ptr,
            r.1 == (if old(self).0 != NetVar::NULL && old(self).0 != cell_ptr.ptr_bits() {
                Some(CellPtr(old(self).0))
            } else {
                None
            }),
    {
        let old_value = self.0;
        self.0 = cell_ptr.get_ptr();
        if old_value != Self::NULL {
            if old_value != cell_ptr.get_ptr() {
                (cell_ptr, Some(CellPtr::from_u32(old_value)))
            } else {
                (cell_ptr, None)
            }
        } else {
            (cell_ptr, None)
        }
    }
}

impl Default for NetVar {
    /// An unbound variable.
    fn default() -> (r: Self)
        ensures
            r.0 == NetVar::NULL,
    {
        Self(Self::NULL)
    }
}

impl Var<NetF> {
    /// What the variable holds, bound or free.
    pub fn get_store(&self) -> (r: &NetVar)
        ensures
            *r == store_of(*self),
    {
        match self {
            Var::Bound(store) => store,
            Var::Free(store) => store,
        }
    }
}

/// What a variable of a net holds.
pub open spec fn store_of(var: Var<NetF>) -> NetVar {
    match var {
        Var::Bound(s) => s,
        Var::Free(s) => s,
    }
}

impl Default for Equation<NetF> {
    /// The equation whose word is 0.
    fn default() -> (r: Self)
        ensures
            r.0 == 0,
    {
        Self(0, PhantomData)
    }
}

/// A net: the ends of its free variables as seen from outside (its head),
/// the equations still to reduce (its body) and its heap.
pub struct Net<'a> {
    pub symbols: &'a SymbolBook,
    pub head: Vec<PVarPtr>,
    pub body: Vec<Equation<NetF>>,
    pub heap: Heap<NetF>,
}

impl<'a> Net<'a> {
    /// The book and the heap keep their invariants.
    pub open spec fn wf(&self) -> bool {
        &&& self.symbols.wf()
        &&& self.heap.wf()
    }

    /// An empty net over `symbols`.
    pub fn new(symbols: &'a SymbolBook) -> (r: Self)
        requires
            symbols.wf(),
        ensures
            r.wf(),
            r.symbols == symbols,
            r.head@ == Seq::<PVarPtr>::empty(),
            r.body@ == Seq::<Equation<NetF>>::empty(),
            r.heap.cells_view() == Seq::<Option<crate::cell::Cell<NetF>>>::empty(),
            r.heap.vars_view() == Seq::<Option<Var<NetF>>>::empty(),
            r.heap.cell_room_count() == CELL_INDEX_LIMIT,
            r.heap.var_room(),
    {
        Self { symbols, head: Vec::new(), body: Vec::new(), heap: Heap::new() }
    }

    /// An empty net over `symbols` with room for `capacity[0]` equations,
    /// at most `capacity[1]` cell slots and room for `capacity[2]`
    /// variables.
    pub fn with_capacity(symbols: &'a SymbolBook, capacity: [usize; 3]) -> (r: Self)
        requires
            symbols.wf(),
        ensures
            r.wf(),
            r.symbols == symbols,
            r.head@ == Seq::<PVarPtr>::empty(),
            r.body@ == Seq::<Equation<NetF>>::empty(),
            r.heap.cells_view() == Seq::<Option<crate::cell::Cell<NetF>>>::empty(),
            r.heap.vars_view() == Seq::<Option<Var<NetF>>>::empty(),
            r.heap.cells.capacity_spec() == capacity[1],
    {
        Self {
            symbols,
            head: Vec::new(),
            body: Vec::with_capacity(capacity[0]),
            heap: Heap::with_capacity(capacity[1], capacity[2]),
        }
    }

    /// Lets `builder_fn` write equations, cells and variables into the net,
    /// and gives back its first failure. What was written before a failure
    /// stays.
    pub fn equations<F>(&mut self, builder_fn: F) -> (r: Result<(), BuildError>) where
        F: FnOnce(&mut EquationBuilder<'a, NetF>),

        requires
            old(self).wf(),
            forall|b: &mut EquationBuilder<'a, NetF>| b.wf() ==> builder_fn.requires((b,)),
            forall|b: &mut EquationBuilder<'a, NetF>|
                builder_fn.ensures((b,), ()) ==> final(b).wf() && final(b).extends(*b),
        ensures
            final(self).wf(),
            final(self).symbols == old(self).symbols,
            final(self).head@.len() >= old(self).head@.len(),
            forall|i: int| 0 <= i < old(self).head@.len() ==> #[trigger] final(self).head@[i] == old(self).head@[i],
            final(self).body@.len() >= old(self).body@.len(),
            forall|i: int| 0 <= i < old(self).body@.len() ==> #[trigger] final(self).body@[i] == old(self).body@[i],
            exists|b: &mut EquationBuilder<'a, NetF>|
                {
                    &&& #[trigger] builder_fn.ensures((b,), ())
                    &&& b.book() == old(self).symbols
                    &&& b.head_view() == old(self).head@
                    &&& b.equations_view() == old(self).body@
                    &&& b.heap_of() == old(self).heap
                    &&& b.failed() is None
                    &&& final(self).head@ == final(b).head_view()
                    &&& final(self).body@ == final(b).equations_view()
                    &&& final(self).heap == final(b).heap_of()
                    &&& r == (match final(b).failed() {
                        Some(e) => Err::<(), BuildError>(e),
                        None => Ok(()),
                    })
                },
    {
        let mut head = Vec::new();
        let mut body = Vec::new();
        let mut heap = Heap::new();
        std::mem::swap(&mut self.head, &mut head);
        std::mem::swap(&mut self.body, &mut body);
        std::mem::swap(&mut self.heap, &mut heap);
        let mut builder = EquationBuilder::new(self.symbols, head, body, heap);
        let ghost start = builder;
        builder_fn(&mut builder);
        assert(builder.wf());
        assert(builder.extends(start));
        proof {
            builder.lemma_wf();
            EquationBuilder::lemma_extends(start, builder);
        }
        let (head, body, heap, error) = builder.build();
        self.head = head;
        self.body = body;
        self.heap = heap;
        match error {
            Some(e) => Err(e),
            None => Ok(()),
        }
    }

    /// The net's head, ready to be shown.
    pub fn display_head(&'a self) -> (r: HeadDisplay<'a>)
        ensures
            r.net == self,
    {
        HeadDisplay { net: self }
    }

    /// The net's body, ready to be shown.
    pub fn display_body(&'a self) -> (r: EquationsDisplay<'a, NetF>)
        ensures
            r.symbols == self.symbols,
            r.body == &self.body,
            r.heap == &self.heap,
    {
        EquationsDisplay { symbols: self.symbols, body: &self.body, heap: &self.heap }
    }

    /// `<`, the head, ` | `, the body, ` > (`, the number of cells,
    /// ` cells, `, the number of variables and ` vars)`, if the head and
    /// the body can be shown.
    pub fn try_to_string(&self) -> (r: Option<String>)
        requires
            self.wf(),
        ensures
            r is None <==> (head_text(self, self.head@.len()) is None || equations_text(&self.heap, self.symbols, self.body@) is None),
            r matches Some(s) ==> s@ == net_text(self),
    {
        proof {
            reveal_strlit("<");
            reveal_strlit(" | ");
            reveal_strlit(" > (");
            reveal_strlit(" cells, ");
            reveal_strlit(" vars)");
        }
        let head = match self.display_head().try_to_string() {
            Some(h) => h,
            None => {
                return None;
            },
        };
        let body = match self.display_body().try_to_string() {
            Some(b) => b,
            None => {
                return None;
            },
        };
        let mut s = text::lit("<");
        s.append(head.as_str());
        s.append(" | ");
        s.append(body.as_str());
        s.append(" > (");
        text::push_decimal(&mut s, self.heap.cells.len() as u64);
        s.append(" cells, ");
        text::push_decimal(&mut s, self.heap.vars.len() as u64);
        s.append(" vars)");
        Some(s)
    }

    /// The net's text; its head and its body must be shown.
    pub fn to_string(&self) -> (r: String)
        requires
            self.wf(),
            head_text(self, self.head@.len()) is Some,
            equations_text(&self.heap, self.symbols, self.body@) is Some,
        ensures
            r@ == net_text(self),
    {
        match self.try_to_string() {
            Some(s) => s,
            None => vstd::pervasive::unreached(),
        }
    }
}

/// The text of a net whose head and body can be shown.
pub open spec fn net_text<'a>(net: &Net<'a>) -> Seq<char> {
    seq!['<'] + head_text(net, net.head@.len())->0 + seq![' ', '|', ' '] + equations_text(&net.heap, net.symbols, net.body@)->0
        + seq![' ', '>', ' ', '('] + text::decimal(crate::arena::count_some(net.heap.cells_view()))
        + seq![' ', 'c', 'e', 'l', 'l', 's', ',', ' '] + text::decimal(crate::arena::count_some(net.heap.vars_view()))
        + seq![' ', 'v', 'a', 'r', 's', ')']
}

/// The text of one end of the head: ` _.i`, and `=` with the cell's text
/// when the variable is bound; nothing if the variable is missing or bound,
/// or its cell cannot be shown.
pub open spec fn head_item_text<'a>(net: &Net<'a>, end: PVarPtr) -> Option<Seq<char>> {
    let index = end.index_of();
    if !net.heap.has_var(index) || net.heap.var_at(index) is Bound {
        None
    } else {
        let prefix = seq![' ', '_', '.'] + text::decimal(index);
        match stored_cell(store_of(net.heap.var_at(index)).0) {
            None => Some(prefix),
            Some(c) => match cell_text(&net.heap, net.symbols, c, net.heap.cells_view().len()) {
                Some(t) => Some(prefix + seq!['='] + t),
                None => None,
            },
        }
    }
}

/// The texts of the first `n` ends of the head.
pub open spec fn head_text<'a>(net: &Net<'a>, n: nat) -> Option<Seq<char>>
    decreases n,
{
    if n == 0 {
        Some(Seq::<char>::empty())
    } else {
        match head_text(net, (n - 1) as nat) {
            Some(a) => match head_item_text(net, net.head@[n - 1]) {
                Some(b) => Some(a + b),
                None => None,
            },
            None => None,
        }
    }
}

/// One end without a text leaves the whole head without one.
pub proof fn lemma_head_text_none<'a>(net: &Net<'a>, n: nat, i: int)
    requires
        0 <= i < n,
        head_item_text(net, net.head@[i]) is None,
    ensures
        head_text(net, n) is None,
    decreases n,
{
    if i < n - 1 {
        lemma_head_text_none(net, (n - 1) as nat, i);
    }
}

/// The head of a net, ready to be shown.
pub struct HeadDisplay<'a> {
    pub net: &'a Net<'a>,
}

impl<'a> HeadDisplay<'a> {
    /// Each end of the head, if its variable is held and free and its cell,
    /// if any, can be shown.
    pub fn try_to_string(&self) -> (r: Option<String>)
        requires
            self.net.wf(),
        ensures
            r is None <==> head_text(self.net, self.net.head@.len()) is None,
            r matches Some(s) ==> head_text(self.net, self.net.head@.len()) == Some(s@),
    {
        let net = self.net;
        let mut out = String::new();
        let mut i: usize = 0;
        while i < net.head.len()
            invariant
                net == self.net,
                net.wf(),
                i <= net.head@.len(),
                head_text(net, i as nat) == Some(out@),
            decreases net.head@.len() - i,
        {
            proof {
                reveal_strlit(" _.");
                reveal_strlit("=");
            }
            let fvar_ptr = net.head[i];
            let index = fvar_ptr.get_fvar_ptr();
            let var = match net.heap.vars.get(index) {
                Some(v) => v,
                None => {
                    proof {
                        lemma_head_text_none(net, net.head@.len(), i as int);
                    }
                    return None;
                },
            };
            match var {
                Var::Bound(_) => {
                    proof {
                        lemma_head_text_none(net, net.head@.len(), i as int);
                    }
                    return None;
                },
                Var::Free(store) => {
                    let mut item = text::lit(" _.");
                    text::push_decimal(&mut item, index.get_index() as u64);
                    match store.get_cell_ptr() {
                        Some(cell_ptr) => {
                            match net.heap.cell_string(net.symbols, cell_ptr, net.heap.cells.slots()) {
                                Some(t) => {
                                    item.append("=");
                                    item.append(t.as_str());
                                },
                                None => {
                                    proof {
                                        lemma_head_text_none(net, net.head@.len(), i as int);
                                    }
                                    return None;
                                },
                            }
                        },
                        None => {},
                    }
                    out.append(item.as_str());
                },
            }
            i = i + 1;
        }
        Some(out)
    }

    /// Each end of the head; each variable must be held and free and its
    /// cell, if any, shown.
    pub fn to_string(&self) -> (r: String)
        requires
            self.net.wf(),
            head_text(self.net, self.net.head@.len()) is Some,
        ensures
            head_text(self.net, self.net.head@.len()) == Some(r@),
    {
        match self.try_to_string() {
            Some(s) => s,
            None => vstd::pervasive::unreached(),
        }
    }
}

} // verus!
