//! Natural numbers: zero and successor.
use vstd::prelude::*;

use crate::cell::{lemma_cell_ptr_bits, CellPtr};
use crate::equation::EquationBuilder;
use crate::heap::{cells_kept, lemma_cell_added_keeps, Heap};
use crate::net::NetF;
use crate::rule::{resolves, room_used, RuleBuilder};
use crate::symbol::{last_index_of, SymbolBook, SymbolName, SYMBOL_INDEX_LIMIT};
use crate::term::{TermFamily, TermKind};
use crate::Polarity;

verus! {

broadcast use {
    RuleBuilder::lemma_extends_trans,
    RuleBuilder::lemma_extends,
    EquationBuilder::lemma_extends_trans,
    EquationBuilder::lemma_extends,
};

/// The name of zero.
pub const Z: &'static str = "Z";

/// The name of the successor.
pub const S: &'static str = "S";

/// The cell at `c` of `heap` is the numeral `n`: `n` successor cells, each
/// holding the next in its port, down to a zero cell, the symbols being
/// those declared last under their names in `names`.
pub open spec fn is_numeral<T: TermFamily>(names: Seq<Seq<char>>, heap: Heap<T>, c: CellPtr, n: nat) -> bool
    decreases n,
{
    &&& heap.has_cell(c)
    &&& if n == 0 {
        last_index_of(names, Z@) == Some(heap.cell_at(c).symbol_of().index_of())
    } else {
        &&& last_index_of(names, S@) == Some(heap.cell_at(c).symbol_of().index_of())
        &&& heap.cell_at(c).left_of().kind_of() == TermKind::Cell
        &&& is_numeral(names, heap, CellPtr(heap.cell_at(c).left_of().term_bits()), (n - 1) as nat)
    }
}

/// A numeral stays one while the heap keeps its cells.
pub proof fn lemma_numeral_kept<T: TermFamily>(names: Seq<Seq<char>>, h1: Heap<T>, h2: Heap<T>, c: CellPtr, n: nat)
    requires
        is_numeral(names, h1, c, n),
        cells_kept(h1, h2),
    ensures
        is_numeral(names, h2, c, n),
    decreases n,
{
    assert(h2.cells_view()[c.index_of() as int] == h1.cells_view()[c.index_of() as int]);
    if n > 0 {
        lemma_numeral_kept(names, h1, h2, CellPtr(h1.cell_at(c).left_of().term_bits()), (n - 1) as nat);
    }
}

/// A successor cell holding the numeral `n` is the numeral `n + 1`.
pub proof fn lemma_numeral_succ<T: TermFamily>(names: Seq<Seq<char>>, heap: Heap<T>, s: CellPtr, pred: CellPtr, n: nat)
    requires
        is_numeral(names, heap, pred, n),
        heap.has_cell(s),
        last_index_of(names, S@) == Some(heap.cell_at(s).symbol_of().index_of()),
        heap.cell_at(s).left_of().is_cell(pred),
    ensures
        is_numeral(names, heap, s, n + 1),
{
    lemma_cell_ptr_bits(pred.0, 0);
    let p = CellPtr(heap.cell_at(s).left_of().term_bits());
    assert(p.index_of() == pred.index_of());
    assert(is_numeral(names, heap, p, n));
}

/// Zero and the successor are declared last as `declare_nat_symbols`
/// declares them.
pub open spec fn nat_declared(book: &SymbolBook) -> bool {
    &&& last_index_of(book.names_view(), Z@) matches Some(i) && book.symbols_view()[i as int].made0(Polarity::Pos)
    &&& last_index_of(book.names_view(), S@) matches Some(j) && book.symbols_view()[j as int].made1(
        Polarity::Pos,
        Polarity::Neg,
    )
}

impl SymbolBook {
    /// Declares zero, a constructor without ports, and the successor, a
    /// constructor with one negative port.
    pub fn declare_nat_symbols(&mut self)
        requires
            old(self).wf(),
            old(self).symbols_view().len() + 2 <= SYMBOL_INDEX_LIMIT,
        ensures
            final(self).wf(),
            final(self).symbols_view().len() == old(self).symbols_view().len() + 2,
            final(self).symbols_view().take(old(self).symbols_view().len() as int) == old(self).symbols_view(),
            final(self).names_view() == old(self).names_view().push(Z@).push(S@),
            final(self).symbols_view()[old(self).symbols_view().len() as int].made0(Polarity::Pos),
            final(self).symbols_view()[old(self).symbols_view().len() + 1int].made1(Polarity::Pos, Polarity::Neg),
    {
        let ghost n = self.symbols_view().len();
        self.ctr0(&SymbolName(Z));
        let ghost mid = self.symbols_view();
        self.ctr1(&SymbolName(S), Polarity::Neg);
        assert(self.symbols_view()[n as int] == mid[n as int]);
        assert(self.symbols_view().take(n as int) =~= old(self).symbols_view());
    }
}

impl<'a> RuleBuilder<'a> {
    /// A zero cell.
    pub fn zero(&mut self) -> (r: CellPtr)
        requires
            old(self).wf(),
        ensures
            final(self).wf(),
            final(self).extends(*old(self)),
            r.ptr_bits() < 0xffffff,
            old(self).failed() is Some ==> *final(self) == *old(self),
            final(self).failed() is None ==> final(self).set().heap.has_cell(r) && resolves(
                final(self).set().symbols,
                Z@,
                final(self).set().heap.cell_at(r).symbol_of(),
            ),
            final(self).failed() is None ==> is_numeral(final(self).set().symbols.names_view(), final(self).set().heap, r, 0),
            final(self).failed() is None ==> cells_kept(old(self).set().heap, final(self).set().heap),
            old(self).failed() is None && nat_declared(old(self).set().symbols) && old(self).set().heap.cell_room_count() >= 1 ==> final(self).failed() is None && room_used(old(self).set(), final(self).set(), 1, 0, 0),
            old(self).failed() is None && nat_declared(old(self).set().symbols) && final(self).failed() is None ==> r.polarity_of() == Polarity::Pos,
            final(self).building() == old(self).building(),
            final(self).failed() is None ==> r.wf(),
    {
        let r = self.cell0(&SymbolName(Z));
        proof {
            if self.failed() is None {
                lemma_cell_added_keeps(old(self).set().heap, self.set().heap, r, self.set().heap.cell_at(r).symbol_of());
            }
        }
        r
    }

    /// A successor cell of `pred`.
    pub fn succ(&mut self, pred: CellPtr) -> (r: CellPtr)
        requires
            old(self).wf(),
            pred.ptr_bits() < 0xffffff,
        ensures
            final(self).wf(),
            final(self).extends(*old(self)),
            r.ptr_bits() < 0xffffff,
            old(self).failed() is Some ==> *final(self) == *old(self),
            final(self).failed() is None ==> final(self).set().heap.has_cell(r) && resolves(
                final(self).set().symbols,
                S@,
                final(self).set().heap.cell_at(r).symbol_of(),
            ) && final(self).set().heap.cell_at(r).left_of().is_cell(pred),
            final(self).failed() is None ==> cells_kept(old(self).set().heap, final(self).set().heap),
            final(self).failed() is None ==> forall|k: nat|
                #[trigger] is_numeral(old(self).set().symbols.names_view(), old(self).set().heap, pred, k) ==> is_numeral(final(self).set().symbols.names_view(), final(self).set().heap, r, k + 1),
            old(self).failed() is None && nat_declared(old(self).set().symbols) && old(self).set().heap.cell_room_count() >= 1
                && pred.polarity_of() == Polarity::Pos ==> final(self).failed() is None && room_used(old(self).set(), final(self).set(), 1, 0, 0),
            old(self).failed() is None && nat_declared(old(self).set().symbols) && final(self).failed() is None ==> r.polarity_of() == Polarity::Pos,
            final(self).building() == old(self).building(),
            final(self).failed() is None ==> r.wf(),
    {
        let r = self.cell1(&SymbolName(S), pred.into_term());
        proof {
            if self.failed() is None {
                lemma_cell_added_keeps(old(self).set().heap, self.set().heap, r, self.set().heap.cell_at(r).symbol_of());
                assert forall|k: nat| #[trigger] is_numeral(old(self).set().symbols.names_view(), old(self).set().heap, pred, k) implies is_numeral(
                    self.set().symbols.names_view(),
                    self.set().heap,
                    r,
                    k + 1,
                ) by {
                    lemma_numeral_kept(old(self).set().symbols.names_view(), old(self).set().heap, self.set().heap, pred, k);
                    lemma_numeral_succ(self.set().symbols.names_view(), self.set().heap, r, pred, k);
                }
            }
        }
        r
    }

    /// One: the successor of zero.
    pub fn one(&mut self) -> (r: CellPtr)
        requires
            old(self).wf(),
        ensures
            final(self).wf(),
            final(self).extends(*old(self)),
            r.ptr_bits() < 0xffffff,
            old(self).failed() is Some ==> *final(self) == *old(self),
            final(self).failed() is None ==> final(self).set().heap.has_cell(r) && resolves(
                final(self).set().symbols,
                S@,
                final(self).set().heap.cell_at(r).symbol_of(),
            ),
            final(self).failed() is None ==> is_numeral(final(self).set().symbols.names_view(), final(self).set().heap, r, 1),
            final(self).failed() is None ==> cells_kept(old(self).set().heap, final(self).set().heap),
            old(self).failed() is None && nat_declared(old(self).set().symbols) && old(self).set().heap.cell_room_count() >= 2 ==> final(self).failed() is None && room_used(old(self).set(), final(self).set(), 2, 0, 0),
            old(self).failed() is None && nat_declared(old(self).set().symbols) && final(self).failed() is None ==> r.polarity_of() == Polarity::Pos,
            final(self).building() == old(self).building(),
            final(self).failed() is None ==> r.wf(),
    {
        let zero = self.zero();
        let ghost mid = *self;
        let r = self.succ(zero);
        proof {
            if self.failed() is None {
                assert(is_numeral(mid.set().symbols.names_view(), mid.set().heap, zero, 0));
            }
        }
        r
    }

    /// Two: the successor of one.
    pub fn two(&mut self) -> (r: CellPtr)
        requires
            old(self).wf(),
        ensures
            final(self).wf(),
            final(self).extends(*old(self)),
            r.ptr_bits() < 0xffffff,
            old(self).failed() is Some ==> *final(self) == *old(self),
            final(self).failed() is None ==> final(self).set().heap.has_cell(r) && resolves(
                final(self).set().symbols,
                S@,
                final(self).set().heap.cell_at(r).symbol_of(),
            ),
            final(self).failed() is None ==> is_numeral(final(self).set().symbols.names_view(), final(self).set().heap, r, 2),
            final(self).failed() is None ==> cells_kept(old(self).set().heap, final(self).set().heap),
            old(self).failed() is None && nat_declared(old(self).set().symbols) && old(self).set().heap.cell_room_count() >= 3
                ==> final(self).failed() is None && room_used(old(self).set(), final(self).set(), 3, 0, 0),
            old(self).failed() is None && nat_declared(old(self).set().symbols) && final(self).failed() is None ==> r.polarity_of()
                == Polarity::Pos,
            final(self).building() == old(self).building(),
            final(self).failed() is None ==> r.wf(),
    {
        let one = self.one();
        let ghost mid = *self;
        let r = self.succ(one);
        proof {
            if self.failed() is None {
                assert(is_numeral(mid.set().symbols.names_view(), mid.set().heap, one, 1));
            }
        }
        r
    }
}

impl<'a> EquationBuilder<'a, NetF> {
    /// A zero cell.
    pub fn zero(&mut self) -> (r: CellPtr)
        requires
            old(self).wf(),
        ensures
            final(self).wf(),
            final(self).extends(*old(self)),
            r.ptr_bits() < 0xffffff,
            old(self).failed() is Some ==> *final(self) == *old(self),
            final(self).failed() is None ==> is_numeral(final(self).book().names_view(), final(self).heap_of(), r, 0),
            final(self).failed() is None ==> cells_kept(old(self).heap_of(), final(self).heap_of()),
            old(self).failed() is None && nat_declared(old(self).book()) && old(self).heap_of().cell_room_count() >= 1 ==> final(self).failed() is None
                && r.polarity_of() == Polarity::Pos && final(self).heap_of().cell_room_count() == old(self).heap_of().cell_room_count() - 1,
            final(self).head_view() == old(self).head_view(),
            final(self).equations_view() == old(self).equations_view(),
            final(self).heap_of().vars == old(self).heap_of().vars,
    {
        let r = self.cell0(&SymbolName(Z));
        proof {
            if self.failed() is None {
                lemma_cell_added_keeps(old(self).heap_of(), self.heap_of(), r, self.heap_of().cell_at(r).symbol_of());
            }
        }
        r
    }

    /// A successor cell of `pred`.
    pub fn succ(&mut self, pred: CellPtr) -> (r: CellPtr)
        requires
            old(self).wf(),
            pred.ptr_bits() < 0xffffff,
        ensures
            final(self).wf(),
            final(self).extends(*old(self)),
            r.ptr_bits() < 0xffffff,
            old(self).failed() is Some ==> *final(self) == *old(self),
            final(self).failed() is None ==> final(self).heap_of().has_cell(r) && last_index_of(
                final(self).book().names_view(),
                S@,
            ) == Some(final(self).heap_of().cell_at(r).symbol_of().index_of())
                && final(self).heap_of().cell_at(r).left_of().is_cell(pred),
            final(self).failed() is None ==> cells_kept(old(self).heap_of(), final(self).heap_of()),
            final(self).failed() is None ==> forall|k: nat|
                #[trigger] is_numeral(old(self).book().names_view(), old(self).heap_of(), pred, k) ==> is_numeral(
                    final(self).book().names_view(),
                    final(self).heap_of(),
                    r,
                    k + 1,
                ),
            old(self).failed() is None && nat_declared(old(self).book()) && old(self).heap_of().cell_room_count() >= 1 && pred.polarity_of()
                == Polarity::Pos ==> final(self).failed() is None && r.polarity_of() == Polarity::Pos && final(self).heap_of().cell_room_count()
                == old(self).heap_of().cell_room_count() - 1,
            final(self).head_view() == old(self).head_view(),
            final(self).equations_view() == old(self).equations_view(),
            final(self).heap_of().vars == old(self).heap_of().vars,
    {
        let r = self.cell1(&SymbolName(S), pred.into_term());
        proof {
            if self.failed() is None {
                lemma_cell_added_keeps(old(self).heap_of(), self.heap_of(), r, self.heap_of().cell_at(r).symbol_of());
                assert forall|k: nat|
                    #[trigger] is_numeral(old(self).book().names_view(), old(self).heap_of(), pred, k) implies is_numeral(
                        self.book().names_view(),
                        self.heap_of(),
                        r,
                        k + 1,
                    ) by {
                    lemma_numeral_kept(old(self).book().names_view(), old(self).heap_of(), self.heap_of(), pred, k);
                    lemma_numeral_succ(self.book().names_view(), self.heap_of(), r, pred, k);
                }
            }
        }
        r
    }

    /// One: the successor of zero.
    pub fn one(&mut self) -> (r: CellPtr)
        requires
            old(self).wf(),
        ensures
            final(self).wf(),
            final(self).extends(*old(self)),
            r.ptr_bits() < 0xffffff,
            old(self).failed() is Some ==> *final(self) == *old(self),
            final(self).failed() is None ==> is_numeral(final(self).book().names_view(), final(self).heap_of(), r, 1),
            final(self).failed() is None ==> cells_kept(old(self).heap_of(), final(self).heap_of()),
            old(self).failed() is None && nat_declared(old(self).book()) && old(self).heap_of().cell_room_count() >= 2
                ==> final(self).failed() is None && r.polarity_of() == Polarity::Pos && final(self).heap_of().cell_room_count()
                == old(self).heap_of().cell_room_count() - 2,
    {
        let zero = self.zero();
        let ghost mid = *self;
        let r = self.succ(zero);
        proof {
            if self.failed() is None {
                assert(is_numeral(mid.book().names_view(), mid.heap_of(), zero, 0));
            }
        }
        r
    }

    /// Two: the successor of one.
    pub fn two(&mut self) -> (r: CellPtr)
        requires
            old(self).wf(),
        ensures
            final(self).wf(),
            final(self).extends(*old(self)),
            r.ptr_bits() < 0xffffff,
            old(self).failed() is Some ==> *final(self) == *old(self),
            final(self).failed() is None ==> is_numeral(final(self).book().names_view(), final(self).heap_of(), r, 2),
            final(self).failed() is None ==> cells_kept(old(self).heap_of(), final(self).heap_of()),
            old(self).failed() is None && nat_declared(old(self).book()) && old(self).heap_of().cell_room_count() >= 3
                ==> final(self).failed() is None && r.polarity_of() == Polarity::Pos && final(self).heap_of().cell_room_count()
                == old(self).heap_of().cell_room_count() - 3,
    {
        let one = self.one();
        let ghost mid = *self;
        let r = self.succ(one);
        proof {
            if self.failed() is None {
                assert(is_numeral(mid.book().names_view(), mid.heap_of(), one, 1));
            }
        }
        r
    }

    /// The numeral `n`: `n` successors of zero.
    pub fn n(&mut self, n: usize) -> (r: CellPtr)
        requires
            old(self).wf(),
        ensures
            final(self).wf(),
            final(self).extends(*old(self)),
            r.ptr_bits() < 0xffffff,
            old(self).failed() is Some ==> *final(self) == *old(self),
            final(self).failed() is None ==> is_numeral(final(self).book().names_view(), final(self).heap_of(), r, n as nat),
            final(self).failed() is None ==> cells_kept(old(self).heap_of(), final(self).heap_of()),
            old(self).failed() is None && nat_declared(old(self).book()) && old(self).heap_of().cell_room_count() >= n + 1 ==> final(self).failed() is None
                && r.polarity_of() == Polarity::Pos && final(self).heap_of().cell_room_count() == old(self).heap_of().cell_room_count() - (n + 1),
            final(self).head_view() == old(self).head_view(),
            final(self).equations_view() == old(self).equations_view(),
            final(self).heap_of().vars == old(self).heap_of().vars,
    {
        let mut cell = self.zero();
        let mut i: usize = 0;
        while i < n
            invariant
                self.wf(),
                self.extends(*old(self)),
                cell.ptr_bits() < 0xffffff,
                old(self).failed() is Some ==> *self == *old(self),
                i <= n,
                self.failed() is None ==> is_numeral(self.book().names_view(), self.heap_of(), cell, i as nat),
                self.failed() is None ==> cells_kept(old(self).heap_of(), self.heap_of()),
                self.head_view() == old(self).head_view(),
                self.equations_view() == old(self).equations_view(),
                self.heap_of().vars == old(self).heap_of().vars,
                old(self).failed() is None && nat_declared(old(self).book()) && old(self).heap_of().cell_room_count() >= n + 1
                    ==> self.failed() is None && cell.polarity_of() == Polarity::Pos && self.heap_of().cell_room_count()
                    == old(self).heap_of().cell_room_count() - (i + 1),
            decreases n - i,
        {
            let ghost mid = *self;
            let pred = cell;
            cell = self.succ(cell);
            proof {
                if self.failed() is None {
                    assert(is_numeral(mid.book().names_view(), mid.heap_of(), pred, i as nat));
                }
            }
            i = i + 1;
        }
        cell
    }
}

} // verus!
