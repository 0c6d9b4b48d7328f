//! The heap of a net or of a rule set: its cells and its variables.
use vstd::prelude::*;
use vstd::string::StringExecFns;

use crate::arena::Arena;
use crate::arenaraw::{RawArena, FREE_SIZE};
use crate::cell::{Cell, CellPtr, Cells, CELL_INDEX_LIMIT};
use crate::rule::{port_valid, PortNum};
use crate::symbol::{last_index_of, SymbolArity, SymbolBook, SymbolName, SymbolPtr};
use crate::BuildError;
use crate::term::{TermFamily, TermKind, TermPtr};
use crate::text;
use crate::var::{PVarPtr, Var, VarPtr, Vars, VAR_INDEX_LIMIT};

verus! {

/// `new` is `old` with a value `v` stored at `index`: either a free slot of
/// `old` or a new slot at its end.
pub open spec fn slot_filled<T>(old: Seq<Option<T>>, new: Seq<Option<T>>, index: nat, v: T) -> bool {
    ||| (index < old.len() && old[index as int] is None && new == old.update(index as int, Some(v)))
    ||| (index == old.len() && new == old.push(Some(v)))
}

/// Filling a slot keeps every value of the other slots.
pub proof fn lemma_slot_filled<T>(old: Seq<Option<T>>, new: Seq<Option<T>>, index: nat, v: T)
    requires
        slot_filled(old, new, index, v),
    ensures
        new.len() >= old.len(),
        index < new.len(),
        new[index as int] == Some(v),
        index < old.len() ==> old[index as int] is None,
        forall|i: int| 0 <= i < old.len() && i != index ==> #[trigger] new[i] == old[i],
{
}

/// `new` holds every cell of `old`, in the same slots.
pub open spec fn cells_kept<T: TermFamily>(old: Heap<T>, new: Heap<T>) -> bool {
    &&& new.cells_view().len() >= old.cells_view().len()
    &&& forall|i: int|
        0 <= i < old.cells_view().len() && old.cells_view()[i] is Some ==> #[trigger] new.cells_view()[i]
            == old.cells_view()[i]
}

/// Adding a cell keeps the others.
pub proof fn lemma_cell_added_keeps<T: TermFamily>(old: Heap<T>, new: Heap<T>, r: CellPtr, sym: SymbolPtr)
    requires
        cell_added(old, new, r, sym),
    ensures
        cells_kept(old, new),
{
    lemma_slot_filled(old.cells_view(), new.cells_view(), r.index_of(), new.cell_at(r));
}

/// `new` is `old` with one more cell, at `r`, whose symbol is `sym`; the
/// variables are the same.
pub open spec fn cell_added<T: TermFamily>(old: Heap<T>, new: Heap<T>, r: CellPtr, sym: SymbolPtr) -> bool {
    &&& new.wf()
    &&& slot_filled(old.cells_view(), new.cells_view(), r.index_of(), new.cell_at(r))
    &&& new.has_cell(r)
    &&& new.cell_at(r).symbol_of() == sym
    &&& new.cell_at(r).wf()
    &&& new.vars == old.vars
    &&& new.cells.capacity_spec() == old.cells.capacity_spec()
    &&& new.cell_room_count() == old.cell_room_count() - 1
    &&& r.polarity_of() == sym.polarity_of()
    &&& r.wf()
    &&& r.ptr_bits() < 0xffffff
}

/// A term word that fits a port of a cell.
pub open spec fn port_word(t: TermPtr) -> bool {
    t.0 >> 25u8 == 0 && t.ptr_bits() < 0x1ffffff
}

/// Why a cell of the symbol named `name` and no port cannot be made in
/// `heap`, if it cannot.
pub open spec fn cell0_error<T: TermFamily>(book: &SymbolBook, heap: Heap<T>, name: Seq<char>) -> Option<BuildError> {
    match last_index_of(book.names_view(), name) {
        None => Some(BuildError::UnknownSymbol),
        Some(i) => if !heap.cell_room() {
            Some(BuildError::OutOfRoom)
        } else {
            None
        },
    }
}

/// Why a cell of the symbol named `name` with `port` in its first port
/// cannot be made in `heap`, if it cannot: the name must be declared, the
/// symbol must have a port of the opposite polarity to the term's, the term
/// must fit a port and the heap must have room.
pub open spec fn cell1_error<T: TermFamily>(book: &SymbolBook, heap: Heap<T>, name: Seq<char>, port: TermPtr) -> Option<BuildError> {
    match last_index_of(book.names_view(), name) {
        None => Some(BuildError::UnknownSymbol),
        Some(i) => {
            let sym = book.symbols_view()[i as int];
            if sym.arity_of() == SymbolArity::Zero {
                Some(BuildError::MissingPort)
            } else if port.polarity_of() == sym.left_of() {
                Some(BuildError::ShortCircuit)
            } else if !port_word(port) {
                Some(BuildError::BadTerm)
            } else if !heap.cell_room() {
                Some(BuildError::OutOfRoom)
            } else {
                None
            }
        },
    }
}

/// Why a cell of the symbol named `name` with `left` and `right` in its
/// ports cannot be made in `heap`, if it cannot: the name must be declared,
/// the symbol must have two ports, each of the opposite polarity to its
/// term's (checked left first), the terms must fit ports and the heap must
/// have room.
pub open spec fn cell2_error<T: TermFamily>(book: &SymbolBook, heap: Heap<T>, name: Seq<char>, left: TermPtr, right: TermPtr) -> Option<BuildError> {
    match last_index_of(book.names_view(), name) {
        None => Some(BuildError::UnknownSymbol),
        Some(i) => {
            let sym = book.symbols_view()[i as int];
            if sym.arity_of() == SymbolArity::Zero {
                Some(BuildError::MissingPort)
            } else if left.polarity_of() == sym.left_of() {
                Some(BuildError::ShortCircuit)
            } else if sym.arity_of() != SymbolArity::Two {
                Some(BuildError::MissingPort)
            } else if right.polarity_of() == sym.right_of() {
                Some(BuildError::ShortCircuit)
            } else if !port_word(left) || !port_word(right) {
                Some(BuildError::BadTerm)
            } else if !heap.cell_room() {
                Some(BuildError::OutOfRoom)
            } else {
                None
            }
        },
    }
}

/// The cells and the variables of a net or of a rule set.
pub struct Heap<T: TermFamily> {
    pub cells: Cells<T>,
    pub vars: Vars<T>,
}

impl<T: TermFamily> Heap<T> {
    /// Both arenas keep their invariants.
    pub open spec fn wf(&self) -> bool {
        &&& self.cells.wf()
        &&& self.vars.wf()
    }

    /// What each cell slot holds.
    pub open spec fn cells_view(&self) -> Seq<Option<Cell<T>>> {
        self.cells.view()
    }

    /// What each variable slot holds.
    pub open spec fn vars_view(&self) -> Seq<Option<Var<T>>> {
        self.vars.view()
    }

    /// A new cell can be stored.
    pub open spec fn cell_room(&self) -> bool {
        ||| self.cells.free_list().len() > 0
        ||| (self.cells.view().len() < self.cells.capacity_spec() && self.cells.view().len()
            < CELL_INDEX_LIMIT)
    }

    /// How many new cells can be stored: the free slots, and the slots that
    /// can still be added below the capacity and the index limit.
    pub open spec fn cell_room_count(&self) -> int {
        let len = self.cells_view().len() as int;
        let top = if self.cells.capacity_spec() < CELL_INDEX_LIMIT {
            self.cells.capacity_spec() as int
        } else {
            CELL_INDEX_LIMIT as int
        };
        self.cells.free_list().len() + if len < top {
            top - len
        } else {
            0
        }
    }

    /// A new variable can be stored.
    pub open spec fn var_room(&self) -> bool {
        self.vars.view().len() < VAR_INDEX_LIMIT
    }

    /// The cell slot of `ptr` holds a cell.
    pub open spec fn has_cell(&self, ptr: CellPtr) -> bool {
        &&& ptr.index_of() < self.cells_view().len()
        &&& self.cells_view()[ptr.index_of() as int] is Some
    }

    /// The cell that `ptr` points to.
    pub open spec fn cell_at(&self, ptr: CellPtr) -> Cell<T> {
        self.cells_view()[ptr.index_of() as int]->0
    }

    /// The variable slot `index` holds a variable.
    pub open spec fn has_var(&self, index: nat) -> bool {
        &&& index < self.vars_view().len()
        &&& self.vars_view()[index as int] is Some
    }

    /// The variable at `index`.
    pub open spec fn var_at(&self, index: nat) -> Var<T> {
        self.vars_view()[index as int]->0
    }

    /// An empty heap.
    pub fn new() -> (r: Self)
        ensures
            r.wf(),
            r.cells_view() == Seq::<Option<Cell<T>>>::empty(),
            r.vars_view() == Seq::<Option<Var<T>>>::empty(),
            r.cells.free_list() == Seq::<usize>::empty(),
            FREE_SIZE <= usize::MAX ==> r.cells.capacity_spec() == FREE_SIZE,
            FREE_SIZE > usize::MAX ==> r.cells.capacity_spec() == usize::MAX,
            r.cell_room_count() == CELL_INDEX_LIMIT,
            r.var_room(),
    {
        Self { cells: Cells::new(), vars: Vars::new() }
    }

    /// An empty heap for at most `cells_capacity` cell slots.
    pub fn with_capacity(cells_capacity: usize, vars_capacity: usize) -> (r: Heap<T>)
        ensures
            r.wf(),
            r.cells_view() == Seq::<Option<Cell<T>>>::empty(),
            r.vars_view() == Seq::<Option<Var<T>>>::empty(),
            r.cells.capacity_spec() == cells_capacity,
            r.cells.free_list() == Seq::<usize>::empty(),
    {
        Self { cells: Cells::with_capacity(cells_capacity), vars: Vars::with_capacity(vars_capacity) }
    }

    /// Whether a new cell can be stored.
    pub fn can_store_cell(&self) -> (r: bool)
        ensures
            r == self.cell_room(),
            r == (self.cell_room_count() > 0),
    {
        self.cells.free_count() > 0 || (self.cells.slots() < self.cells.capacity()
            && self.cells.slots() < CELL_INDEX_LIMIT)
    }

    /// Whether a new variable can be stored.
    pub fn can_store_var(&self) -> (r: bool)
        ensures
            r == self.var_room(),
    {
        self.vars.slots() < VAR_INDEX_LIMIT
    }

    fn store_cell(&mut self, cell: Cell<T>) -> (r: CellPtr)
        requires
            old(self).wf(),
            old(self).cell_room(),
        ensures
            final(self).wf(),
            final(self).vars == old(self).vars,
            slot_filled(old(self).cells_view(), final(self).cells_view(), r.index_of(), cell),
            cells_kept(*old(self), *final(self)),
            final(self).has_cell(r),
            r.polarity_of() == cell.symbol_of().polarity_of(),
            r.wf(),
            r.ptr_bits() < 0xffffff,
            final(self).cells.capacity_spec() == old(self).cells.capacity_spec(),
            old(self).cells.free_list().len() > 0 ==> final(self).cells.free_list() == old(
                self,
            ).cells.free_list().drop_last(),
            old(self).cells.free_list().len() == 0 ==> final(self).cells.free_list() == old(
                self,
            ).cells.free_list(),
            final(self).cell_room_count() == old(self).cell_room_count() - 1,
    {
        proof {
            self.cells.lemma_wf();
        }
        let ptr = self.cells.allocate(cell);
        proof {
            assert(ptr.index_of() < CELL_INDEX_LIMIT);
        }
        let r = cell.to_ptr(ptr.get_index());
        proof {
            assert(r.index_of() == ptr.index_of());
            lemma_slot_filled(old(self).cells_view(), self.cells_view(), r.index_of(), cell);
        }
        r
    }

    /// Stores a new cell of `symbol_ptr` without ports.
    pub fn cell0(&mut self, symbol_ptr: SymbolPtr) -> (r: CellPtr)
        requires
            old(self).wf(),
            old(self).cell_room(),
            symbol_ptr.wf(),
            symbol_ptr.0 >> 14u8 == 0,
        ensures
            final(self).wf(),
            final(self).vars == old(self).vars,
            final(self).cells.capacity_spec() == old(self).cells.capacity_spec(),
            slot_filled(old(self).cells_view(), final(self).cells_view(), r.index_of(), final(self).cell_at(r)),
            cells_kept(*old(self), *final(self)),
            final(self).has_cell(r),
            final(self).cell_at(r).symbol_of() == symbol_ptr,
            final(self).cell_at(r).wf(),
            r.polarity_of() == symbol_ptr.polarity_of(),
            r.wf(),
            r.ptr_bits() < 0xffffff,
            final(self).cell_room_count() == old(self).cell_room_count() - 1,
    {
        let cell0 = Cell::new0(symbol_ptr);
        self.store_cell(cell0)
    }

    /// Stores a new cell of `symbol_ptr` with `left_port` in its only port.
    pub fn cell1(&mut self, symbol_ptr: SymbolPtr, left_port: TermPtr) -> (r: CellPtr)
        requires
            old(self).wf(),
            old(self).cell_room(),
            symbol_ptr.wf(),
            symbol_ptr.0 >> 14u8 == 0,
            symbol_ptr.arity_of() == SymbolArity::One || symbol_ptr.arity_of() == SymbolArity::Two,
            left_port.0 >> 25u8 == 0,
            left_port.ptr_bits() < 0x1ffffff,
        ensures
            final(self).wf(),
            final(self).vars == old(self).vars,
            final(self).cells.capacity_spec() == old(self).cells.capacity_spec(),
            slot_filled(old(self).cells_view(), final(self).cells_view(), r.index_of(), final(self).cell_at(r)),
            cells_kept(*old(self), *final(self)),
            final(self).has_cell(r),
            final(self).cell_at(r).symbol_of() == symbol_ptr,
            final(self).cell_at(r).left_of() == left_port,
            final(self).cell_at(r).wf(),
            r.polarity_of() == symbol_ptr.polarity_of(),
            r.wf(),
            r.ptr_bits() < 0xffffff,
            final(self).cell_room_count() == old(self).cell_room_count() - 1,
    {
        let cell1 = Cell::new1(symbol_ptr, left_port);
        self.store_cell(cell1)
    }

    /// Stores a new cell of `symbol_ptr` with `left_port` and `right_port`.
    pub fn cell2(&mut self, symbol_ptr: &SymbolPtr, left_port: TermPtr, right_port: TermPtr) -> (r:
        CellPtr)
        requires
            old(self).wf(),
            old(self).cell_room(),
            symbol_ptr.wf(),
            symbol_ptr.0 >> 14u8 == 0,
            symbol_ptr.arity_of() == SymbolArity::Two,
            left_port.0 >> 25u8 == 0,
            left_port.ptr_bits() < 0x1ffffff,
            right_port.0 >> 25u8 == 0,
            right_port.ptr_bits() < 0x1ffffff,
        ensures
            final(self).wf(),
            final(self).vars == old(self).vars,
            final(self).cells.capacity_spec() == old(self).cells.capacity_spec(),
            slot_filled(old(self).cells_view(), final(self).cells_view(), r.index_of(), final(self).cell_at(r)),
            cells_kept(*old(self), *final(self)),
            final(self).has_cell(r),
            final(self).cell_at(r).symbol_of() == *symbol_ptr,
            final(self).cell_at(r).left_of() == left_port,
            final(self).cell_at(r).right_of() == right_port,
            final(self).cell_at(r).wf(),
            r.polarity_of() == symbol_ptr.polarity_of(),
            r.wf(),
            r.ptr_bits() < 0xffffff,
            final(self).cell_room_count() == old(self).cell_room_count() - 1,
    {
        let cell2 = Cell::new2(*symbol_ptr, left_port, right_port);
        self.store_cell(cell2)
    }

    /// Stores a new cell of the symbol last declared in `book` as `name`,
    /// without ports, or says why it cannot.
    pub fn try_cell0(&mut self, book: &SymbolBook, name: &SymbolName) -> (r: Result<CellPtr, BuildError>)
        requires
            old(self).wf(),
            book.wf(),
        ensures
            r matches Err(e) ==> cell0_error(book, *old(self), name.0@) == Some(e) && *final(self)
                == *old(self),
            r matches Ok(c) ==> {
                &&& cell0_error(book, *old(self), name.0@) is None
                &&& cell_added(*old(self), *final(self), c, final(self).cell_at(c).symbol_of())
                &&& last_index_of(book.names_view(), name.0@) == Some(final(self).cell_at(c).symbol_of().index_of())
                &&& book.ptr_at(final(self).cell_at(c).symbol_of(), final(self).cell_at(c).symbol_of().index_of())
            },
    {
        let symbol_ptr = match book.get_by_name(name) {
            Some(p) => p,
            None => {
                return Err(BuildError::UnknownSymbol);
            },
        };
        if !self.can_store_cell() {
            return Err(BuildError::OutOfRoom);
        }
        Ok(self.cell0(symbol_ptr))
    }

    /// Stores a new cell of the symbol last declared in `book` as `name`,
    /// with `port` in its first port, or says why it cannot.
    pub fn try_cell1(&mut self, book: &SymbolBook, name: &SymbolName, port: TermPtr) -> (r: Result<CellPtr, BuildError>)
        requires
            old(self).wf(),
            book.wf(),
        ensures
            r matches Err(e) ==> cell1_error(book, *old(self), name.0@, port) == Some(e) && *final(self)
                == *old(self),
            r matches Ok(c) ==> {
                &&& cell1_error(book, *old(self), name.0@, port) is None
                &&& cell_added(*old(self), *final(self), c, final(self).cell_at(c).symbol_of())
                &&& last_index_of(book.names_view(), name.0@) == Some(final(self).cell_at(c).symbol_of().index_of())
                &&& book.ptr_at(final(self).cell_at(c).symbol_of(), final(self).cell_at(c).symbol_of().index_of())
                &&& final(self).cell_at(c).left_of() == port
            },
    {
        proof {
            book.lemma_wf();
        }
        let symbol_ptr = match book.get_by_name(name) {
            Some(p) => p,
            None => {
                return Err(BuildError::UnknownSymbol);
            },
        };
        let symbol = book.get(symbol_ptr);
        match symbol.get_arity() {
            SymbolArity::Zero => {
                return Err(BuildError::MissingPort);
            },
            _ => {},
        }
        if !port.get_polarity().is_opposite(symbol.get_left_polarity()) {
            return Err(BuildError::ShortCircuit);
        }
        if !(port.0 >> 25u8 == 0 && port.get_ptr() < 0x1ffffff) {
            return Err(BuildError::BadTerm);
        }
        if !self.can_store_cell() {
            return Err(BuildError::OutOfRoom);
        }
        Ok(self.cell1(symbol_ptr, port))
    }

    /// Stores a new cell of the symbol last declared in `book` as `name`,
    /// with `left_port` and `right_port` in its ports, or says why it
    /// cannot.
    pub fn try_cell2(&mut self, book: &SymbolBook, name: &SymbolName, left_port: TermPtr, right_port: TermPtr) -> (r: Result<CellPtr, BuildError>)
        requires
            old(self).wf(),
            book.wf(),
        ensures
            r matches Err(e) ==> cell2_error(book, *old(self), name.0@, left_port, right_port) == Some(e)
                && *final(self) == *old(self),
            r matches Ok(c) ==> {
                &&& cell2_error(book, *old(self), name.0@, left_port, right_port) is None
                &&& cell_added(*old(self), *final(self), c, final(self).cell_at(c).symbol_of())
                &&& last_index_of(book.names_view(), name.0@) == Some(final(self).cell_at(c).symbol_of().index_of())
                &&& book.ptr_at(final(self).cell_at(c).symbol_of(), final(self).cell_at(c).symbol_of().index_of())
                &&& final(self).cell_at(c).left_of() == left_port
                &&& final(self).cell_at(c).right_of() == right_port
            },
    {
        proof {
            book.lemma_wf();
        }
        let symbol_ptr = match book.get_by_name(name) {
            Some(p) => p,
            None => {
                return Err(BuildError::UnknownSymbol);
            },
        };
        let symbol = book.get(symbol_ptr);
        match symbol.get_arity() {
            SymbolArity::Zero => {
                return Err(BuildError::MissingPort);
            },
            _ => {},
        }
        if !left_port.get_polarity().is_opposite(symbol.get_left_polarity()) {
            return Err(BuildError::ShortCircuit);
        }
        match symbol.get_arity() {
            SymbolArity::Two => {},
            _ => {
                return Err(BuildError::MissingPort);
            },
        }
        if !right_port.get_polarity().is_opposite(symbol.get_right_polarity()) {
            return Err(BuildError::ShortCircuit);
        }
        if !(left_port.0 >> 25u8 == 0 && left_port.get_ptr() < 0x1ffffff && right_port.0 >> 25u8 == 0
            && right_port.get_ptr() < 0x1ffffff) {
            return Err(BuildError::BadTerm);
        }
        if !self.can_store_cell() {
            return Err(BuildError::OutOfRoom);
        }
        Ok(self.cell2(&symbol_ptr, left_port, right_port))
    }

    /// The cell that `cell_ptr` points to, which must be held.
    pub fn get_cell<'a>(&'a self, cell_ptr: &'a CellPtr) -> (r: &'a Cell<T>)
        requires
            self.has_cell(*cell_ptr),
        ensures
            *r == self.cell_at(*cell_ptr),
    {
        let c = self.cells.get(cell_ptr);
        match c {
            Some(cell) => cell,
            None => vstd::pervasive::unreached(),
        }
    }

    /// Removes the cell that `cell_ptr` points to, which must be held, and
    /// gives it back.
    pub fn free_cell(&mut self, cell_ptr: CellPtr) -> (r: Cell<T>)
        requires
            old(self).wf(),
            old(self).has_cell(cell_ptr),
        ensures
            final(self).wf(),
            final(self).vars == old(self).vars,
            final(self).cells.capacity_spec() == old(self).cells.capacity_spec(),
            r == old(self).cell_at(cell_ptr),
            final(self).cells_view() == old(self).cells_view().update(cell_ptr.index_of() as int, None),
            final(self).cells.free_list() == old(self).cells.free_list().push(cell_ptr.index_of() as usize),
    {
        self.cells.free(cell_ptr)
    }

    /// Stores a new bound variable with store `store`.
    pub fn bvar(&mut self, store: T::BoundStore) -> (r: VarPtr)
        requires
            old(self).wf(),
            old(self).var_room(),
        ensures
            final(self).wf(),
            final(self).cells == old(self).cells,
            final(self).vars_view() == old(self).vars_view().push(Some(Var::<T>::Bound(store))),
            r.index_of() == old(self).vars_view().len(),
            r.wf(),
    {
        let ptr = self.vars.allocate(Var::Bound(store));
        VarPtr::new(ptr.get_index())
    }

    /// Stores a new free variable with store `store`.
    pub fn fvar(&mut self, store: T::FreeStore) -> (r: VarPtr)
        requires
            old(self).wf(),
            old(self).var_room(),
        ensures
            final(self).wf(),
            final(self).cells == old(self).cells,
            final(self).vars_view() == old(self).vars_view().push(Some(Var::<T>::Free(store))),
            r.index_of() == old(self).vars_view().len(),
            r.wf(),
    {
        let ptr = self.vars.allocate(Var::Free(store));
        VarPtr::new(ptr.get_index())
    }

    /// The variable of the end `var_ptr`, which must be held.
    pub fn get_var<'a>(&'a self, var_ptr: &'a PVarPtr) -> (r: &'a Var<T>)
        requires
            self.has_var(var_ptr.index_of()),
        ensures
            *r == self.var_at(var_ptr.index_of()),
    {
        match self.vars.get(var_ptr.get_fvar_ptr()) {
            Some(var) => var,
            None => vstd::pervasive::unreached(),
        }
    }

    /// Replaces the variable of the end `var_ptr`, which must be held.
    pub fn set_var(&mut self, var_ptr: &PVarPtr, var: Var<T>)
        requires
            old(self).wf(),
            old(self).has_var(var_ptr.index_of()),
        ensures
            final(self).wf(),
            final(self).cells == old(self).cells,
            final(self).vars_view() == old(self).vars_view().update(var_ptr.index_of() as int, Some(var)),
    {
        let ignored = self.vars.update(var_ptr.get_fvar_ptr(), var);
    }

    /// Removes the variable of the end `var_ptr`, which must be held, and
    /// gives it back.
    pub fn free_var(&mut self, var_ptr: PVarPtr) -> (r: Var<T>)
        requires
            old(self).wf(),
            old(self).has_var(var_ptr.index_of()),
        ensures
            final(self).wf(),
            final(self).cells == old(self).cells,
            r == old(self).var_at(var_ptr.index_of()),
            final(self).vars_view() == old(self).vars_view().update(var_ptr.index_of() as int, None),
    {
        match self.vars.free(var_ptr.get_fvar_ptr()) {
            Some(var) => var,
            None => vstd::pervasive::unreached(),
        }
    }

    /// The heap with the book of its symbols, ready to be shown.
    pub fn display<'a>(&'a self, symbols: &'a SymbolBook) -> (r: HeapDisplay<'a, T>)
        ensures
            r.symbols == symbols,
            r.heap == self,
    {
        HeapDisplay { symbols: symbols, heap: &self }
    }

    /// The cell `cell_ptr` with the book of its symbols, ready to be shown.
    pub fn display_cell<'a>(&'a self, symbols: &'a SymbolBook, cell_ptr: &'a CellPtr) -> (r: CellDisplay<'a, T>)
        ensures
            r.symbols == symbols,
            r.heap == self,
            r.cell_ptr == cell_ptr,
    {
        CellDisplay { cell_ptr, symbols: symbols, heap: &self }
    }

    /// The term `term_ptr` with the book of its symbols, ready to be shown.
    pub fn display_term<'a>(&'a self, symbols: &'a SymbolBook, term_ptr: TermPtr) -> (r: TermDisplay<'a, T>)
        ensures
            r.symbols == symbols,
            r.heap == self,
            r.term_ptr == term_ptr,
    {
        TermDisplay { term_ptr: term_ptr, symbols: symbols, heap: &self }
    }

    /// The variable `var_ptr` with the book of its symbols, ready to be shown.
    pub fn display_var<'a>(&'a self, symbols: &'a SymbolBook, var_ptr: VarPtr) -> (r: VarDisplay<'a, T>)
        ensures
            r.symbols == symbols,
            r.heap == self,
            r.var_ptr == var_ptr,
    {
        VarDisplay { var_ptr, symbols: symbols, heap: &self }
    }

    /// The text of the variable `var_ptr`, if it is held.
    pub fn var_string(&self, symbols: &SymbolBook, var_ptr: VarPtr) -> (r: Option<String>)
        ensures
            r is None <==> var_text(self, var_ptr) is None,
            r matches Some(s) ==> var_text(self, var_ptr) == Some(s@),
    {
        match self.vars.get(var_ptr) {
            Some(var) => Some(T::display_store(symbols, self, var, var_ptr.get_index())),
            None => None,
        }
    }

    /// The text of the term `term_ptr`, following at most `fuel` cells deep.
    pub fn term_string(&self, symbols: &SymbolBook, term_ptr: TermPtr, fuel: usize) -> (r: Option<String>)
        requires
            symbols.wf(),
        ensures
            r is None <==> term_text(self, symbols, term_ptr, fuel as nat) is None,
            r matches Some(s) ==> term_text(self, symbols, term_ptr, fuel as nat) == Some(s@),
        decreases fuel, 1nat,
    {
        match term_ptr.get_kind() {
            TermKind::Cell => self.cell_string(symbols, term_ptr.get_cell_ptr(), fuel),
            TermKind::Var => self.var_string(symbols, term_ptr.get_var_ptr()),
        }
    }

    /// The text of the cell `cell_ptr`, following at most `fuel` cells deep.
    pub fn cell_string(&self, symbols: &SymbolBook, cell_ptr: CellPtr, fuel: usize) -> (r: Option<String>)
        requires
            symbols.wf(),
        ensures
            r is None <==> cell_text(self, symbols, cell_ptr, fuel as nat) is None,
            r matches Some(s) ==> cell_text(self, symbols, cell_ptr, fuel as nat) == Some(s@),
        decreases fuel, 0nat,
    {
        proof {
            reveal_strlit("(");
            reveal_strlit(")");
            reveal_strlit(" ");
            symbols.lemma_wf();
        }
        if fuel == 0 {
            return None;
        }
        let cell = match self.cells.get_checked(&cell_ptr) {
            Some(c) => *c,
            None => {
                return None;
            },
        };
        let symbol_ptr = cell.get_symbol_ptr();
        if symbol_ptr.0 >> 12u8 & 3 > 2 {
            return None;
        }
        let name = match symbols.get_name(symbol_ptr) {
            Some(n) => n,
            None => {
                return None;
            },
        };
        match symbol_ptr.get_arity() {
            SymbolArity::Zero => Some(name.to_string()),
            SymbolArity::One => {
                let port = match self.term_string(symbols, cell.get_left_port(), fuel - 1) {
                    Some(p) => p,
                    None => {
                        return None;
                    },
                };
                let mut s = text::lit("(");
                s.append(name.0);
                s.append(" ");
                s.append(port.as_str());
                s.append(")");
                Some(s)
            },
            SymbolArity::Two => {
                let left = match self.term_string(symbols, cell.get_left_port(), fuel - 1) {
                    Some(p) => p,
                    None => {
                        return None;
                    },
                };
                let right = match self.term_string(symbols, cell.get_right_port(), fuel - 1) {
                    Some(p) => p,
                    None => {
                        return None;
                    },
                };
                let mut s = text::lit("(");
                s.append(name.0);
                s.append(" ");
                s.append(left.as_str());
                s.append(" ");
                s.append(right.as_str());
                s.append(")");
                Some(s)
            },
        }
    }
}

/// The text of the variable `v`, if its slot holds one.
pub open spec fn var_text<T: TermFamily>(heap: &Heap<T>, v: VarPtr) -> Option<Seq<char>> {
    if heap.has_var(v.index_of()) {
        Some(T::store_text(heap.var_at(v.index_of()), v.index_of()))
    } else {
        None
    }
}

/// The text of the term `t`, following at most `fuel` cells deep; nothing
/// where a cell or a variable is missing, a symbol has no name, or the
/// fuel runs out.
pub open spec fn term_text<T: TermFamily>(heap: &Heap<T>, symbols: &SymbolBook, t: TermPtr, fuel: nat) -> Option<Seq<char>>
    decreases fuel, 1nat,
{
    if t.kind_of() == TermKind::Cell {
        cell_text(heap, symbols, CellPtr(t.term_bits()), fuel)
    } else {
        var_text(heap, VarPtr(t.term_bits()))
    }
}

/// The text of the cell `c`: its symbol's name, with the texts of its ports
/// in parentheses when it has ports.
pub open spec fn cell_text<T: TermFamily>(heap: &Heap<T>, symbols: &SymbolBook, c: CellPtr, fuel: nat) -> Option<Seq<char>>
    decreases fuel, 0nat,
{
    if fuel == 0 || !heap.has_cell(c) {
        None
    } else {
        let cell = heap.cell_at(c);
        let sym = cell.symbol_of();
        if !sym.wf() || sym.index_of() >= symbols.names_view().len() {
            None
        } else {
            let name = symbols.names_view()[sym.index_of() as int];
            match sym.arity_of() {
                SymbolArity::Zero => Some(name),
                SymbolArity::One => match term_text(heap, symbols, cell.left_of(), (fuel - 1) as nat) {
                    Some(p) => Some(seq!['('] + name + seq![' '] + p + seq![')']),
                    None => None,
                },
                SymbolArity::Two => match term_text(heap, symbols, cell.left_of(), (fuel - 1) as nat) {
                    Some(l) => match term_text(heap, symbols, cell.right_of(), (fuel - 1) as nat) {
                        Some(r) => Some(seq!['('] + name + seq![' '] + l + seq![' '] + r + seq![')']),
                        None => None,
                    },
                    None => None,
                },
            }
        }
    }
}

/// A heap with its symbols, shown as nothing.
pub struct HeapDisplay<'a, T: TermFamily> {
    pub symbols: &'a SymbolBook,
    pub heap: &'a Heap<T>,
}

impl<'a, T: TermFamily> HeapDisplay<'a, T> {
    /// The empty text.
    pub fn to_string(&self) -> (r: String)
        ensures
            r@ == Seq::<char>::empty(),
    {
        String::new()
    }
}

/// A term of a heap with its symbols, ready to be shown.
pub struct TermDisplay<'a, T: TermFamily> {
    pub term_ptr: TermPtr,
    pub symbols: &'a SymbolBook,
    pub heap: &'a Heap<T>,
}

impl<'a, T: TermFamily> TermDisplay<'a, T> {
    /// The cell's text or the variable's text; every cell reached must be
    /// held and named.
    pub fn to_string(&self) -> (r: String)
        requires
            self.symbols.wf(),
            term_text(self.heap, self.symbols, self.term_ptr, self.heap.cells_view().len()) is Some,
        ensures
            Some(r@) == term_text(self.heap, self.symbols, self.term_ptr, self.heap.cells_view().len()),
    {
        match self.heap.term_string(self.symbols, self.term_ptr, self.heap.cells.slots()) {
            Some(s) => s,
            None => vstd::pervasive::unreached(),
        }
    }
}

/// A cell of a heap with its symbols, ready to be shown.
pub struct CellDisplay<'a, T: TermFamily> {
    pub cell_ptr: &'a CellPtr,
    pub symbols: &'a SymbolBook,
    pub heap: &'a Heap<T>,
}

impl<'a, T: TermFamily> CellDisplay<'a, T> {
    /// The symbol's name, with the texts of the ports in parentheses when
    /// the cell has ports; every cell reached must be held and named.
    pub fn to_string(&self) -> (r: String)
        requires
            self.symbols.wf(),
            cell_text(self.heap, self.symbols, *self.cell_ptr, self.heap.cells_view().len()) is Some,
        ensures
            Some(r@) == cell_text(self.heap, self.symbols, *self.cell_ptr, self.heap.cells_view().len()),
    {
        match self.heap.cell_string(self.symbols, *self.cell_ptr, self.heap.cells.slots()) {
            Some(s) => s,
            None => vstd::pervasive::unreached(),
        }
    }
}

/// A variable of a heap with its symbols, ready to be shown.
pub struct VarDisplay<'a, T: TermFamily> {
    pub var_ptr: VarPtr,
    pub symbols: &'a SymbolBook,
    pub heap: &'a Heap<T>,
}

impl<'a, T: TermFamily> VarDisplay<'a, T> {
    /// The variable as its family shows it; it must be held.
    pub fn to_string(&self) -> (r: String)
        requires
            var_text(self.heap, self.var_ptr) is Some,
        ensures
            Some(r@) == var_text(self.heap, self.var_ptr),
    {
        match self.heap.var_string(self.symbols, self.var_ptr) {
            Some(s) => s,
            None => vstd::pervasive::unreached(),
        }
    }
}


/// A cell is shown by its symbol's name, alone when the symbol has no
/// port, else in parentheses followed by the texts of its ports, left port
/// first.
pub proof fn law_cell_text_shows_its_ports_in_order<T: TermFamily>(
    heap: &Heap<T>,
    symbols: &SymbolBook,
    c: CellPtr,
    fuel: nat,
    l: Seq<char>,
    r: Seq<char>,
)
    requires
        fuel > 0,
        heap.has_cell(c),
        heap.cell_at(c).symbol_of().wf(),
        heap.cell_at(c).symbol_of().index_of() < symbols.names_view().len(),
    ensures
        ({
            let cell = heap.cell_at(c);
            let name = symbols.names_view()[cell.symbol_of().index_of() as int];
            &&& cell.symbol_of().arity_of() == SymbolArity::Zero ==> cell_text(heap, symbols, c, fuel) == Some(name)
            &&& cell.symbol_of().arity_of() == SymbolArity::One && term_text(heap, symbols, cell.left_of(), (fuel - 1) as nat)
                == Some(l) ==> cell_text(heap, symbols, c, fuel) == Some(seq!['('] + name + seq![' '] + l + seq![')'])
            &&& cell.symbol_of().arity_of() == SymbolArity::Two && term_text(heap, symbols, cell.left_of(), (fuel - 1) as nat)
                == Some(l) && term_text(heap, symbols, cell.right_of(), (fuel - 1) as nat) == Some(r) ==> cell_text(
                heap,
                symbols,
                c,
                fuel,
            ) == Some(seq!['('] + name + seq![' '] + l + seq![' '] + r + seq![')'])
        }),
{
}

} // verus!
