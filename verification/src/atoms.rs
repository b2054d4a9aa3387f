//! The mutable cells of the language. A cell lives in a store and a value refers to it by
//! its index, so that every copy of the value sees the same contents.
use crate::types::{views, MalValue, Val};
use vstd::prelude::*;

verus! {

/// The store of all mutable cells.
#[derive(Debug)]
pub struct Atoms {
    cells: Vec<MalValue>,
}

impl View for Atoms {
    type V = Seq<Val>;

    closed spec fn view(&self) -> Seq<Val> {
        views(self.cells@)
    }
}

/// The contents of the cell `cell`; `nil` where the store has no such cell.
pub open spec fn cell_get(atoms: Seq<Val>, cell: usize) -> Val {
    if cell < atoms.len() {
        atoms[cell as int]
    } else {
        Val::nil()
    }
}

/// The store after `value` was put into the cell `cell`; unchanged where there is no such
/// cell.
pub open spec fn cell_set(atoms: Seq<Val>, cell: usize, value: Val) -> Seq<Val> {
    if cell < atoms.len() {
        atoms.update(cell as int, value)
    } else {
        atoms
    }
}

impl Atoms {
    /// A store without cells.
    pub fn new() -> (r: Atoms)
        ensures
            r@ == Seq::<Val>::empty(),
    {
        let r = Atoms { cells: Vec::new() };
        assert(r@ =~= Seq::<Val>::empty());
        r
    }

    /// The number of cells.
    pub fn len(&self) -> (r: usize)
        ensures
            r == self@.len(),
    {
        self.cells.len()
    }

    /// Makes a new cell that holds `value` and gives the value that refers to it.
    pub fn new_cell(&mut self, value: MalValue) -> (r: MalValue)
        ensures
            final(self)@ == old(self)@.push(value@),
            r@ == Val::plain(crate::types::Kind::Atom(old(self)@.len() as usize)),
    {
        let cell = self.cells.len();
        self.cells.push(value);
        assert(self@ =~= old(self)@.push(value@));
        MalValue::new_atom(cell)
    }

    /// The contents of a cell.
    pub fn get(&self, cell: usize) -> (r: MalValue)
        ensures
            r@ == cell_get(self@, cell),
    {
        if cell < self.cells.len() {
            self.cells[cell].clone()
        } else {
            MalValue::nil()
        }
    }

    /// Replaces the contents of a cell.
    pub fn set(&mut self, cell: usize, value: MalValue)
        ensures
            final(self)@ == cell_set(old(self)@, cell, value@),
    {
        if cell < self.cells.len() {
            self.cells.set(cell, value);
            assert(self@ =~= cell_set(old(self)@, cell, value@));
        }
    }
}

} // verus!
