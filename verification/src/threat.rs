//! A per-square boolean board, used to record which squares a side can
//! attack.

use vstd::prelude::*;
use crate::location::{loc_index, Location};

verus! {

/// An 8x8 board of booleans: `true` marks a square as under attack.
#[derive(Debug)]
pub struct ThreadBoard {
    cells: Vec<bool>,
}

impl View for ThreadBoard {
    type V = Seq<bool>;

    closed spec fn view(&self) -> Seq<bool> {
        self.cells@
    }
}

impl ThreadBoard {
    /// A threat board always has exactly 64 cells.
    pub open spec fn wf(self) -> bool {
        self@.len() == 64
    }

    /// Creates a board with no square marked.
    pub fn new() -> (r: ThreadBoard)
        ensures
            r.wf(),
            r@.len() == 64,
            forall|i: int| 0 <= i < 64 ==> !r@[i],
    {
        let mut cells: Vec<bool> = Vec::new();
        let mut i: usize = 0;
        while i < 64
            invariant
                i <= 64,
                cells@.len() == i,
                forall|j: int| 0 <= j < i ==> !cells@[j],
            decreases 64 - i,
        {
            cells.push(false);
            i = i + 1;
        }
        ThreadBoard { cells }
    }

    /// Whether the given square is marked.
    pub fn get(&self, loc: Location) -> (r: bool)
        requires
            self.wf(),
        ensures
            r == self@[loc_index(loc)],
    {
        self.cells[loc.to_bit_index()]
    }

    /// Marks or clears the given square.
    pub fn set(&mut self, loc: Location, value: bool)
        requires
            old(self).wf(),
        ensures
            final(self).wf(),
            final(self)@ == old(self)@.update(loc_index(loc), value),
    {
        let i = loc.to_bit_index();
        self.cells.set(i, value);
    }

    /// The rows of the board, top rank first — the order a renderer
    /// prints them in.
    pub fn iter(&self) -> (r: Vec<Vec<bool>>)
        requires
            self.wf(),
        ensures
            r@.len() == 8,
            forall|ri: int, fi: int|
                0 <= ri < 8 && 0 <= fi < 8 ==> #[trigger] r@[ri]@[fi] == self@[8 * (7 - ri) + fi]
                    && r@[ri]@.len() == 8,
    {
        let mut rows: Vec<Vec<bool>> = Vec::new();
        let mut ri: usize = 0;
        while ri < 8
            invariant
                self@.len() == 64,
                ri <= 8,
                rows@.len() == ri,
                forall|r2: int, fi: int|
                    0 <= r2 < ri && 0 <= fi < 8 ==> #[trigger] rows@[r2]@[fi] == self@[8 * (7 - r2)
                        + fi] && rows@[r2]@.len() == 8,
            decreases 8 - ri,
        {
            let mut row: Vec<bool> = Vec::new();
            let mut fi: usize = 0;
            while fi < 8
                invariant
                    self@.len() == 64,
                    ri < 8,
                    fi <= 8,
                    row@.len() == fi,
                    forall|f2: int|
                        0 <= f2 < fi ==> #[trigger] row@[f2] == self@[8 * (7 - ri) + f2],
                decreases 8 - fi,
            {
                row.push(self.cells[8 * (7 - ri) + fi]);
                fi = fi + 1;
            }
            rows.push(row);
            ri = ri + 1;
        }
        rows
    }

    /// Clears every square.
    pub fn reset(&mut self)
        requires
            old(self).wf(),
        ensures
            final(self).wf(),
            final(self)@.len() == 64,
            forall|i: int| 0 <= i < 64 ==> !final(self)@[i],
    {
        let mut cells: Vec<bool> = Vec::new();
        let mut i: usize = 0;
        while i < 64
            invariant
                i <= 64,
                cells@.len() == i,
                forall|j: int| 0 <= j < i ==> !cells@[j],
            decreases 64 - i,
        {
            cells.push(false);
            i = i + 1;
        }
        self.cells = cells;
    }
}

} // verus!
