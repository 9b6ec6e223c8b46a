//! The 5x5 cell matrix shared by the display, the automaton and the game.

use vstd::prelude::*;

verus! {

/// A fixed 5x5 matrix of cell values, stored row-major.
///
/// For the automaton every cell is 0 (dead) or 1 (alive); for the display a
/// cell is a brightness level 0..=9. The dimensions never change: the matrix
/// always holds exactly 25 cells.
#[derive(Clone, Copy)]
pub struct Grid {
    cells: [u8; 25],
}

/// Every grid holds exactly 25 cells.
pub broadcast proof fn lemma_grid_len(g: Grid)
    ensures
        #[trigger] g@.len() == 25,
{
}

/// True when every cell of `s` is 0 or 1 (an automaton grid).
pub open spec fn is_binary(s: Seq<u8>) -> bool {
    forall|i: int| 0 <= i < s.len() ==> s[i] == 0 || s[i] == 1
}

impl Grid {
    /// The grid as a row-major sequence of 25 cell values.
    pub closed spec fn view(&self) -> Seq<u8> {
        self.cells@
    }

    /// The cell in row `r`, column `c`.
    pub open spec fn cell(&self, r: int, c: int) -> u8
        recommends
            0 <= r < 5,
            0 <= c < 5,
    {
        self@[r * 5 + c]
    }

    /// The all-dead (all-dark) grid.
    pub fn new() -> (g: Grid)
        ensures
            g@ == Seq::new(25nat, |i: int| 0u8),
            g@.len() == 25,
    {
        let g = Grid { cells: [0u8; 25] };
        proof {
            assert(g@ =~= Seq::new(25nat, |i: int| 0u8));
        }
        g
    }

    /// Read the cell in row `r`, column `c`.
    pub fn get(&self, r: usize, c: usize) -> (v: u8)
        requires
            r < 5,
            c < 5,
        ensures
            v == self.cell(r as int, c as int),
    {
        self.cells[r * 5 + c]
    }

    /// Write the cell in row `r`, column `c`.
    pub fn set(&mut self, r: usize, c: usize, v: u8)
        requires
            r < 5,
            c < 5,
        ensures
            final(self)@ == old(self)@.update(r * 5 + c, v),
            final(self)@.len() == 25,
    {
        self.cells[r * 5 + c] = v;
    }
}

} // verus!
