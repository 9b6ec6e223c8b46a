//! The generational cellular automaton: next-generation stepping under the
//! standard neighbor-count rule, stability detection, pixel-wise complement,
//! clearing, and random (re)population of the grid.

use vstd::prelude::*;
use vstd::arithmetic::div_mod::lemma_fundamental_div_mod;
use crate::grid::{Grid, is_binary, lemma_grid_len};
use crate::rng::rand_in_range;
use nanorand::rand::pcg64::Pcg64;

verus! {

broadcast use lemma_grid_len;

/// True when row `r`, column `c` lies on the board and holds a live cell.
/// Cells outside the 5x5 bound count as dead: edges do not wrap.
pub open spec fn live(s: Seq<u8>, r: int, c: int) -> bool {
    0 <= r < 5 && 0 <= c < 5 && s[r * 5 + c] == 1
}

/// 1 when row `r`, column `c` holds a live cell, else 0.
pub open spec fn live_as_int(s: Seq<u8>, r: int, c: int) -> int {
    if live(s, r, c) {
        1int
    } else {
        0int
    }
}

/// How many of the 8 cells adjacent to row `r`, column `c` are alive.
pub open spec fn neighbor_count(s: Seq<u8>, r: int, c: int) -> int {
    live_as_int(s, r - 1, c - 1) + live_as_int(s, r - 1, c) + live_as_int(s, r - 1, c + 1)
        + live_as_int(s, r, c - 1) + live_as_int(s, r, c + 1) + live_as_int(s, r + 1, c - 1)
        + live_as_int(s, r + 1, c) + live_as_int(s, r + 1, c + 1)
}

/// The next generation of the cell at row `r`, column `c`: a live cell with
/// 2 or 3 live neighbors survives, a dead cell with exactly 3 is born, and
/// every other cell is dead.
pub open spec fn next_cell(s: Seq<u8>, r: int, c: int) -> u8 {
    let n = neighbor_count(s, r, c);
    if live(s, r, c) {
        if n == 2 || n == 3 {
            1u8
        } else {
            0u8
        }
    } else {
        if n == 3 {
            1u8
        } else {
            0u8
        }
    }
}

/// The next generation of the whole grid.
pub open spec fn step_spec(s: Seq<u8>) -> Seq<u8> {
    Seq::new(25nat, |i: int| next_cell(s, i / 5, i % 5))
}

/// A grid is terminal when it repeats itself under stepping: it is a fixed
/// point of the automaton (the all-dead grid included) or it oscillates
/// with period two, the only oscillation a single snapshot can witness.
pub open spec fn terminal_spec(s: Seq<u8>) -> bool {
    step_spec(s) == s || step_spec(step_spec(s)) == s
}

/// Every cell of `s` flipped in its least-significant bit.
pub open spec fn complement_spec(s: Seq<u8>) -> Seq<u8> {
    Seq::new(s.len(), |i: int| s[i] ^ 1)
}

/// 1 when the cell at row `r`, column `c` of `g` is alive, else 0. Positions
/// off the board count as dead.
fn live_at(g: &Grid, r: i32, c: i32) -> (b: u8)
    ensures
        b == live_as_int(g@, r as int, c as int),
{
    if 0 <= r && r < 5 && 0 <= c && c < 5 {
        if g.get(r as usize, c as usize) == 1 {
            1
        } else {
            0
        }
    } else {
        0
    }
}

/// Count the live cells among the 8 neighbors of row `r`, column `c`.
fn neighbors(g: &Grid, r: usize, c: usize) -> (n: u8)
    requires
        r < 5,
        c < 5,
    ensures
        n == neighbor_count(g@, r as int, c as int),
{
    let ri = r as i32;
    let ci = c as i32;
    let n: u8 = live_at(g, ri - 1, ci - 1) + live_at(g, ri - 1, ci) + live_at(g, ri - 1, ci + 1)
        + live_at(g, ri, ci - 1) + live_at(g, ri, ci + 1) + live_at(g, ri + 1, ci - 1)
        + live_at(g, ri + 1, ci) + live_at(g, ri + 1, ci + 1);
    n
}

/// Compute the next generation of `g` under the neighbor-count rule. The
/// result depends on the cells of `g` alone.
pub fn step(g: &Grid) -> (out: Grid)
    ensures
        out@ == step_spec(g@),
        is_binary(out@),
{
    let mut out = Grid::new();
    let mut idx: usize = 0;
    while idx < 25
        invariant
            idx <= 25,
            out@.len() == 25,
            forall|j: int| 0 <= j < idx ==> out@[j] == step_spec(g@)[j],
        decreases 25 - idx,
    {
        let r = idx / 5;
        let c = idx % 5;
        proof {
            lemma_fundamental_div_mod(idx as int, 5);
        }
        let n = neighbors(g, r, c);
        let cur = g.get(r, c);
        let v: u8 = if cur == 1 {
            if n == 2 || n == 3 {
                1
            } else {
                0
            }
        } else {
            if n == 3 {
                1
            } else {
                0
            }
        };
        out.set(r, c, v);
        idx = idx + 1;
    }
    proof {
        assert(out@ =~= step_spec(g@));
    }
    out
}

/// Compare two grids cell by cell.
fn grids_equal(a: &Grid, b: &Grid) -> (eq: bool)
    ensures
        eq == (a@ == b@),
{
    let mut idx: usize = 0;
    while idx < 25
        invariant
            idx <= 25,
            forall|j: int| 0 <= j < idx ==> a@[j] == b@[j],
        decreases 25 - idx,
    {
        let r = idx / 5;
        let c = idx % 5;
        proof {
            lemma_fundamental_div_mod(idx as int, 5);
        }
        if a.get(r, c) != b.get(r, c) {
            return false;
        }
        idx = idx + 1;
    }
    proof {
        assert(a@ =~= b@);
    }
    true
}

/// True when `g` has settled: stepping it once or twice gives the same
/// grid back. The main loop uses this only to lengthen the display dwell
/// time, never to stop stepping.
pub fn is_terminal(g: &Grid) -> (b: bool)
    ensures
        b == terminal_spec(g@),
{
    let next = step(g);
    if grids_equal(&next, g) {
        return true;
    }
    let again = step(&next);
    grids_equal(&again, g)
}

/// Flip the least-significant bit of every cell: the pixel-wise negation.
pub fn complement(leds: &mut Grid)
    ensures
        final(leds)@ == complement_spec(old(leds)@),
{
    let mut idx: usize = 0;
    while idx < 25
        invariant
            idx <= 25,
            leds@.len() == 25,
            forall|j: int| 0 <= j < idx ==> leds@[j] == (old(leds)@[j] ^ 1),
            forall|j: int| idx <= j < 25 ==> leds@[j] == old(leds)@[j],
        decreases 25 - idx,
    {
        let r = idx / 5;
        let c = idx % 5;
        proof {
            lemma_fundamental_div_mod(idx as int, 5);
        }
        let v = leds.get(r, c);
        leds.set(r, c, v ^ 1);
        idx = idx + 1;
    }
    proof {
        assert(leds@ =~= complement_spec(old(leds)@));
    }
}

/// Set every cell of `buf` to 0.
pub fn clear(buf: &mut Grid)
    ensures
        final(buf)@ == Seq::new(25nat, |i: int| 0u8),
{
    let mut idx: usize = 0;
    while idx < 25
        invariant
            idx <= 25,
            buf@.len() == 25,
            forall|j: int| 0 <= j < idx ==> buf@[j] == 0u8,
        decreases 25 - idx,
    {
        let r = idx / 5;
        let c = idx % 5;
        proof {
            lemma_fundamental_div_mod(idx as int, 5);
        }
        buf.set(r, c, 0);
        idx = idx + 1;
    }
    proof {
        assert(buf@ =~= Seq::new(25nat, |i: int| 0u8));
    }
}

/// Fill every cell of `leds` with an independent draw from {0, 1}. Whatever
/// the entropy source hands back, every cell of the result is 0 or 1.
pub fn randomize(leds: &mut Grid, rng: &mut Pcg64)
    ensures
        final(leds)@.len() == 25,
        is_binary(final(leds)@),
{
    let mut idx: usize = 0;
    while idx < 25
        invariant
            idx <= 25,
            leds@.len() == 25,
            forall|j: int| 0 <= j < idx ==> leds@[j] == 0 || leds@[j] == 1,
        decreases 25 - idx,
    {
        let r = idx / 5;
        let c = idx % 5;
        proof {
            lemma_fundamental_div_mod(idx as int, 5);
        }
        let bit = rand_in_range(rng, 0, 1);
        leds.set(r, c, bit);
        idx = idx + 1;
    }
}

/// Stepping the all-dead grid gives the all-dead grid: no cell is born
/// without exactly 3 live neighbors, so nothing appears spontaneously.
pub proof fn lemma_step_all_dead()
    ensures
        step_spec(Seq::new(25nat, |i: int| 0u8)) == Seq::new(25nat, |i: int| 0u8),
{
    let dead = Seq::new(25nat, |i: int| 0u8);
    assert forall|i: int| 0 <= i < 25 implies step_spec(dead)[i] == 0u8 by {
        assert(neighbor_count(dead, i / 5, i % 5) == 0);
    }
    assert(step_spec(dead) =~= dead);
}

/// A grid with exactly one live cell steps to the all-dead grid: the live
/// cell has no live neighbor and dies, and every dead cell sees at most one
/// live neighbor, short of the 3 needed for a birth.
pub proof fn lemma_single_live_cell_dies(s: Seq<u8>, r0: int, c0: int)
    requires
        s.len() == 25,
        live(s, r0, c0),
        forall|r: int, c: int| live(s, r, c) ==> r == r0 && c == c0,
    ensures
        step_spec(s) == Seq::new(25nat, |i: int| 0u8),
{
    assert forall|i: int| 0 <= i < 25 implies step_spec(s)[i] == 0u8 by {
        let r = i / 5;
        let c = i % 5;
        lemma_fundamental_div_mod(i, 5);
        assert(neighbor_count(s, r, c) <= 1);
        if live(s, r, c) {
            assert(neighbor_count(s, r, c) == 0);
        }
    }
    assert(step_spec(s) =~= Seq::new(25nat, |i: int| 0u8));
}

/// Complementing a grid twice gives the grid back: `complement` is its own
/// inverse.
pub proof fn lemma_complement_involution(s: Seq<u8>)
    ensures
        complement_spec(complement_spec(s)) == s,
{
    assert forall|i: int| 0 <= i < s.len() implies complement_spec(complement_spec(s))[i] == s[i] by {
        let x = s[i];
        assert((x ^ 1) ^ 1 == x) by (bit_vector);
    }
    assert(complement_spec(complement_spec(s)) =~= s);
}

/// Complementing a binary grid gives a binary grid.
pub proof fn lemma_complement_binary(s: Seq<u8>)
    requires
        is_binary(s),
    ensures
        is_binary(complement_spec(s)),
{
    assert forall|i: int| 0 <= i < s.len() implies complement_spec(s)[i] == 0
        || complement_spec(s)[i] == 1 by {
        let x = s[i];
        assert(x == 0 || x == 1 ==> (x ^ 1 == 0 || x ^ 1 == 1)) by (bit_vector);
    }
}

} // verus!
