//! The catch-the-faller mini-game: a 2-wide paddle on the bottom row, one
//! falling object at a time, a score, and a fixed exit threshold.
//!
//! One call of `tick` is one pass of the game's loop body; the caller runs
//! the loop, reading the buttons and drawing the returned frame each pass,
//! until `finished` comes back true. The column for a fresh spawn is handed
//! in by the caller, drawn from the entropy source (see `next_spawn_col`).

use vstd::prelude::*;
use vstd::arithmetic::div_mod::{lemma_fundamental_div_mod, lemma_fundamental_div_mod_converse};
use crate::grid::{Grid, lemma_grid_len};
use crate::rng::rand_in_range;
use nanorand::rand::pcg64::Pcg64;

verus! {

broadcast use lemma_grid_len;

/// The score at which the game ends.
pub const WIN_SCORE: i16 = 10;

/// Pulses of the fixed tone played on a catch.
pub const HIT_TONE_PULSES: u16 = 10;

/// The mutable state of one game: paddle columns, falling object, score.
pub struct GameState {
    /// Left paddle column.
    pub lx: i16,
    /// Right paddle column, always `lx + 1`.
    pub rx: i16,
    /// Whether the next tick must spawn a fresh falling object.
    pub new_bomb: bool,
    /// Column of the falling object.
    pub bomb_x: i16,
    /// Row of the falling object.
    pub bomb_y: i16,
    /// Objects caught so far.
    pub score: i16,
}

/// What one tick hands back to the caller.
pub struct TickReport {
    /// The frame to draw for this tick.
    pub frame: Grid,
    /// Whether the object landed on a paddle column this tick.
    pub hit: bool,
    /// Tone pulses to play: 10 on a hit, otherwise none.
    pub tone_pulses: u16,
    /// True once the score has reached the exit threshold.
    pub finished: bool,
}

/// The paddle's left column after the button shifts: the primary button
/// moves the pair left, the secondary right.
pub open spec fn moved_lx(lx: int, pressed_a: bool, pressed_b: bool) -> int {
    lx - (if pressed_a { 1int } else { 0int }) + (if pressed_b { 1int } else { 0int })
}

/// Snap an out-of-bounds paddle pair back onto the board: the pair keeps
/// its width of 2 and sits at the nearest valid adjacent pair.
pub open spec fn clamped_lx(m: int) -> int {
    if m + 1 > 4 {
        3int
    } else if m < 0 {
        0int
    } else {
        m
    }
}

/// The row of the falling object this tick: 0 on a fresh spawn, else one
/// below where it was.
pub open spec fn tick_bomb_y(st: GameState) -> int {
    if st.new_bomb {
        0int
    } else {
        st.bomb_y + 1
    }
}

/// The column of the falling object this tick: the spawn column on a fresh
/// spawn, else unchanged.
pub open spec fn tick_bomb_x(st: GameState, spawn_col: int) -> int {
    if st.new_bomb {
        spawn_col
    } else {
        st.bomb_x as int
    }
}

/// A catch: the object is on the paddle row and over one of the two paddle
/// columns.
pub open spec fn tick_hit(st: GameState, pressed_a: bool, pressed_b: bool, spawn_col: int) -> bool {
    let lx = clamped_lx(moved_lx(st.lx as int, pressed_a, pressed_b));
    let by = tick_bomb_y(st);
    let bx = tick_bomb_x(st, spawn_col);
    by == 4 && (bx == lx || bx == lx + 1)
}

/// The frame drawn for a tick: the paddle pair on the bottom row and, while
/// it is still falling, the object; everything else dark.
pub open spec fn frame_spec(lx: int, bx: int, by: int) -> Seq<u8> {
    Seq::new(
        25nat,
        |i: int|
            if i / 5 == 4 && (i % 5 == lx || i % 5 == lx + 1) {
                1u8
            } else if by < 4 && i / 5 == by && i % 5 == bx {
                1u8
            } else {
                0u8
            },
    )
}

impl GameState {
    /// The shapes a game state always keeps: the paddle is an adjacent pair
    /// on the board, the object is on the board, a landed object is marked
    /// for respawn, and the score sits between 0 and the exit threshold.
    pub open spec fn wf(&self) -> bool {
        0 <= self.lx && self.rx == self.lx + 1 && self.rx <= 4 && 0 <= self.bomb_x <= 4 && 0
            <= self.bomb_y <= 4 && (self.bomb_y == 4 ==> self.new_bomb) && 0 <= self.score
            <= WIN_SCORE
    }

    /// A fresh game: paddle at columns 2 and 3, no object yet, score 0.
    pub fn new() -> (st: GameState)
        ensures
            st.wf(),
            st.lx == 2 && st.rx == 3,
            st.new_bomb,
            st.bomb_x == 0 && st.bomb_y == 0,
            st.score == 0,
    {
        GameState { lx: 2, rx: 3, new_bomb: true, bomb_x: 0, bomb_y: 0, score: 0 }
    }

    /// One pass of the game loop: spawn or drop the object, shift and snap
    /// the paddle, resolve a landing, and build the frame to draw.
    pub fn tick(&mut self, pressed_a: bool, pressed_b: bool, spawn_col: u8) -> (out: TickReport)
        requires
            old(self).wf(),
            old(self).score < WIN_SCORE,
            spawn_col <= 4,
        ensures
            final(self).wf(),
            final(self).lx == clamped_lx(moved_lx(old(self).lx as int, pressed_a, pressed_b)),
            final(self).rx == final(self).lx + 1,
            final(self).bomb_y == tick_bomb_y(*old(self)),
            final(self).bomb_x == tick_bomb_x(*old(self), spawn_col as int),
            out.hit == tick_hit(*old(self), pressed_a, pressed_b, spawn_col as int),
            final(self).score == old(self).score + (if out.hit { 1int } else { 0int }),
            final(self).new_bomb == (tick_bomb_y(*old(self)) == 4),
            out.tone_pulses == (if out.hit { HIT_TONE_PULSES as int } else { 0int }),
            out.finished == (final(self).score >= WIN_SCORE),
            out.frame@ == frame_spec(
                final(self).lx as int,
                final(self).bomb_x as int,
                final(self).bomb_y as int,
            ),
    {
        if self.new_bomb {
            self.bomb_x = spawn_col as i16;
            self.bomb_y = 0;
            self.new_bomb = false;
        } else {
            self.bomb_y = self.bomb_y + 1;
        }

        if pressed_a {
            self.lx = self.lx - 1;
            self.rx = self.rx - 1;
        }
        if pressed_b {
            self.lx = self.lx + 1;
            self.rx = self.rx + 1;
        }
        if self.rx > 4 {
            self.rx = 4;
            self.lx = 3;
        } else if self.lx < 0 {
            self.lx = 0;
            self.rx = 1;
        }

        let mut frame = Grid::new();
        frame.set(4, self.lx as usize, 1);
        frame.set(4, self.rx as usize, 1);
        if self.bomb_y < 4 {
            frame.set(self.bomb_y as usize, self.bomb_x as usize, 1);
        }

        let mut hit = false;
        let mut tone: u16 = 0;
        if self.bomb_y == 4 {
            if self.bomb_x == self.lx || self.bomb_x == self.rx {
                hit = true;
                tone = HIT_TONE_PULSES;
                self.score = self.score + 1;
            }
            self.new_bomb = true;
        }

        proof {
            lemma_frame(
                frame@,
                final(self).lx as int,
                final(self).bomb_x as int,
                final(self).bomb_y as int,
            );
        }

        TickReport { frame, hit, tone_pulses: tone, finished: self.score >= WIN_SCORE }
    }
}

/// Draw a fresh spawn column from the entropy source. The mapping from raw
/// bytes to a bounded draw is the entropy crate's own; the tests hold the
/// result to the board anyway, since the column must land in `[0, 4]`.
pub fn next_spawn_col(rng: &mut Pcg64) -> (c: u8)
    ensures
        c <= 4,
{
    rand_in_range(rng, 0, 4)
}

/// A grid built by clearing and then setting the paddle pair and, while it
/// falls, the object, equals the frame described cell by cell.
proof fn lemma_frame(s: Seq<u8>, lx: int, bx: int, by: int)
    requires
        0 <= lx <= 3,
        0 <= bx <= 4,
        0 <= by <= 4,
        s.len() == 25,
        by < 4 ==> s == Seq::new(25nat, |i: int| 0u8).update(4 * 5 + lx, 1u8).update(
            4 * 5 + (lx + 1),
            1u8,
        ).update(by * 5 + bx, 1u8),
        by == 4 ==> s == Seq::new(25nat, |i: int| 0u8).update(4 * 5 + lx, 1u8).update(
            4 * 5 + (lx + 1),
            1u8,
        ),
    ensures
        s == frame_spec(lx, bx, by),
{
    assert forall|i: int| 0 <= i < 25 implies s[i] == frame_spec(lx, bx, by)[i] by {
        lemma_fundamental_div_mod(i, 5);
        lemma_fundamental_div_mod_converse(4 * 5 + lx, 5, 4, lx);
        lemma_fundamental_div_mod_converse(4 * 5 + (lx + 1), 5, 4, lx + 1);
        lemma_fundamental_div_mod_converse(by * 5 + bx, 5, by, bx);
    }
    assert(s =~= frame_spec(lx, bx, by));
}

} // verus!
