//! The main control loop's per-tick decision: which of complement, grid
//! re-randomization, mini-game entry or plain automaton stepping the tick
//! performs, and how long the resulting frame dwells on the display.
//!
//! One call of `loop_tick` is the compute part of one pass of the device's
//! forever-loop. The caller reads the two button states, calls `loop_tick`,
//! runs a full mini-game first if the report asks for one, and then shows
//! the returned frame for the returned dwell time.

use vstd::prelude::*;
use crate::automaton::{
    complement, complement_spec, lemma_complement_binary, is_terminal, randomize, step, step_spec,
    terminal_spec,
};
use crate::grid::{Grid, is_binary, lemma_grid_len};
use nanorand::rand::pcg64::Pcg64;

verus! {

broadcast use lemma_grid_len;

/// Ticks that must pass between two accepted complement commands.
pub const COMPLEMENT_GUARD_TICKS: u64 = 5;

/// Re-randomizations after which the next primary press enters the game.
pub const GAME_ACTIVATION_COUNT: u32 = 20;

/// Dwell time, in display time-units, while the grid is still evolving.
pub const DWELL_ACTIVE: u32 = 100;

/// Dwell time once the grid has reached a terminal configuration.
pub const DWELL_TERMINAL: u32 = 500;

/// The state the main loop carries from tick to tick.
pub struct LoopState {
    /// The automaton grid, also the frame that is shown.
    pub leds: Grid,
    /// Ticks elapsed, in wall-clock-weighted units.
    pub counter_curr: u64,
    /// Value of `counter_curr` when a complement was last accepted.
    pub counter_prev: u64,
    /// Re-randomizations since the mini-game last ran.
    pub random_counter: u32,
}

/// `c + k`, stopping at the top of `u64` instead of wrapping.
pub open spec fn sat_add(c: u64, k: u64) -> u64 {
    if c + k > u64::MAX {
        u64::MAX
    } else {
        (c + k) as u64
    }
}

/// What one tick reports back to the caller.
pub struct LoopReport {
    /// The frame to show for this tick.
    pub frame: Grid,
    /// How long to show it.
    pub dwell: u32,
    /// True when the caller must run one full mini-game before showing the
    /// frame.
    pub enter_game: bool,
}

impl LoopState {
    /// The loop's invariant: the guard counter never runs ahead of the
    /// tick counter, the activation counter stays at or below its
    /// threshold, and the grid is a binary automaton grid.
    pub open spec fn wf(&self) -> bool {
        self.counter_prev <= self.counter_curr && self.random_counter <= GAME_ACTIVATION_COUNT
            && self.leds@.len() == 25 && is_binary(self.leds@)
    }

    /// A fresh loop over a first (already randomized) grid, all counters
    /// at zero.
    pub fn new(leds: Grid) -> (st: LoopState)
        requires
            is_binary(leds@),
        ensures
            st.wf(),
            st.leds@ == leds@,
            st.counter_curr == 0 && st.counter_prev == 0 && st.random_counter == 0,
    {
        LoopState { leds, counter_curr: 0, counter_prev: 0, random_counter: 0 }
    }

    /// One tick of the main loop. Priority order: a secondary press with
    /// the guard elapsed complements the grid and re-arms the guard; else a
    /// primary press re-randomizes the grid (after enough of those, the
    /// report first asks for one mini-game run); else the automaton steps
    /// one generation. The tick counter then advances by 5 with the long
    /// dwell on a terminal grid, by 1 with the short dwell otherwise.
    pub fn loop_tick(&mut self, pressed_a: bool, pressed_b: bool, rng: &mut Pcg64) -> (out:
        LoopReport)
        requires
            old(self).wf(),
        ensures
            final(self).wf(),
            ({
                let complemented = old(self).counter_curr - old(self).counter_prev
                    >= COMPLEMENT_GUARD_TICKS && pressed_b;
                &&& complemented ==> {
                    &&& final(self).leds@ == complement_spec(old(self).leds@)
                    &&& final(self).counter_prev == old(self).counter_curr
                    &&& final(self).random_counter == old(self).random_counter
                    &&& !out.enter_game
                }
                &&& (!complemented && pressed_a) ==> {
                    &&& is_binary(final(self).leds@)
                    &&& final(self).counter_prev == old(self).counter_prev
                    &&& out.enter_game == (old(self).random_counter >= GAME_ACTIVATION_COUNT)
                    &&& final(self).random_counter == (if old(self).random_counter
                        >= GAME_ACTIVATION_COUNT {
                        1u32
                    } else {
                        (old(self).random_counter + 1) as u32
                    })
                }
                &&& (!complemented && !pressed_a) ==> {
                    &&& final(self).leds@ == step_spec(old(self).leds@)
                    &&& final(self).counter_prev == old(self).counter_prev
                    &&& final(self).random_counter == old(self).random_counter
                    &&& !out.enter_game
                }
            }),
            out.frame@ == final(self).leds@,
            out.dwell == (if terminal_spec(final(self).leds@) {
                DWELL_TERMINAL
            } else {
                DWELL_ACTIVE
            }),
            final(self).counter_curr == (if terminal_spec(final(self).leds@) {
                sat_add(old(self).counter_curr, 5)
            } else {
                sat_add(old(self).counter_curr, 1)
            }),
    {
        let mut enter_game = false;
        if self.counter_curr - self.counter_prev >= COMPLEMENT_GUARD_TICKS && pressed_b {
            proof {
                lemma_complement_binary(self.leds@);
            }
            complement(&mut self.leds);
            self.counter_prev = self.counter_curr;
        } else if pressed_a {
            if self.random_counter >= GAME_ACTIVATION_COUNT {
                enter_game = true;
                self.random_counter = 0;
            }
            randomize(&mut self.leds, rng);
            self.random_counter = self.random_counter + 1;
        } else {
            let next = step(&self.leds);
            self.leds = next;
        }

        let dwell: u32;
        if is_terminal(&self.leds) {
            dwell = DWELL_TERMINAL;
            self.counter_curr = self.counter_curr.saturating_add(5);
        } else {
            dwell = DWELL_ACTIVE;
            self.counter_curr = self.counter_curr.saturating_add(1);
        }

        LoopReport { frame: self.leds, dwell, enter_game }
    }
}

} // verus!
