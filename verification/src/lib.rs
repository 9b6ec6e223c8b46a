//! Core logic for a sense-compute-actuate loop driving a 5x5 LED matrix:
//! a cellular automaton with stability detection, a low-pass accelerometer
//! filter with an alarm threshold, a debounced button-capture state machine,
//! an exclusive-access cell for interrupt-shared state, and a small
//! catch-the-faller mini-game.

pub mod automaton;
pub mod filter;
pub mod game;
pub mod grid;
pub mod guard;
pub mod input;
pub mod mainloop;
pub mod rng;
pub mod sense;
