//! The sensing variant's per-tick compute: feed a fresh accelerometer
//! sample through the low-pass filter, decide whether the impact alarm
//! fires, and pick the frame and tone burst that go with the decision.
//!
//! The caller polls the sensor; only when it reports fresh data does it
//! call `sense_tick` — a stale read is skipped entirely, never re-filtered.

use vstd::prelude::*;
use crate::filter::{ALARM_THRESHOLD_MG2, AXIS_LIMIT_MG, Filter, filter_step_spec};
use crate::grid::{Grid, lemma_grid_len};

verus! {

broadcast use lemma_grid_len;

/// Tone pulses played when the alarm fires.
pub const ALARM_TONE_PULSES: u16 = 10;

/// The exclamation-mark frame shown while the alarm fires.
pub open spec fn bang_spec() -> Seq<u8> {
    Seq::new(
        25nat,
        |i: int|
            if i == 2 || i == 7 || i == 12 || i == 22 {
                9u8
            } else {
                0u8
            },
    )
}

/// The single-dot frame shown while all is quiet.
pub open spec fn dot_spec() -> Seq<u8> {
    Seq::new(
        25nat,
        |i: int|
            if i == 12 {
                9u8
            } else {
                0u8
            },
    )
}

/// What one sensing tick reports back to the caller.
pub struct SenseReport {
    /// Whether the filtered magnitude crossed the alarm threshold.
    pub alarm: bool,
    /// The frame to show: the exclamation mark on alarm, else the dot.
    pub frame: Grid,
    /// Tone pulses to play: 10 on alarm, otherwise none.
    pub tone_pulses: u16,
}

/// The exclamation-mark frame, cell by cell.
pub fn bang_grid() -> (g: Grid)
    ensures
        g@ == bang_spec(),
{
    let mut g = Grid::new();
    g.set(0, 2, 9);
    g.set(1, 2, 9);
    g.set(2, 2, 9);
    g.set(4, 2, 9);
    proof {
        assert(g@ =~= bang_spec());
    }
    g
}

/// The single-dot frame, cell by cell.
pub fn dot_grid() -> (g: Grid)
    ensures
        g@ == dot_spec(),
{
    let mut g = Grid::new();
    g.set(2, 2, 9);
    proof {
        assert(g@ =~= dot_spec());
    }
    g
}

/// One sensing tick over a fresh sample `(x, y, z)` in milli-g: update the
/// filter on all three axes, fire the alarm exactly when the filtered
/// vector's squared magnitude exceeds 2.5 g squared, and pick frame and
/// tone accordingly.
pub fn sense_tick(filter: &mut Filter, x: i64, y: i64, z: i64) -> (out: SenseReport)
    requires
        old(filter).wf(),
        -AXIS_LIMIT_MG <= x <= AXIS_LIMIT_MG,
        -AXIS_LIMIT_MG <= y <= AXIS_LIMIT_MG,
        -AXIS_LIMIT_MG <= z <= AXIS_LIMIT_MG,
    ensures
        final(filter).wf(),
        final(filter).w_num == old(filter).w_num && final(filter).w_den == old(filter).w_den,
        final(filter).fx == filter_step_spec(
            old(filter).fx as int,
            x as int,
            old(filter).w_num as int,
            old(filter).w_den as int,
        ),
        final(filter).fy == filter_step_spec(
            old(filter).fy as int,
            y as int,
            old(filter).w_num as int,
            old(filter).w_den as int,
        ),
        final(filter).fz == filter_step_spec(
            old(filter).fz as int,
            z as int,
            old(filter).w_num as int,
            old(filter).w_den as int,
        ),
        out.alarm == (final(filter).fx * final(filter).fx + final(filter).fy * final(filter).fy
            + final(filter).fz * final(filter).fz > ALARM_THRESHOLD_MG2),
        out.frame@ == (if out.alarm {
            bang_spec()
        } else {
            dot_spec()
        }),
        out.tone_pulses == (if out.alarm {
            ALARM_TONE_PULSES as int
        } else {
            0int
        }),
{
    let _ = filter.sample(x, y, z);
    let alarm = filter.alarm();
    if alarm {
        SenseReport { alarm, frame: bang_grid(), tone_pulses: ALARM_TONE_PULSES }
    } else {
        SenseReport { alarm, frame: dot_grid(), tone_pulses: 0 }
    }
}

} // verus!
