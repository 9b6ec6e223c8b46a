//! Edge-triggered input capture: the state machine that turns "this pin
//! changed" events into two logical button states.
//!
//! The hardware reports only that an edge happened on a channel, not its
//! direction, so the handler re-reads the pin level and maps the active-low
//! convention to pressed/released. Rapid bounces may be coalesced by the
//! edge detector into one event; the published state is then whatever the
//! last re-read level implies.

use vstd::prelude::*;

verus! {

/// The logical state of one button, as the capture machine knows it.
#[derive(Clone, Copy, PartialEq, Eq, Structural, Debug)]
pub enum ButtonState {
    /// No edge has been seen yet on this channel.
    Unknown,
    Released,
    Pressed,
}

/// The two edge-detector channels, one per physical button.
#[derive(Clone, Copy, PartialEq, Eq, Structural, Debug)]
pub enum Channel {
    A,
    B,
}

/// The logical state implied by a re-read pin level: the buttons are
/// active-low, so a low pin means pressed.
pub open spec fn level_state(level_low: bool) -> ButtonState {
    if level_low {
        ButtonState::Pressed
    } else {
        ButtonState::Released
    }
}

/// The capture machine: one logical state per channel. Mutated only by the
/// edge handler; the main loop just reads the published states.
#[derive(Clone, Copy)]
pub struct InputCapture {
    pub state_a: ButtonState,
    pub state_b: ButtonState,
}

/// The state the machine publishes for channel `ch`.
pub open spec fn state_of(cap: InputCapture, ch: Channel) -> ButtonState {
    match ch {
        Channel::A => cap.state_a,
        Channel::B => cap.state_b,
    }
}

/// The machine after handling one edge event: the reported channel takes
/// the state implied by the re-read level, the other channel keeps its own.
pub open spec fn edge_spec(cap: InputCapture, ch: Channel, level_low: bool) -> InputCapture {
    match ch {
        Channel::A => InputCapture { state_a: level_state(level_low), ..cap },
        Channel::B => InputCapture { state_b: level_state(level_low), ..cap },
    }
}

/// The machine after replaying a whole sequence of edge events in order.
/// An event is a channel paired with the pin level re-read while handling
/// it (`true` for low).
pub open spec fn replay_spec(cap: InputCapture, events: Seq<(Channel, bool)>) -> InputCapture
    decreases events.len(),
{
    if events.len() == 0 {
        cap
    } else {
        edge_spec(replay_spec(cap, events.drop_last()), events.last().0, events.last().1)
    }
}

impl InputCapture {
    /// Both channels start out unknown: no edge has fired yet.
    pub fn new() -> (cap: InputCapture)
        ensures
            cap.state_a == ButtonState::Unknown,
            cap.state_b == ButtonState::Unknown,
    {
        InputCapture { state_a: ButtonState::Unknown, state_b: ButtonState::Unknown }
    }

    /// Handle one edge event on channel `ch`: `level_low` is the pin level
    /// re-read in the handler (`true` for low, which means pressed). The
    /// other channel is untouched.
    pub fn on_edge(&mut self, ch: Channel, level_low: bool)
        ensures
            *final(self) == edge_spec(*old(self), ch, level_low),
            state_of(*final(self), ch) == level_state(level_low),
    {
        let st = if level_low {
            ButtonState::Pressed
        } else {
            ButtonState::Released
        };
        match ch {
            Channel::A => self.state_a = st,
            Channel::B => self.state_b = st,
        }
    }

    /// The published state of channel `ch`.
    pub fn read(&self, ch: Channel) -> (st: ButtonState)
        ensures
            st == state_of(*self, ch),
    {
        match ch {
            Channel::A => self.state_a,
            Channel::B => self.state_b,
        }
    }
}

/// Replaying any sequence of edge events leaves each channel in the state
/// implied by the last level re-read on that channel, no matter how many
/// events came in between or on the other channel; a channel with no event
/// in the sequence keeps its prior state.
pub proof fn lemma_replay_last_level(cap: InputCapture, events: Seq<(Channel, bool)>, ch: Channel, k: int)
    requires
        0 <= k < events.len(),
        events[k].0 == ch,
        forall|j: int| k < j < events.len() ==> (#[trigger] events[j]).0 != ch,
    ensures
        state_of(replay_spec(cap, events), ch) == level_state(events[k].1),
    decreases events.len(),
{
    let last = events.last();
    if k == events.len() - 1 {
        assert(state_of(edge_spec(replay_spec(cap, events.drop_last()), last.0, last.1), ch)
            == level_state(last.1));
    } else {
        assert(last.0 != ch);
        lemma_replay_last_level(cap, events.drop_last(), ch, k);
        assert(events.drop_last()[k] == events[k]);
    }
}

/// A channel on which no event fired keeps its prior state through any
/// replay.
pub proof fn lemma_replay_untouched(cap: InputCapture, events: Seq<(Channel, bool)>, ch: Channel)
    requires
        forall|j: int| 0 <= j < events.len() ==> (#[trigger] events[j]).0 != ch,
    ensures
        state_of(replay_spec(cap, events), ch) == state_of(cap, ch),
    decreases events.len(),
{
    if events.len() > 0 {
        lemma_replay_untouched(cap, events.drop_last(), ch);
    }
}

} // verus!
