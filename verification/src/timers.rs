//! The two 60 Hz decay counters: the delay timer and the sound timer.

use vstd::prelude::*;

verus! {

/// Time between two ticks of a decay counter, in nanoseconds (60 Hz).
pub const TICK_PERIOD_NS: u64 = 16_666_667;

/// What a tick of the sound timer asks of the audio playback.
#[derive(Clone, Copy, Debug, PartialEq, Eq, Structural)]
pub enum SoundAction {
    Resume,
    Pause,
}

/// The value that a counter holding `raw` reports to its readers: `raw`
/// itself when it is a byte, zero otherwise. A counter holds -1 for a moment
/// between the decrement and the clamp of a tick; readers see zero then.
pub open spec fn reported(raw: int) -> int {
    if 0 <= raw <= 255 {
        raw
    } else {
        0
    }
}

/// The counter right after the decrement of a tick, before the clamp.
pub open spec fn decremented(raw: i16) -> i16 {
    if raw == i16::MIN {
        i16::MAX
    } else {
        (raw - 1) as i16
    }
}

/// The counter after the clamp of a tick.
pub open spec fn clamped(raw: i16) -> i16 {
    if raw < 0 {
        0
    } else {
        raw
    }
}

/// The counter after one whole tick: one less, but never below zero.
pub open spec fn ticked(raw: i16) -> i16 {
    clamped(decremented(raw))
}

/// The counter after `count` ticks.
pub open spec fn ticked_times(raw: i16, count: nat) -> i16
    decreases count,
{
    if count == 0 {
        raw
    } else {
        ticked(ticked_times(raw, (count - 1) as nat))
    }
}

/// What the sound timer asks of the playback on a tick whose decrement left
/// `after_decrement`: the sound goes on only while the counter stays active
/// beyond this tick.
pub open spec fn sound_action(after_decrement: i16) -> SoundAction {
    if after_decrement > 1 {
        SoundAction::Resume
    } else {
        SoundAction::Pause
    }
}

/// The interface that the CPU core has to a decay counter.
pub trait Timer {
    /// The counter as it is stored.
    spec fn value(&self) -> i16;

    /// Reads the counter, coerced into `0..=255`.
    fn get(&self) -> (val: u8)
        ensures
            val == reported(self.value() as int),
    ;

    /// Assigns a fresh value to the counter.
    fn set(&mut self, val: u8)
        ensures
            final(self).value() == val,
    ;
}

/// The delay timer.
#[derive(Debug)]
pub struct DelayTimer {
    value: i16,
}

/// The sound timer: audio plays while it counts.
#[derive(Debug)]
pub struct SoundTimer {
    value: i16,
}

fn coerce(raw: i16) -> (val: u8)
    ensures
        val == reported(raw as int),
{
    match u8::try_from(raw) {
        Ok(val) => val,
        Err(_) => 0,
    }
}

fn decrement_and_clamp(value: &mut i16) -> (after_decrement: i16)
    ensures
        after_decrement == decremented(*old(value)),
        *final(value) == ticked(*old(value)),
{
    let after_decrement: i16 = value.wrapping_sub(1);
    *value = if after_decrement < 0 {
        0
    } else {
        after_decrement
    };
    after_decrement
}

impl Timer for DelayTimer {
    closed spec fn value(&self) -> i16 {
        self.value
    }

    fn get(&self) -> (val: u8) {
        coerce(self.value)
    }

    fn set(&mut self, val: u8) {
        self.value = val as i16;
    }
}

impl Timer for SoundTimer {
    closed spec fn value(&self) -> i16 {
        self.value
    }

    fn get(&self) -> (val: u8) {
        coerce(self.value)
    }

    fn set(&mut self, val: u8) {
        self.value = val as i16;
    }
}

impl DelayTimer {
    /// A delay timer at zero.
    pub fn new() -> (timer: Self)
        ensures
            timer.value() == 0,
    {
        Self { value: 0 }
    }

    /// One tick of the 60 Hz loop: the counter goes down by one and stops at
    /// zero.
    pub fn tick(&mut self)
        ensures
            final(self).value() == ticked(old(self).value()),
    {
        let _ = decrement_and_clamp(&mut self.value);
    }
}

impl SoundTimer {
    /// A sound timer at zero.
    pub fn new() -> (timer: Self)
        ensures
            timer.value() == 0,
    {
        Self { value: 0 }
    }

    /// One tick of the 60 Hz loop: the counter goes down by one and stops at
    /// zero. Returns what to do with the playback.
    pub fn tick(&mut self) -> (action: SoundAction)
        ensures
            final(self).value() == ticked(old(self).value()),
            action == sound_action(decremented(old(self).value())),
    {
        let after_decrement: i16 = decrement_and_clamp(&mut self.value);
        if after_decrement > 1 {
            SoundAction::Resume
        } else {
            SoundAction::Pause
        }
    }
}

/// A counter set to `start` holds `start - count` after `count` ticks while
/// `count <= start`, and zero from then on: it reaches zero after exactly
/// `start` ticks and not before. What it reports is what it holds.
pub proof fn lemma_counter_reaches_zero(start: u8, count: nat)
    ensures
        count <= start ==> ticked_times(start as i16, count) == start - count,
        count >= start ==> ticked_times(start as i16, count) == 0,
        reported(ticked_times(start as i16, count) as int) == ticked_times(start as i16, count),
    decreases count,
{
    if count > 0 {
        lemma_counter_reaches_zero(start, (count - 1) as nat);
    }
}

/// No reader ever sees a value outside `0..=255`, whatever the counter holds,
/// the -1 between the decrement and the clamp of a tick included.
pub proof fn lemma_reported_is_a_byte(raw: i16)
    ensures
        0 <= reported(raw as int) <= 255,
        raw < 0 ==> reported(raw as int) == 0,
{
}

} // verus!
