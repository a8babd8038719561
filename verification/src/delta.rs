//! The time that a frame took.

use std::time::Duration;
use std::time::Instant;
use vstd::prelude::*;

verus! {

/// `std::time::Instant`, a reading of the clock.  Nothing is known of what it
/// holds.
#[verifier::external_type_specification]
#[verifier::external_body]
pub struct ExInstant(Instant);

/// The span of time that `Duration::from_millis` makes of a number of
/// milliseconds.
pub uninterp spec fn millis_duration(millis: u64) -> Duration;

/// The number of whole milliseconds that `Duration::as_millis` finds in a
/// span of time.
pub uninterp spec fn duration_millis(d: Duration) -> u128;

/// `Duration::from_millis` makes the span of that many milliseconds, which
/// is what `Duration::as_millis` then finds in it.
pub assume_specification[ Duration::from_millis ](millis: u64) -> (d: Duration)
    ensures
        d == millis_duration(millis),
        duration_millis(d) == millis,
;

/// `Duration::as_millis` returns the number of whole milliseconds in the
/// span, which depends on the span alone.
pub assume_specification[ Duration::as_millis ](d: &Duration) -> (millis: u128)
    ensures
        millis == duration_millis(*d),
;

/// `Instant::now` reads the clock: nothing is known of what it returns.
pub assume_specification[ Instant::now ]() -> (now: Instant);

/// `Instant::elapsed` reads the clock and returns the time since the
/// instant: nothing is known of what it returns.
pub assume_specification[ Instant::elapsed ](start: &Instant) -> (elapsed: Duration);

/// The start of the frame that is being drawn, and the time that the frame
/// before it took.
pub struct Delta {
    pub last_frame: Instant,
    pub frame_time: Duration,
}

impl Delta {
    /// Starts the first frame now; no frame came before it, and the time it
    /// took is zero.
    pub fn new() -> (delta: Self)
        ensures
            delta.frame_time == millis_duration(0),
            duration_millis(delta.frame_time) == 0,
    {
        Self::starting_at(Instant::now())
    }

    /// Starts the first frame at `now`; no frame came before it, and the
    /// time it took is zero.
    pub fn starting_at(now: Instant) -> (delta: Self)
        ensures
            delta.last_frame == now,
            delta.frame_time == millis_duration(0),
            duration_millis(delta.frame_time) == 0,
    {
        Self { last_frame: now, frame_time: Duration::from_millis(0) }
    }

    /// Ends the frame and starts the next at `new_frame`: the frame time is
    /// the time that has passed since the start of the frame that ends.
    pub fn update(&mut self, new_frame: Instant)
        ensures
            final(self).last_frame == new_frame,
    {
        let elapsed: Duration = self.last_frame.elapsed();
        self.record(elapsed, new_frame);
    }

    /// Ends a frame that took `elapsed` and starts the next at `new_frame`.
    pub fn record(&mut self, elapsed: Duration, new_frame: Instant)
        ensures
            final(self).frame_time == elapsed,
            final(self).last_frame == new_frame,
    {
        self.frame_time = elapsed;
        self.last_frame = new_frame;
    }

    /// The time that the last frame took.
    pub fn frame_time(&self) -> (elapsed: Duration)
        ensures
            elapsed == self.frame_time,
    {
        self.frame_time
    }
}

} // verus!
