//! The timing scheduler: two independent cadences sharing one wall clock.
//!
//! The embedding program measures elapsed wall-clock time and feeds it in as
//! plain nanoseconds; the scheduler accumulates it and decides when a CPU
//! step and when a frame presentation are due. A fired cadence subtracts one
//! whole interval rather than resetting its accumulator, so neither cadence
//! drifts under variable loop overhead.

use vstd::prelude::*;

verus! {

/// CPU steps the scheduler drives per second.
pub const INSTRUCTIONS_PER_SECOND: u32 = 700;

/// Frame presentations the scheduler drives per second.
pub const FRAME_RATE: u32 = 60;

/// Nanoseconds in one second.
pub const NANOS_PER_SECOND: u64 = 1_000_000_000;

/// Addition of elapsed nanoseconds, capped at the top of the counter.
pub open spec fn spec_accumulate(acc: u64, elapsed: u64) -> u64 {
    if acc + elapsed > u64::MAX {
        u64::MAX
    } else {
        (acc + elapsed) as u64
    }
}

/// The dual-rate scheduler state: how long since each cadence last fired,
/// and the two interval lengths, all in nanoseconds.
pub struct Scheduler {
    since_last_step: u64,
    since_last_frame: u64,
    step_interval: u64,
    frame_interval: u64,
}

impl Scheduler {
    /// Nanoseconds between two CPU steps.
    pub closed spec fn spec_step_interval(self) -> u64 {
        self.step_interval
    }

    /// Nanoseconds between two frame presentations.
    pub closed spec fn spec_frame_interval(self) -> u64 {
        self.frame_interval
    }

    /// Nanoseconds accumulated toward the next CPU step.
    pub closed spec fn spec_since_last_step(self) -> u64 {
        self.since_last_step
    }

    /// Nanoseconds accumulated toward the next frame.
    pub closed spec fn spec_since_last_frame(self) -> u64 {
        self.since_last_frame
    }

    /// A scheduler with empty accumulators whose intervals divide one
    /// second by the two rates.
    pub fn new(instructions_per_second: u32, frame_rate: u32) -> (s: Scheduler)
        requires
            instructions_per_second >= 1,
            frame_rate >= 1,
        ensures
            s.spec_step_interval() == NANOS_PER_SECOND / (instructions_per_second as u64),
            s.spec_frame_interval() == NANOS_PER_SECOND / (frame_rate as u64),
            s.spec_since_last_step() == 0,
            s.spec_since_last_frame() == 0,
    {
        Scheduler {
            since_last_step: 0,
            since_last_frame: 0,
            step_interval: NANOS_PER_SECOND / (instructions_per_second as u64),
            frame_interval: NANOS_PER_SECOND / (frame_rate as u64),
        }
    }

    /// Accumulates `elapsed` nanoseconds into both cadences and reports
    /// whether a CPU step and whether a frame presentation are due. A
    /// cadence that fires keeps the time beyond its interval, so no time is
    /// lost between iterations.
    pub fn advance(&mut self, elapsed: u64) -> (due: (bool, bool))
        ensures
            final(self).spec_step_interval() == old(self).spec_step_interval(),
            final(self).spec_frame_interval() == old(self).spec_frame_interval(),
            due.0 == (spec_accumulate(old(self).spec_since_last_step(), elapsed) >= old(
                self,
            ).spec_step_interval()),
            final(self).spec_since_last_step() == if due.0 {
                spec_accumulate(old(self).spec_since_last_step(), elapsed) - old(
                    self,
                ).spec_step_interval()
            } else {
                spec_accumulate(old(self).spec_since_last_step(), elapsed) as int
            },
            due.1 == (spec_accumulate(old(self).spec_since_last_frame(), elapsed) >= old(
                self,
            ).spec_frame_interval()),
            final(self).spec_since_last_frame() == if due.1 {
                spec_accumulate(old(self).spec_since_last_frame(), elapsed) - old(
                    self,
                ).spec_frame_interval()
            } else {
                spec_accumulate(old(self).spec_since_last_frame(), elapsed) as int
            },
    {
        self.since_last_step = self.since_last_step.saturating_add(elapsed);
        self.since_last_frame = self.since_last_frame.saturating_add(elapsed);

        let step_due: bool = self.since_last_step >= self.step_interval;
        if step_due {
            self.since_last_step = self.since_last_step - self.step_interval;
        }

        let frame_due: bool = self.since_last_frame >= self.frame_interval;
        if frame_due {
            self.since_last_frame = self.since_last_frame - self.frame_interval;
        }

        (step_due, frame_due)
    }
}

} // verus!
