//! Counting frames per second of a render loop.

use vstd::prelude::*;

verus! {

/// Nanoseconds between two readings of the frame rate.
pub const REPORT_INTERVAL_NANOS: u64 = 1_000_000_000;

/// Frames counted over a span of time; their quotient is the frame rate.
#[derive(Clone, Copy, Debug, PartialEq, Eq)]
pub struct FpsReading {
    pub frames: u64,
    pub elapsed_nanos: u64,
}

/// A counter of frames; its view is the start of the current span, in
/// nanoseconds of the caller's clock, and the frames counted since.
pub struct FpsCounter {
    start_time: u64,
    frame_count: u64,
}

impl View for FpsCounter {
    type V = (u64, u64);

    closed spec fn view(&self) -> (u64, u64) {
        (self.start_time, self.frame_count)
    }
}

/// The count after one more frame; it stays at the largest `u64`.
pub open spec fn counted(frames: u64) -> u64 {
    if frames < u64::MAX {
        (frames + 1) as u64
    } else {
        frames
    }
}

/// The time from `start` to `now`; none if `now` lies before `start`.
pub open spec fn elapsed(start: u64, now: u64) -> u64 {
    if now >= start {
        (now - start) as u64
    } else {
        0
    }
}

impl FpsCounter {
    /// A counter whose first span begins at `now`.
    pub fn new(now: u64) -> (counter: Self)
        ensures
            counter@ == (now, 0u64),
    {
        FpsCounter { start_time: now, frame_count: 0 }
    }

    /// Counts a frame shown at `now`. Once a second or more has passed since
    /// the span began, the span's reading is handed out and a new span
    /// begins at `now`.
    pub fn execute(&mut self, now: u64) -> (reading: Option<FpsReading>)
        ensures
            elapsed(old(self)@.0, now) >= REPORT_INTERVAL_NANOS ==> reading == Some(
                FpsReading {
                    frames: counted(old(self)@.1),
                    elapsed_nanos: elapsed(old(self)@.0, now),
                },
            ) && final(self)@ == (now, 0u64),
            elapsed(old(self)@.0, now) < REPORT_INTERVAL_NANOS ==> reading.is_none() && final(self)@
                == (old(self)@.0, counted(old(self)@.1)),
    {
        let elapsed_nanos = now.saturating_sub(self.start_time);
        self.frame_count = self.frame_count.saturating_add(1);
        if elapsed_nanos >= REPORT_INTERVAL_NANOS {
            let reading = FpsReading { frames: self.frame_count, elapsed_nanos };
            self.frame_count = 0;
            self.start_time = now;
            Some(reading)
        } else {
            None
        }
    }
}

} // verus!
