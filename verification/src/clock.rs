//! Turning elapsed real time into sixtieth-of-a-second frames.
//!
//! The timers count at 60 Hz of real time, however many instructions run.
//! The host measures how much time has passed and asks the clock how many
//! frames that makes; what is left over is kept for the next call.

use vstd::prelude::*;

verus! {

/// Length of one frame in microseconds.
pub const FRAME_MICROS: u64 = 16666;

/// An accumulator of real time that has not yet been turned into frames.
pub struct FrameClock {
    backlog: u64,
}

/// The time to account for once `elapsed` microseconds are added to a
/// backlog of `backlog`: their sum, held at the largest 64-bit value.
pub open spec fn total_micros(backlog: u64, elapsed: u64) -> u64 {
    if backlog + elapsed > u64::MAX {
        u64::MAX
    } else {
        (backlog + elapsed) as u64
    }
}

/// The number of frames that are due: the whole frames in the total, but
/// no more than `limit`.
pub open spec fn frames_due(backlog: u64, elapsed: u64, limit: u32) -> u32 {
    if total_micros(backlog, elapsed) / FRAME_MICROS > limit {
        limit
    } else {
        (total_micros(backlog, elapsed) / FRAME_MICROS) as u32
    }
}

impl View for FrameClock {
    type V = u64;

    /// The microseconds not yet turned into frames.
    closed spec fn view(&self) -> u64 {
        self.backlog
    }
}

impl FrameClock {
    /// A clock with nothing to account for.
    pub fn new() -> (clock: FrameClock)
        ensures
            clock@ == 0,
    {
        FrameClock { backlog: 0 }
    }

    /// The microseconds not yet turned into frames.
    pub fn backlog(&self) -> (micros: u64)
        ensures
            micros == self@,
    {
        self.backlog
    }

    /// Adds `elapsed` microseconds and returns how many frames are due, at
    /// most `limit` of them. The time of the frames returned leaves the
    /// backlog; the rest stays, so that frames beyond the limit come due on
    /// later calls.
    pub fn advance(&mut self, elapsed: u64, limit: u32) -> (frames: u32)
        ensures
            frames == frames_due(old(self)@, elapsed, limit),
            final(self)@ == total_micros(old(self)@, elapsed) - frames * FRAME_MICROS,
    {
        let total: u64 = match self.backlog.checked_add(elapsed) {
            Some(sum) => sum,
            None => u64::MAX,
        };
        let whole: u64 = total / FRAME_MICROS;
        let frames: u32 = if whole > limit as u64 {
            limit
        } else {
            whole as u32
        };
        self.backlog = total - frames as u64 * FRAME_MICROS;
        frames
    }
}

/// No time is lost: as long as the total fits in 64 bits, the time of the
/// frames returned and the new backlog add up to the old backlog and the
/// elapsed time. Within the limit, less than one frame is left over.
pub proof fn law_time_is_conserved(backlog: u64, elapsed: u64, limit: u32)
    requires
        backlog + elapsed <= u64::MAX,
    ensures
        frames_due(backlog, elapsed, limit) * FRAME_MICROS + (total_micros(backlog, elapsed)
            - frames_due(backlog, elapsed, limit) * FRAME_MICROS) == backlog + elapsed,
        frames_due(backlog, elapsed, limit) * FRAME_MICROS <= backlog + elapsed,
        (backlog + elapsed) / (FRAME_MICROS as int) <= limit ==> total_micros(backlog, elapsed)
            - frames_due(backlog, elapsed, limit) * FRAME_MICROS < FRAME_MICROS,
{
}

} // verus!
