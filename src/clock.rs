//! Whole milliseconds for each frame from the engine's elapsed time, with the
//! leftover microseconds carried into the next frame so that no time is lost.
use vstd::prelude::*;

verus! {

/// Microseconds not yet handed out as a whole millisecond.
#[derive(Clone, Copy, Debug, PartialEq, Eq, Structural)]
pub struct FrameClock {
    pub carry_us: u64,
}

impl FrameClock {
    /// Less than a millisecond is carried.
    pub open spec fn wf(self) -> bool {
        self.carry_us < 1000
    }

    /// Nothing carried.
    pub fn new() -> (r: Self)
        ensures
            r.carry_us == 0,
            r.wf(),
    {
        FrameClock { carry_us: 0 }
    }

    /// The length of a frame of `delta_us` microseconds in whole milliseconds,
    /// counting what the earlier frames left over. A frame longer than
    /// `u32::MAX` milliseconds counts as that long, and leaves nothing over.
    pub fn frame_ms(&mut self, delta_us: u64) -> (ms: u32)
        requires
            old(self).wf(),
        ensures
            final(self).wf(),
            ({
                let total = old(self).carry_us + delta_us;
                if total / 1000 <= u32::MAX {
                    ms == total / 1000 && final(self).carry_us == total % 1000
                } else {
                    ms == u32::MAX && final(self).carry_us == 0
                }
            }),
    {
        let total: u128 = (self.carry_us as u128) + (delta_us as u128);
        let whole = total / 1000;
        if whole <= u32::MAX as u128 {
            self.carry_us = (total % 1000) as u64;
            whole as u32
        } else {
            self.carry_us = 0;
            u32::MAX
        }
    }
}

} // verus!
