//! The walking animation: a repeating timer that steps through the frames of
//! the player's sheet while the player moves.
use vstd::prelude::*;

use crate::config::ANIM_TIME_MS;
use crate::motion::Velocity;

verus! {

/// Time shown so far of the current frame, in milliseconds; it repeats every
/// `ANIM_TIME_MS`.
#[derive(Clone, Copy, Debug, PartialEq, Eq, Structural)]
pub struct AnimationTimer {
    pub elapsed_ms: u32,
}

/// Number of frames on the player's sheet.
#[derive(Clone, Copy, Debug, PartialEq, Eq, Structural)]
pub struct AnimationFrameCount(pub usize);

/// Whether a repeating timer at `elapsed` reaches its period within `dt_ms`.
pub open spec fn period_reached(elapsed: int, dt_ms: int) -> bool {
    elapsed + dt_ms >= ANIM_TIME_MS
}

/// A repeating timer's count after a tick of `dt_ms`: what is left past the
/// last whole period.
pub open spec fn tick_repeating(elapsed: int, dt_ms: int) -> int {
    (elapsed + dt_ms) % (ANIM_TIME_MS as int)
}

/// The frame after `frame` on a sheet of `count` frames, wrapping to the first.
pub open spec fn following_frame(frame: int, count: int) -> int {
    (frame + 1) % count
}

impl AnimationTimer {
    /// Always within one period.
    pub open spec fn wf(self) -> bool {
        self.elapsed_ms < ANIM_TIME_MS
    }

    /// A timer at the start of a period.
    pub fn new() -> (r: Self)
        ensures
            r.elapsed_ms == 0,
            r.wf(),
    {
        AnimationTimer { elapsed_ms: 0 }
    }

    /// Counts `dt_ms` more milliseconds; returns whether a period ended.
    pub fn tick(&mut self, dt_ms: u32) -> (just_finished: bool)
        requires
            old(self).wf(),
        ensures
            final(self).wf(),
            final(self).elapsed_ms == tick_repeating(old(self).elapsed_ms as int, dt_ms as int),
            just_finished == period_reached(old(self).elapsed_ms as int, dt_ms as int),
    {
        let total: u64 = (self.elapsed_ms as u64) + (dt_ms as u64);
        self.elapsed_ms = (total % (ANIM_TIME_MS as u64)) as u32;
        total >= ANIM_TIME_MS as u64
    }
}

/// One frame of the walking animation: while the player moves, the timer
/// runs, and each time a period ends the sheet shows its next frame.
pub fn animate_player(
    velocity: &Velocity,
    timer: &mut AnimationTimer,
    frame: &mut usize,
    frame_count: &AnimationFrameCount,
    dt_ms: u32,
)
    requires
        old(timer).wf(),
        *old(frame) < frame_count.0,
    ensures
        final(timer).wf(),
        *final(frame) < frame_count.0,
        !velocity.is_moving_spec() ==> *final(timer) == *old(timer) && *final(frame) == *old(frame),
        velocity.is_moving_spec() ==> {
            &&& final(timer).elapsed_ms == tick_repeating(old(timer).elapsed_ms as int, dt_ms as int)
            &&& *final(frame) == if period_reached(old(timer).elapsed_ms as int, dt_ms as int) {
                following_frame(*old(frame) as int, frame_count.0 as int)
            } else {
                *old(frame) as int
            }
        },
{
    if velocity.is_moving() {
        if timer.tick(dt_ms) {
            *frame = (*frame + 1) % frame_count.0;
        }
    }
}

} // verus!
