//! How often frames are drawn.

use vstd::prelude::*;

verus! {

/// The least time between two frames: no more than 120 frames a second.
pub const MIN_FRAME_INTERVAL: u64 = 8_333_334;

/// When the last frame was drawn.
#[derive(Debug, Clone, Copy, PartialEq, Eq, Structural)]
pub struct FrameRateLimiter {
    pub last_emitted_at: Option<u64>,
}

/// When a frame that is asked for may be drawn.
pub open spec fn allowed_at(limiter: FrameRateLimiter, requested: u64) -> u64 {
    match limiter.last_emitted_at {
        None => requested,
        Some(last) => {
            let earliest = if last + MIN_FRAME_INTERVAL > u64::MAX {
                last
            } else {
                (last + MIN_FRAME_INTERVAL) as u64
            };
            if requested < earliest {
                earliest
            } else {
                requested
            }
        },
    }
}

impl FrameRateLimiter {
    /// A limiter before the first frame.
    pub fn new() -> (r: Self)
        ensures
            r.last_emitted_at is None,
    {
        FrameRateLimiter { last_emitted_at: None }
    }

    /// When a frame that is asked for may be drawn.
    pub fn clamp_deadline(&self, requested: u64) -> (r: u64)
        ensures
            r == allowed_at(*self, requested),
    {
        match self.last_emitted_at {
            None => requested,
            Some(last) => {
                let earliest: u64 = match last.checked_add(MIN_FRAME_INTERVAL) {
                    Some(t) => t,
                    None => last,
                };
                if requested < earliest {
                    earliest
                } else {
                    requested
                }
            },
        }
    }

    /// Notes that a frame was drawn.
    pub fn mark_emitted(&mut self, emitted_at: u64)
        ensures
            *final(self) == (FrameRateLimiter { last_emitted_at: Some(emitted_at) }),
    {
        self.last_emitted_at = Some(emitted_at);
    }
}

/// A frame is never drawn before it is asked for, and never sooner behind the last
/// one than the interval.
pub proof fn law_frames_keep_their_distance(limiter: FrameRateLimiter, requested: u64)
    ensures
        allowed_at(limiter, requested) >= requested,
        limiter.last_emitted_at matches Some(last) ==> last + MIN_FRAME_INTERVAL <= u64::MAX
            ==> allowed_at(limiter, requested) >= last + MIN_FRAME_INTERVAL,
{
}

} // verus!
