//! When the next frame is drawn: requests are merged, and frames keep a distance.

use crate::clock;
use crate::frame_rate_limiter;
use crate::frame_rate_limiter::FrameRateLimiter;
use vstd::prelude::*;

verus! {

/// How long the scheduler sleeps while no frame is asked for.
pub const IDLE_SLEEP: u64 = 31_536_000_000_000_000;

/// The frame that is due next, and when the last one was drawn.
#[derive(Debug, Clone, Copy, PartialEq, Eq, Structural)]
pub struct FrameScheduler {
    pub next_deadline: Option<u64>,
    pub rate_limiter: FrameRateLimiter,
}

/// The scheduler after a request: the earliest of all requests counts.
pub open spec fn requested(s: FrameScheduler, draw_at: u64) -> FrameScheduler {
    let at = frame_rate_limiter::allowed_at(s.rate_limiter, draw_at);
    FrameScheduler {
        next_deadline: Some(
            match s.next_deadline {
                None => at,
                Some(t) => if t < at {
                    t
                } else {
                    at
                },
            },
        ),
        ..s
    }
}

/// The scheduler after its sleep, and whether a frame is drawn.
pub open spec fn woken(s: FrameScheduler) -> (FrameScheduler, bool) {
    match s.next_deadline {
        None => (s, false),
        Some(t) => (
            FrameScheduler {
                next_deadline: None,
                rate_limiter: FrameRateLimiter { last_emitted_at: Some(t) },
            },
            true,
        ),
    }
}

impl FrameScheduler {
    /// A scheduler before the first request.
    pub fn new() -> (r: Self)
        ensures
            r.next_deadline is None,
            r.rate_limiter.last_emitted_at is None,
    {
        FrameScheduler { next_deadline: None, rate_limiter: FrameRateLimiter::new() }
    }

    /// Until when to sleep.
    pub fn target(&self, now: u64) -> (r: u64)
        ensures
            r == (match self.next_deadline {
                Some(t) => t,
                None => clock::later(now, IDLE_SLEEP),
            }),
    {
        match self.next_deadline {
            Some(t) => t,
            None => clock::after(now, IDLE_SLEEP),
        }
    }

    /// Takes a request for a frame.
    pub fn request(&mut self, draw_at: u64)
        ensures
            *final(self) == requested(*old(self), draw_at),
    {
        let at: u64 = self.rate_limiter.clamp_deadline(draw_at);
        let next: u64 = match self.next_deadline {
            None => at,
            Some(t) => if t < at {
                t
            } else {
                at
            },
        };
        self.next_deadline = Some(next);
    }

    /// Goes on after the sleep. Tells whether a frame is to be drawn.
    pub fn wake(&mut self) -> (r: bool)
        ensures
            (*final(self), r) == woken(*old(self)),
    {
        match self.next_deadline {
            None => false,
            Some(t) => {
                self.next_deadline = None;
                self.rate_limiter.mark_emitted(t);
                true
            },
        }
    }
}

/// A frame that waits is never moved to a later time by another request, and two
/// requests give one frame.
pub proof fn law_requests_are_merged(s: FrameScheduler, a: u64, b: u64)
    ensures
        requested(requested(s, a), b).next_deadline->0 <= requested(s, a).next_deadline->0,
        woken(requested(requested(s, a), b)).1,
        !woken(woken(requested(requested(s, a), b)).0).1,
        requested(requested(s, a), b) == requested(requested(s, b), a),
{
}

/// No frame is lost: what is asked for is drawn no later than it was asked for, or
/// as soon as the distance to the last frame allows.
pub proof fn law_requests_are_served(s: FrameScheduler, draw_at: u64)
    ensures
        requested(s, draw_at).next_deadline is Some,
        requested(s, draw_at).next_deadline->0 <= frame_rate_limiter::allowed_at(
            s.rate_limiter,
            draw_at,
        ),
{
}

} // verus!
