//! Real-time pacing of the run loop: a fixed cycle budget per display
//! frame, timer decay at a fixed 60 Hz independent of the CPU clock, one
//! render per frame, and a coarse end-of-frame sleep.
//!
//! Time enters only as readings of a monotonic clock, in nanoseconds; the
//! caller performs the actual sleeping and rendering. That keeps every
//! scheduling decision a pure function of the pacer's state and the clock
//! reading.

use vstd::prelude::*;

verus! {

pub const TARGET_FPS: u32 = 60;

pub const CPU_CLOCK_IN_HZ: u32 = 1000;

/// The cycle budget of one frame: the CPU clock divided by the frame rate,
/// truncated.
pub const CYCLES_PER_FRAME: u32 = CPU_CLOCK_IN_HZ / TARGET_FPS;

pub const FRAME_INTERVAL_NS: u64 = 1_000_000_000 / 60;

pub const TIMER_INTERVAL_NS: u64 = 1_000_000_000 / 60;

/// The sleep timer is assumed accurate to about a millisecond, so the sleep
/// deliberately stops that much short of the deadline.
pub const SLEEP_SLACK_NS: u64 = 1_000_000;

/// How long to sleep before the frame deadline: the remaining time less the
/// slack, and nothing once the deadline is less than the slack away.
pub open spec fn spec_sleep_budget(deadline: u64, now: u64) -> u64 {
    if now < deadline && deadline - now > SLEEP_SLACK_NS {
        (deadline - now - SLEEP_SLACK_NS) as u64
    } else {
        0
    }
}

/// Drives the run loop's cadence: how many cycles the current frame has
/// used, and when the next frame and the next timer decay are due.
pub struct Pacer {
    cycles_in_current_frame: u32,
    next_frame_tick: u64,
    next_timer_tick: u64,
}

impl Pacer {
    pub closed spec fn cycles(self) -> u32 {
        self.cycles_in_current_frame
    }

    pub closed spec fn frame_deadline(self) -> u64 {
        self.next_frame_tick
    }

    pub closed spec fn timer_deadline(self) -> u64 {
        self.next_timer_tick
    }

    pub fn new(now_ns: u64) -> (p: Pacer)
        ensures
            p.cycles() == 0,
            p.frame_deadline() == now_ns,
            p.timer_deadline() == now_ns,
    {
        Pacer { cycles_in_current_frame: 0, next_frame_tick: now_ns, next_timer_tick: now_ns }
    }

    /// Whether the current frame still has cycle budget left.
    pub fn should_run_cycle(&self) -> (r: bool)
        ensures
            r == (self.cycles() < CYCLES_PER_FRAME),
    {
        self.cycles_in_current_frame < CYCLES_PER_FRAME
    }

    /// Accounts one executed cycle against the frame budget.
    pub fn record_cycle(&mut self)
        requires
            old(self).cycles() < CYCLES_PER_FRAME,
        ensures
            final(self).cycles() == old(self).cycles() + 1,
            final(self).frame_deadline() == old(self).frame_deadline(),
            final(self).timer_deadline() == old(self).timer_deadline(),
    {
        self.cycles_in_current_frame += 1;
    }

    /// At the frame boundary: when the frame deadline has passed, resets
    /// the cycle budget, moves the deadline one interval on and reports
    /// that the framebuffer should be rendered now.
    pub fn finish_frame(&mut self, now_ns: u64) -> (render: bool)
        requires
            now_ns <= u64::MAX - FRAME_INTERVAL_NS,
        ensures
            render == (old(self).frame_deadline() <= now_ns),
            final(self).timer_deadline() == old(self).timer_deadline(),
            render ==> final(self).cycles() == 0 && final(self).frame_deadline() == now_ns
                + FRAME_INTERVAL_NS,
            !render ==> final(self).cycles() == old(self).cycles() && final(self).frame_deadline()
                == old(self).frame_deadline(),
    {
        if self.next_frame_tick <= now_ns {
            self.cycles_in_current_frame = 0;
            self.next_frame_tick = now_ns + FRAME_INTERVAL_NS;
            true
        } else {
            false
        }
    }

    /// At the frame boundary: when the 60 Hz timer deadline has passed,
    /// moves it one interval on and reports that the timers should decay
    /// now.
    pub fn finish_timer(&mut self, now_ns: u64) -> (tick: bool)
        requires
            now_ns <= u64::MAX - TIMER_INTERVAL_NS,
        ensures
            tick == (old(self).timer_deadline() <= now_ns),
            final(self).cycles() == old(self).cycles(),
            final(self).frame_deadline() == old(self).frame_deadline(),
            tick ==> final(self).timer_deadline() == now_ns + TIMER_INTERVAL_NS,
            !tick ==> final(self).timer_deadline() == old(self).timer_deadline(),
    {
        if self.next_timer_tick <= now_ns {
            self.next_timer_tick = now_ns + TIMER_INTERVAL_NS;
            true
        } else {
            false
        }
    }

    /// The end-of-frame sleep, deliberately a millisecond short of the
    /// deadline so an inaccurate sleep cannot overshoot it.
    pub fn sleep_budget(&self, now_ns: u64) -> (r: u64)
        ensures
            r == spec_sleep_budget(self.frame_deadline(), now_ns),
    {
        if now_ns < self.next_frame_tick {
            let until = self.next_frame_tick - now_ns;
            if until > SLEEP_SLACK_NS {
                until - SLEEP_SLACK_NS
            } else {
                0
            }
        } else {
            0
        }
    }
}

} // verus!
