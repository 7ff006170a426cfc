//! Countdown timers over integer nanoseconds.

use vstd::prelude::*;

verus! {

/// Nanoseconds in one millisecond.
pub const NANOS_PER_MILLI: u64 = 1_000_000;

/// Whether a timer stops at its duration or starts over.
#[derive(Clone, Copy, Debug, PartialEq, Eq, Structural)]
pub enum TimerMode {
    Once,
    Repeating,
}

/// A timer that counts elapsed nanoseconds up to its duration.
#[derive(Clone, Copy, Debug, PartialEq, Eq, Structural)]
pub struct Timer {
    pub elapsed: u64,
    pub duration: u64,
    pub mode: TimerMode,
    pub paused: bool,
    pub finished: bool,
    pub times_finished_this_tick: u32,
}

impl Timer {
    /// A running timer of the given duration with nothing elapsed.
    pub open spec fn spec_new(duration: u64, mode: TimerMode) -> Timer {
        Timer {
            elapsed: 0,
            duration,
            mode,
            paused: false,
            finished: false,
            times_finished_this_tick: 0,
        }
    }

    /// Whether a tick would leave the clock where it is: the timer is
    /// paused, or it runs once and has finished.
    pub open spec fn holds_still(self) -> bool {
        self.paused || (self.mode == TimerMode::Once && self.finished)
    }

    /// The timer after `delta` nanoseconds have passed.
    ///
    /// A paused timer keeps its clock; a one-shot timer stops at its
    /// duration and reports that it finished on the tick that reached it; a
    /// repeating timer starts over each time the duration is reached and
    /// counts how often that happened within the tick.
    pub open spec fn spec_tick(self, delta: u64) -> Timer {
        let total = self.elapsed + delta;
        if self.paused {
            Timer {
                times_finished_this_tick: 0,
                finished: if self.mode == TimerMode::Repeating {
                    false
                } else {
                    self.finished
                },
                ..self
            }
        } else if self.mode == TimerMode::Once && self.finished {
            Timer { times_finished_this_tick: 0, ..self }
        } else if total < self.duration {
            Timer { elapsed: total as u64, finished: false, times_finished_this_tick: 0, ..self }
        } else if self.mode == TimerMode::Once {
            Timer { elapsed: self.duration, finished: true, times_finished_this_tick: 1, ..self }
        } else if self.duration == 0 {
            Timer { elapsed: 0, finished: true, times_finished_this_tick: u32::MAX, ..self }
        } else {
            Timer {
                elapsed: (total % (self.duration as int)) as u64,
                finished: true,
                times_finished_this_tick: if total / (self.duration as int) > u32::MAX {
                    u32::MAX
                } else {
                    (total / (self.duration as int)) as u32
                },
                ..self
            }
        }
    }

    pub fn new(duration: u64, mode: TimerMode) -> (timer: Timer)
        ensures
            timer == Self::spec_new(duration, mode),
    {
        Timer {
            elapsed: 0,
            duration,
            mode,
            paused: false,
            finished: false,
            times_finished_this_tick: 0,
        }
    }

    /// Whether the duration has been reached.
    pub fn finished(&self) -> (done: bool)
        ensures
            done == self.finished,
    {
        self.finished
    }

    /// Whether the last tick reached the duration.
    pub fn just_finished(&self) -> (done: bool)
        ensures
            done == (self.times_finished_this_tick > 0),
    {
        self.times_finished_this_tick > 0
    }

    pub fn paused(&self) -> (held: bool)
        ensures
            held == self.paused,
    {
        self.paused
    }

    pub fn pause(&mut self)
        ensures
            *final(self) == (Timer { paused: true, ..*old(self) }),
    {
        self.paused = true;
    }

    pub fn unpause(&mut self)
        ensures
            *final(self) == (Timer { paused: false, ..*old(self) }),
    {
        self.paused = false;
    }

    pub fn set_duration(&mut self, duration: u64)
        ensures
            *final(self) == (Timer { duration, ..*old(self) }),
    {
        self.duration = duration;
    }

    /// Lets `delta` nanoseconds pass.
    ///
    /// A running timer is stepped by the engine's timer. What the engine's
    /// timer leaves open is settled here: a repeating timer of duration
    /// zero finishes on every tick, and a count of finishes that the
    /// engine's counter cannot hold stops at the largest count.
    pub fn tick(&mut self, delta: u64)
        ensures
            *final(self) == old(self).spec_tick(delta),
    {
        if self.paused {
            self.times_finished_this_tick = 0;
            if self.mode == TimerMode::Repeating {
                self.finished = false;
            }
            return ;
        }
        if self.mode == TimerMode::Once && self.finished {
            self.times_finished_this_tick = 0;
            return ;
        }
        let total: u128 = self.elapsed as u128 + delta as u128;
        let duration: u128 = self.duration as u128;
        if self.mode == TimerMode::Repeating && self.duration == 0 {
            self.elapsed = 0;
            self.finished = true;
            self.times_finished_this_tick = u32::MAX;
        } else if self.mode == TimerMode::Repeating && total / duration > u32::MAX as u128 {
            proof {
                if total < duration {
                    vstd::arithmetic::div_mod::lemma_basic_div(total as int, duration as int);
                }
                vstd::arithmetic::div_mod::lemma_mod_bound(total as int, duration as int);
            }
            self.elapsed = (total % duration) as u64;
            self.finished = true;
            self.times_finished_this_tick = u32::MAX;
        } else {
            let (elapsed, finished, times) = engine_tick(
                self.elapsed,
                self.duration,
                self.mode,
                delta,
            );
            self.elapsed = elapsed;
            self.finished = finished;
            self.times_finished_this_tick = times;
        }
    }
}

/// `bevy::time::Timer::tick` on a fresh timer of the given duration and
/// mode whose clock was set to `elapsed`: the clock, whether the timer has
/// finished, and how often it finished within the tick. While the clock
/// stays below the duration the timer runs on; when it reaches it, a
/// one-shot timer stops there, and a repeating timer keeps the remainder
/// and counts the full durations. The engine divides by the duration of a
/// repeating timer and keeps the count in 32 bits: a duration of zero and
/// a count beyond 32 bits are left out.
#[verifier::external_body]
fn engine_tick(elapsed: u64, duration: u64, mode: TimerMode, delta: u64) -> (ticked: (u64, bool, u32))
    requires
        mode == TimerMode::Repeating ==> duration > 0 && (elapsed + delta) / (duration as int)
            <= u32::MAX,
    ensures
        elapsed + delta < duration ==> ticked == ((elapsed + delta) as u64, false, 0u32),
        elapsed + delta >= duration && mode == TimerMode::Once ==> ticked == (duration, true, 1u32),
        elapsed + delta >= duration && mode == TimerMode::Repeating ==> ticked == (
            ((elapsed + delta) % (duration as int)) as u64,
            true,
            ((elapsed + delta) / (duration as int)) as u32,
        ),
{
    let mut timer = bevy::time::Timer::new(
        std::time::Duration::from_nanos(duration),
        match mode {
            TimerMode::Once => bevy::time::TimerMode::Once,
            TimerMode::Repeating => bevy::time::TimerMode::Repeating,
        },
    );
    timer.set_elapsed(std::time::Duration::from_nanos(elapsed));
    timer.tick(std::time::Duration::from_nanos(delta));
    (timer.elapsed().as_nanos() as u64, timer.finished(), timer.times_finished_this_tick())
}

} // verus!
