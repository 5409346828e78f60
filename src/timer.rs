use vstd::prelude::*;
use crate::constants::MAX_TIMER_MS;

verus! {

#[derive(Clone, Copy, Debug, PartialEq, Eq, Structural)]
pub enum TimerMode {
    /// Runs up to its duration and stays finished.
    Once,
    /// Wraps around and reports completion on each tick in which it wraps.
    Repeating,
}

/// A countdown in whole milliseconds.
#[derive(Clone, Copy, Debug, PartialEq, Eq, Structural)]
pub struct Timer {
    pub duration_ms: u64,
    pub elapsed_ms: u64,
    pub mode: TimerMode,
    /// For `Once`, whether the duration has been reached; for `Repeating`,
    /// whether the last tick completed a cycle.
    pub finished: bool,
}

impl Timer {
    pub open spec fn wf(self) -> bool {
        &&& 0 < self.duration_ms <= MAX_TIMER_MS
        &&& match self.mode {
            TimerMode::Once => self.elapsed_ms <= self.duration_ms && self.finished == (
            self.elapsed_ms == self.duration_ms),
            TimerMode::Repeating => self.elapsed_ms < self.duration_ms,
        }
    }

    /// A timer that has not started.
    pub open spec fn fresh(duration_ms: u64, mode: TimerMode) -> Timer {
        Timer { duration_ms, elapsed_ms: 0, mode, finished: false }
    }

    /// The timer after `dt_ms` more milliseconds.
    pub open spec fn ticked(self, dt_ms: u32) -> Timer {
        let total = self.elapsed_ms + dt_ms;
        let done = total >= self.duration_ms;
        let elapsed = match self.mode {
            TimerMode::Once => if done {
                self.duration_ms as int
            } else {
                total
            },
            TimerMode::Repeating => if done {
                total % (self.duration_ms as int)
            } else {
                total
            },
        };
        Timer { elapsed_ms: elapsed as u64, finished: done, ..self }
    }

    pub fn new(duration_ms: u64, mode: TimerMode) -> (r: Timer)
        requires
            0 < duration_ms <= MAX_TIMER_MS,
        ensures
            r == Timer::fresh(duration_ms, mode),
            r.wf(),
    {
        Timer { duration_ms, elapsed_ms: 0, mode, finished: false }
    }

    pub fn tick(&mut self, dt_ms: u32)
        requires
            old(self).wf(),
        ensures
            *final(self) == old(self).ticked(dt_ms),
            final(self).wf(),
    {
        let (elapsed, finished) = bevy_tick(self.duration_ms, self.elapsed_ms, self.mode, dt_ms);
        self.elapsed_ms = elapsed;
        self.finished = finished;
    }
}

/// Relies on bevy's `Timer::tick`: a timer of `duration_ms` in `mode` that has
/// run for `elapsed_ms` is advanced by `delta_ms`. A `Once` timer stops at its
/// duration; a `Repeating` one keeps the remainder of the elapsed time modulo
/// its duration. `finished` reports whether the duration was reached.
/// `Timer::new`, `set_elapsed`, `elapsed` and `finished` carry the state in and out.
#[verifier::external_body]
fn bevy_tick(duration_ms: u64, elapsed_ms: u64, mode: TimerMode, delta_ms: u32) -> (r: (u64, bool))
    requires
        0 < duration_ms <= MAX_TIMER_MS,
        elapsed_ms <= duration_ms,
        mode == TimerMode::Repeating ==> elapsed_ms < duration_ms,
    ensures
        r.1 == (elapsed_ms + delta_ms >= duration_ms),
        mode == TimerMode::Once ==> r.0 == if r.1 {
            duration_ms as int
        } else {
            elapsed_ms + delta_ms
        },
        mode == TimerMode::Repeating ==> r.0 == if r.1 {
            (elapsed_ms + delta_ms) % (duration_ms as int)
        } else {
            elapsed_ms + delta_ms
        },
{
    let mode = match mode {
        TimerMode::Once => bevy::time::TimerMode::Once,
        TimerMode::Repeating => bevy::time::TimerMode::Repeating,
    };
    let mut t = bevy::time::Timer::new(std::time::Duration::from_millis(duration_ms), mode);
    t.set_elapsed(std::time::Duration::from_millis(elapsed_ms));
    t.tick(std::time::Duration::from_millis(delta_ms as u64));
    (t.elapsed().as_millis() as u64, t.finished())
}

} // verus!
