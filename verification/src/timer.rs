//! One-shot countdowns, advanced by the engine's timer.
use bevy::prelude::Timer;
use std::time::Duration;
use vstd::prelude::*;

verus! {

/// A one-shot countdown over whole nanoseconds.
///
/// Once `elapsed` has reached `duration` the countdown is finished and stays
/// so until it is reset. `just_finished` holds only after the tick that
/// finished it.
#[derive(Clone, Copy, Debug, PartialEq, Eq, Structural)]
pub struct Countdown {
    pub elapsed: u64,
    pub duration: u64,
    pub finished: bool,
    pub just_finished: bool,
}

/// Advances an unfinished one-shot `bevy::prelude::Timer`.
///
/// Builds a timer of `duration` nanoseconds with `Timer::new`, puts it at
/// `elapsed` with `Timer::set_elapsed`, ticks it by `delta` with
/// `Timer::tick`, and hands back `Timer::elapsed` and `Timer::just_finished`.
/// The contract claims what `tick` does to a timer that neither repeats nor
/// is paused nor has finished: it adds `delta`, and if that reaches the
/// duration it stops there and reports that it has just finished.
#[verifier::external_body]
fn timer_tick(elapsed: u64, duration: u64, delta: u64) -> (after: (u64, bool))
    ensures
        after.1 == (elapsed + delta >= duration),
        after.0 == (if elapsed + delta >= duration {
            duration as int
        } else {
            elapsed + delta
        }),
{
    let mut timer = Timer::new(Duration::from_nanos(duration), false);
    timer.set_elapsed(Duration::from_nanos(elapsed));
    timer.tick(Duration::from_nanos(delta));
    (timer.elapsed().as_nanos() as u64, timer.just_finished())
}

impl Countdown {
    /// The countdown after a tick of `delta` nanoseconds.
    pub open spec fn ticked(self, delta: u64) -> Countdown {
        if self.finished {
            Countdown { just_finished: false, ..self }
        } else if self.elapsed + delta >= self.duration {
            Countdown {
                elapsed: self.duration,
                duration: self.duration,
                finished: true,
                just_finished: true,
            }
        } else {
            Countdown {
                elapsed: (self.elapsed + delta) as u64,
                duration: self.duration,
                finished: false,
                just_finished: false,
            }
        }
    }

    /// The countdown set back to its start, with the same duration.
    pub open spec fn rewound(self) -> Countdown {
        Countdown { elapsed: 0, duration: self.duration, finished: false, just_finished: false }
    }

    /// Whether at least half of the duration has elapsed.
    pub open spec fn past_half(self) -> bool {
        2 * self.elapsed >= self.duration
    }

    /// A countdown of `duration` nanoseconds that has not started.
    pub fn new(duration: u64) -> (c: Countdown)
        ensures
            c == (Countdown { elapsed: 0, duration, finished: false, just_finished: false }),
    {
        Countdown { elapsed: 0, duration, finished: false, just_finished: false }
    }

    /// Advances the countdown by `delta` nanoseconds.
    pub fn tick(&mut self, delta: u64)
        ensures
            *final(self) == old(self).ticked(delta),
    {
        if self.finished {
            self.just_finished = false;
        } else {
            let after: (u64, bool) = timer_tick(self.elapsed, self.duration, delta);
            self.elapsed = after.0;
            self.finished = after.1;
            self.just_finished = after.1;
        }
    }

    /// Sets the countdown back to its start.
    pub fn reset(&mut self)
        ensures
            *final(self) == old(self).rewound(),
    {
        self.elapsed = 0;
        self.finished = false;
        self.just_finished = false;
    }

    /// Changes the duration and nothing else.
    pub fn set_duration(&mut self, duration: u64)
        ensures
            *final(self) == (Countdown { duration, ..*old(self) }),
    {
        self.duration = duration;
    }

    /// Whether the countdown has reached its duration.
    pub fn finished(&self) -> (b: bool)
        ensures
            b == self.finished,
    {
        self.finished
    }

    /// Whether the last tick was the one that finished the countdown.
    pub fn just_finished(&self) -> (b: bool)
        ensures
            b == self.just_finished,
    {
        self.just_finished
    }

    /// Whether at least half of the duration has elapsed.
    pub fn half_elapsed(&self) -> (b: bool)
        ensures
            b == self.past_half(),
    {
        self.elapsed as u128 * 2 >= self.duration as u128
    }
}

} // verus!
