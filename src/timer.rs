//! The state of one countdown timer, kept between frames of the GUI. Times
//! are whole milliseconds; instants are read from a monotonic clock that the
//! caller owns.
use vstd::prelude::*;

verus! {

/// What a `TimerData` holds.
pub struct TimerModel {
    /// When the timer was last advanced; `None` before the first tick.
    pub last_ticked: Option<u64>,
    /// How much time has passed.
    pub duration: u64,
    /// After how long the timer ends.
    pub end_after: u64,
    /// Whether the timer is paused.
    pub paused: bool,
}

/// Persistent data of one countdown timer.
pub struct TimerData {
    last_ticked: Option<u64>,
    duration: u64,
    end_after: u64,
    paused: bool,
}

impl View for TimerData {
    type V = TimerModel;

    closed spec fn view(&self) -> TimerModel {
        TimerModel {
            last_ticked: self.last_ticked,
            duration: self.duration,
            end_after: self.end_after,
            paused: self.paused,
        }
    }
}

/// The time that passed between two readings of a monotonic clock; none if
/// the readings are out of order.
pub open spec fn elapsed_between(earlier: u64, now: u64) -> int {
    if now >= earlier {
        now - earlier
    } else {
        0
    }
}

/// The smaller of two numbers.
pub open spec fn min_of(a: int, b: int) -> int {
    if a <= b {
        a
    } else {
        b
    }
}

impl TimerData {
    /// The time passed never exceeds the timer's length.
    pub open spec fn wf(&self) -> bool {
        self@.duration <= self@.end_after
    }

    /// A running timer, at zero, that ends after `end_after` milliseconds.
    pub fn new(end_after: u64) -> (r: TimerData)
        ensures
            r@ == (TimerModel { last_ticked: None, duration: 0, end_after, paused: false }),
            r.wf(),
    {
        TimerData { last_ticked: None, duration: 0, end_after, paused: false }
    }

    /// A timer as it was saved: `duration` of `end_after` milliseconds
    /// passed, capped at `end_after`.
    pub fn restore(duration: u64, end_after: u64, paused: bool) -> (r: TimerData)
        ensures
            r@ == (TimerModel {
                last_ticked: None,
                duration: min_of(duration as int, end_after as int) as u64,
                end_after,
                paused,
            }),
            r.wf(),
    {
        let duration = if duration <= end_after {
            duration
        } else {
            end_after
        };
        TimerData { last_ticked: None, duration, end_after, paused }
    }

    /// Pauses or resumes the timer; nothing else changes.
    pub fn pause(&mut self, pause: bool)
        ensures
            final(self)@ == (TimerModel { paused: pause, ..old(self)@ }),
    {
        self.paused = pause;
    }

    /// Sets the time passed back to zero.
    pub fn reset(&mut self)
        ensures
            final(self)@ == (TimerModel { duration: 0, ..old(self)@ }),
    {
        self.duration = 0;
    }

    /// Advances a running timer to the clock reading `now`: the time since
    /// the last tick is added, up to the timer's length. A paused timer does
    /// not move.
    pub fn tick(&mut self, now: u64)
        requires
            old(self).wf(),
        ensures
            final(self).wf(),
            old(self)@.paused ==> final(self)@ == old(self)@,
            !old(self)@.paused ==> final(self)@ == (TimerModel {
                last_ticked: Some(now),
                duration: match old(self)@.last_ticked {
                    Some(last) => min_of(
                        old(self)@.duration + elapsed_between(last, now),
                        old(self)@.end_after as int,
                    ) as u64,
                    None => old(self)@.duration,
                },
                ..old(self)@
            }),
    {
        if self.paused {
            return;
        }
        if let Some(last) = self.last_ticked {
            let elapsed = now.saturating_sub(last);
            let total = self.duration.saturating_add(elapsed);
            self.duration = if total <= self.end_after {
                total
            } else {
                self.end_after
            };
        }
        self.last_ticked = Some(now);
    }

    /// Whole seconds left: whole seconds of the length less whole seconds
    /// passed.
    pub fn remaining_secs(&self) -> (r: u64)
        requires
            self.wf(),
        ensures
            r == self@.end_after / 1000 - self@.duration / 1000,
    {
        proof {
            lemma_div_monotone(self.duration, self.end_after);
        }
        self.end_after / 1000 - self.duration / 1000
    }

    /// Milliseconds passed.
    pub fn duration(&self) -> (r: u64)
        ensures
            r == self@.duration,
    {
        self.duration
    }

    /// The timer's length in milliseconds.
    pub fn end_after(&self) -> (r: u64)
        ensures
            r == self@.end_after,
    {
        self.end_after
    }

    /// Whether the timer is paused.
    pub fn is_paused(&self) -> (r: bool)
        ensures
            r == self@.paused,
    {
        self.paused
    }
}

proof fn lemma_div_monotone(a: u64, b: u64)
    requires
        a <= b,
    ensures
        a / 1000 <= b / 1000,
{
    assert(a / 1000 <= b / 1000) by (nonlinear_arith)
        requires
            a <= b,
    ;
}

} // verus!
