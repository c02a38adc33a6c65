//! When a page has gone quiet: a countdown that each bit of activity
//! (network requests, screencast frames) pushes back, but never past a
//! maximum wait.
//!
//! The driver keeps the clock of a countdown and feeds it what happens: the
//! time it was asked to wake at has come, the countdown was cancelled, or
//! the page showed activity that asks for more quiet.
use vstd::prelude::*;

use crate::time::{Duration, Time};

verus! {

/// The deadlines of a countdown, in microseconds of the driver's clock.
#[derive(Debug, Clone, Copy, PartialEq, Eq, Structural)]
pub struct QuiescenceClock {
    /// When the page counts as quiet if nothing more happens.
    pub deadline_idle: Time,
    /// When the page counts as quiet whatever happens.
    pub deadline_max: Time,
}

/// What happens while a countdown runs.
#[derive(Debug, Clone, Copy, PartialEq, Eq, Structural)]
pub enum QuiescenceEvent {
    /// The time that the countdown asked to wake at has come.
    Elapsed,
    /// The countdown was cancelled.
    Cancelled,
    /// At `now`, the page showed activity that asks for `bump` more quiet.
    Activity { now: Time, bump: Duration },
    /// The page's activity stream ended; nothing more will come from it.
    ActivityEnded,
}

/// Where a countdown stands after an event.
#[derive(Debug, Clone, Copy, PartialEq, Eq, Structural)]
pub enum QuiescenceOutcome {
    /// The page is quiet.
    Quiescent,
    /// The countdown was cancelled: the page is not known to be quiet.
    Cancelled,
    /// The countdown goes on.
    Waiting,
}

/// The whole microseconds of a duration.
pub open spec fn micros(d: Duration) -> nat {
    d@ / 1000
}

/// The earlier of two points in time.
pub open spec fn earlier(a: Time, b: Time) -> Time {
    if a.0 <= b.0 { a } else { b }
}

impl QuiescenceClock {
    /// When the driver wakes the countdown: the earlier deadline.
    pub open spec fn wake_time(self) -> Time {
        earlier(self.deadline_idle, self.deadline_max)
    }

    /// A countdown started at `now`: quiet after `timeout_idle` without
    /// activity, and after `timeout_max` at the latest.
    pub fn start(now: Time, timeout_idle: Duration, timeout_max: Duration) -> (r: Self)
        requires
            now.0 + micros(timeout_idle) <= u64::MAX,
            now.0 + micros(timeout_max) <= u64::MAX,
        ensures
            r.deadline_idle.0 == now.0 + micros(timeout_idle),
            r.deadline_max.0 == now.0 + micros(timeout_max),
    {
        let idle = timeout_idle.as_micros();
        let max = timeout_max.as_micros();
        QuiescenceClock { deadline_idle: Time(now.0 + idle as u64), deadline_max: Time(now.0 + max as u64) }
    }

    /// When the driver wakes the countdown next.
    pub fn next_wake(&self) -> (r: Time)
        ensures
            r == self.wake_time(),
    {
        if self.deadline_idle.0 <= self.deadline_max.0 {
            self.deadline_idle
        } else {
            self.deadline_max
        }
    }

    /// The countdown after `event`: quiet when the wake time has come,
    /// cancelled when cancelled; activity moves the idle deadline to the end
    /// of its bump, but not past the maximum.
    pub fn on_event(&mut self, event: QuiescenceEvent) -> (r: QuiescenceOutcome)
        requires
            event matches QuiescenceEvent::Activity { now, bump } ==> now.0 + micros(bump) <= u64::MAX,
        ensures
            final(self).deadline_max == old(self).deadline_max,
            match event {
                QuiescenceEvent::Elapsed => r == QuiescenceOutcome::Quiescent && *final(self) == *old(self),
                QuiescenceEvent::Cancelled => r == QuiescenceOutcome::Cancelled && *final(self) == *old(self),
                QuiescenceEvent::ActivityEnded => r == QuiescenceOutcome::Waiting && *final(self) == *old(self),
                QuiescenceEvent::Activity { now, bump } => {
                    &&& r == QuiescenceOutcome::Waiting
                    &&& final(self).deadline_idle == earlier(Time((now.0 + micros(bump)) as u64), old(self).deadline_max)
                },
            },
    {
        match event {
            QuiescenceEvent::Elapsed => QuiescenceOutcome::Quiescent,
            QuiescenceEvent::Cancelled => QuiescenceOutcome::Cancelled,
            QuiescenceEvent::ActivityEnded => QuiescenceOutcome::Waiting,
            QuiescenceEvent::Activity { now, bump } => {
                let until = Time(now.0 + bump.as_micros() as u64);
                self.deadline_idle = if until.0 <= self.deadline_max.0 { until } else { self.deadline_max };
                QuiescenceOutcome::Waiting
            },
        }
    }
}

/// However much activity there is, the countdown wakes no later than its
/// maximum deadline, which activity never moves.
pub proof fn law_activity_never_passes_the_maximum(before: QuiescenceClock, after: QuiescenceClock, now: Time, bump: Duration)
    requires
        after.deadline_max == before.deadline_max,
        after.deadline_idle == earlier(Time((now.0 + micros(bump)) as u64), before.deadline_max),
    ensures
        after.wake_time().0 <= after.deadline_max.0,
        after.deadline_idle.0 <= before.deadline_max.0,
{
}

} // verus!
