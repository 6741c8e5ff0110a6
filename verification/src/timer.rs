//! A stopwatch for the time spent on a board.
//!
//! The clock itself lies outside what is proved here: reading it and
//! subtracting two readings are taken from `std::time` on trust. What is
//! proved is which readings the stopwatch keeps, and how it folds the time
//! between them into its total.

use std::time::{Duration, Instant};
use vstd::prelude::*;

verus! {

/// A reading of the monotonic clock. Nothing is known of what it holds.
#[verifier::external_type_specification]
#[verifier::external_body]
pub struct ExInstant(Instant);

/// The length of time that a `Duration` holds, in nanoseconds: what
/// `Duration::as_nanos` reports of it.
pub uninterp spec fn duration_nanos(d: Duration) -> nat;

/// The whole seconds in a length of time given in nanoseconds.
pub open spec fn whole_seconds(nanos: nat) -> nat {
    nanos / 1_000_000_000
}

/// The longest time a `Duration` holds: `u64::MAX` seconds and
/// 999,999,999 nanoseconds.
pub open spec fn max_duration_nanos() -> nat {
    (u64::MAX as nat) * 1_000_000_000 + 999_999_999
}

/// The sum of two lengths of time, held at the longest `Duration`.
pub open spec fn saturating_sum(a: nat, b: nat) -> nat {
    if a + b <= max_duration_nanos() {
        a + b
    } else {
        max_duration_nanos()
    }
}

/// Taken on trust of `Duration::new`: it yields a duration of `secs`
/// seconds and `nanos` nanoseconds, carrying whole seconds out of `nanos`.
/// It panics when that carry overflows the seconds, which the precondition
/// rules out.
pub assume_specification[ Duration::new ](secs: u64, nanos: u32) -> (d: Duration)
    requires
        secs + nanos / 1_000_000_000 <= u64::MAX,
    ensures
        duration_nanos(d) == secs * 1_000_000_000 + nanos,
;

/// Taken on trust of `Duration::as_secs`: it yields the whole seconds of
/// the duration.
pub assume_specification[ Duration::as_secs ](d: &Duration) -> (secs: u64)
    ensures
        secs == whole_seconds(duration_nanos(*d)),
;

/// Taken on trust of `Duration::saturating_add`: it adds two durations, and
/// yields the longest duration, `Duration::MAX`, where the sum would not
/// fit.
pub assume_specification[ Duration::saturating_add ](a: Duration, b: Duration) -> (sum: Duration)
    ensures
        duration_nanos(sum) == saturating_sum(duration_nanos(a), duration_nanos(b)),
;

/// `Instant::now` reads the clock. Nothing is claimed of the reading.
pub assume_specification[ Instant::now ]() -> (now: Instant)
;

/// The time from one reading of the clock to another, in nanoseconds: what
/// `Instant::saturating_duration_since` reports of the two.
pub uninterp spec fn time_between(earlier: Instant, later: Instant) -> nat;

/// Taken on trust of `Instant::saturating_duration_since`: it yields the
/// time from `earlier` to `later`, which depends on the two readings alone.
/// It does not panic; where `earlier` is the later of the two it yields
/// zero, of which nothing is claimed here.
pub assume_specification[ Instant::saturating_duration_since ](
    later: &Instant,
    earlier: Instant,
) -> (gap: Duration)
    ensures
        duration_nanos(gap) == time_between(earlier, *later),
;

/// What a stopwatch stands for: the time gathered so far, in nanoseconds,
/// whether it is running, and the reading of the clock at which it was
/// started.
pub struct TimerView {
    pub accumulated: nat,
    pub running: bool,
    pub start: Option<Instant>,
}

impl TimerView {
    /// The stopwatch set running at the reading `now`; one that runs
    /// already is left as it is, and keeps the reading it was started at.
    pub open spec fn started_at(self, now: Instant) -> TimerView {
        if self.running {
            self
        } else {
            TimerView { accumulated: self.accumulated, running: true, start: Some(now) }
        }
    }

    /// The time from the start of the stopwatch to the reading `now`; zero
    /// for one that holds no reading.
    pub open spec fn since_start(self, now: Instant) -> nat {
        match self.start {
            Some(start) => time_between(start, now),
            None => 0,
        }
    }

    /// The stopwatch halted `since_start` nanoseconds after it was started;
    /// one that does not run is left as it is.
    pub open spec fn stopped_after(self, since_start: nat) -> TimerView {
        if self.running {
            TimerView {
                accumulated: saturating_sum(self.accumulated, since_start),
                running: false,
                start: None,
            }
        } else {
            self
        }
    }

    /// The stopwatch halted at the reading `now`: the time since the
    /// reading it was started at is added to what it has gathered.
    pub open spec fn stopped_at(self, now: Instant) -> TimerView {
        self.stopped_after(self.since_start(now))
    }

    /// The total shown `since_start` nanoseconds after the stopwatch was
    /// started; one that does not run shows what it has gathered.
    pub open spec fn shown_after(self, since_start: nat) -> nat {
        if self.running {
            saturating_sum(self.accumulated, since_start)
        } else {
            self.accumulated
        }
    }

    /// The total shown at the reading `now`.
    pub open spec fn shown_at(self, now: Instant) -> nat {
        self.shown_after(self.since_start(now))
    }

    /// A stopwatch at zero that does not run.
    pub open spec fn idle() -> TimerView {
        TimerView { accumulated: 0, running: false, start: None }
    }
}

/// The stopwatch `after` is `before` set running at some reading of the
/// clock.
pub open spec fn timer_started(before: TimerView, after: TimerView) -> bool {
    exists|now: Instant| after == before.started_at(now)
}

/// The stopwatch `after` is `before` halted at some reading of the clock.
pub open spec fn timer_halted(before: TimerView, after: TimerView) -> bool {
    exists|now: Instant| after == before.stopped_at(now)
}

/// A simple timer for tracking elapsed time in the game.
pub struct Timer {
    start_time: Option<Instant>,
    elapsed: Duration,
    running: bool,
}

impl View for Timer {
    type V = TimerView;

    closed spec fn view(&self) -> TimerView {
        TimerView {
            accumulated: duration_nanos(self.elapsed),
            running: self.running,
            start: self.start_time,
        }
    }
}

impl Timer {
    /// Creates a timer at zero that does not run.
    pub fn new() -> (timer: Timer)
        ensures
            timer@ == TimerView::idle(),
    {
        Timer { start_time: None, elapsed: Duration::new(0, 0), running: false }
    }

    /// Starts the timer at the present reading of the clock. If the timer
    /// is already running, this does nothing: the timer keeps the reading
    /// it was started at.
    ///
    /// `start_at` is the same step for a given reading.
    pub fn start(&mut self)
        ensures
            timer_started(old(self)@, final(self)@),
            old(self)@.running ==> final(self)@ == old(self)@,
            !old(self)@.running ==> final(self)@.running && final(self)@.start.is_some()
                && final(self)@.accumulated == old(self)@.accumulated,
    {
        if !self.running {
            let now = Instant::now();
            self.start_at(now);
        } else {
            assert(final(self)@ == old(self)@.started_at(arbitrary()));
        }
    }

    /// Starts the timer as `start` does, taking the reading of the clock
    /// from the caller.
    pub fn start_at(&mut self, now: Instant)
        ensures
            final(self)@ == old(self)@.started_at(now),
    {
        if !self.running {
            self.start_time = Some(now);
            self.running = true;
        }
    }

    /// Stops the timer and adds the time since it was started to the total.
    /// If the timer is not running, this does nothing.
    ///
    /// The time is taken at the present reading of the clock; `stop_at` is
    /// the same step for a given reading.
    pub fn stop(&mut self)
        ensures
            timer_halted(old(self)@, final(self)@),
            !old(self)@.running ==> final(self)@ == old(self)@,
    {
        if self.running {
            let now = Instant::now();
            self.stop_at(now);
        } else {
            assert(final(self)@ == old(self)@.stopped_at(arbitrary()));
        }
    }

    /// Stops the timer as `stop` does, taking the reading of the clock from
    /// the caller.
    pub fn stop_at(&mut self, now: Instant)
        ensures
            final(self)@ == old(self)@.stopped_at(now),
    {
        let since: Duration = match self.start_time {
            Some(start) => now.saturating_duration_since(start),
            None => Duration::new(0, 0),
        };
        self.stop_after(since);
    }

    /// Stops the timer as `stop` does, taking the time since it was started
    /// from the caller.
    pub fn stop_after(&mut self, since_start: Duration)
        ensures
            final(self)@ == old(self)@.stopped_after(duration_nanos(since_start)),
    {
        if self.running {
            self.elapsed = self.elapsed.saturating_add(since_start);
            self.start_time = None;
            self.running = false;
        }
    }

    /// Resets the timer to zero and stops it.
    pub fn reset(&mut self)
        ensures
            final(self)@ == TimerView::idle(),
    {
        self.start_time = None;
        self.elapsed = Duration::new(0, 0);
        self.running = false;
    }

    /// Returns the total elapsed time. If the timer is running, this
    /// includes the time from its start to the present reading of the
    /// clock; `elapsed_at` is the same for a given reading.
    pub fn get_elapsed(&self) -> (total: Duration)
        ensures
            exists|now: Instant| duration_nanos(total) == self@.shown_at(now),
            !self@.running ==> duration_nanos(total) == self@.accumulated,
    {
        if self.running {
            let now = Instant::now();
            let total = self.elapsed_at(now);
            assert(duration_nanos(total) == self@.shown_at(now));
            total
        } else {
            assert(duration_nanos(self.elapsed) == self@.shown_at(arbitrary()));
            self.elapsed
        }
    }

    /// Returns the total as `get_elapsed` does, taking the reading of the
    /// clock from the caller.
    pub fn elapsed_at(&self, now: Instant) -> (total: Duration)
        ensures
            duration_nanos(total) == self@.shown_at(now),
    {
        let since: Duration = match self.start_time {
            Some(start) => now.saturating_duration_since(start),
            None => Duration::new(0, 0),
        };
        self.elapsed_after(since)
    }

    /// Returns the total as `get_elapsed` does, taking the time since the
    /// timer was started from the caller.
    pub fn elapsed_after(&self, since_start: Duration) -> (total: Duration)
        ensures
            duration_nanos(total) == self@.shown_after(duration_nanos(since_start)),
    {
        if self.running {
            self.elapsed.saturating_add(since_start)
        } else {
            self.elapsed
        }
    }

    /// Returns the total elapsed time in whole seconds.
    pub fn get_elapsed_seconds(&self) -> (secs: u64)
        ensures
            exists|now: Instant| secs == whole_seconds(self@.shown_at(now)),
            !self@.running ==> secs == whole_seconds(self@.accumulated),
    {
        let total = self.get_elapsed();
        let secs = total.as_secs();
        proof {
            let now = choose|now: Instant| duration_nanos(total) == self@.shown_at(now);
            assert(secs == whole_seconds(self@.shown_at(now)));
        }
        secs
    }
}

} // verus!
