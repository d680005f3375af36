//! Pacing timers.
//!
//! `ZeroSleepTimer` accumulates elapsed nanoseconds and lets a loop proceed
//! once a whole period (`target` nanoseconds) has been accounted for, carrying
//! any surplus over to the next period.  `SleepTimer` sleeps off whatever is
//! left of a fixed period.
//!
//! Reading the clock is done here through small trusted wrappers; the
//! sleeping itself is done by the caller, one step at a time (see
//! [`ZeroSleepTimer::wait_step`] and [`SleepTimer::sleep_length_for`]).

use std::time::Duration;
use std::time::Instant;
use vstd::prelude::*;

verus! {

/// A point in time, as the system clock reports it.
#[verifier::external_type_specification]
#[verifier::external_body]
pub struct ExInstant(Instant);

/// What `Duration::as_nanos` returns for a duration: its length in
/// nanoseconds.
pub uninterp spec fn duration_nanos(d: Duration) -> u128;

/// Calls `Instant::now`.  Nothing is claimed of the result: it is whatever the
/// clock reads.
#[verifier::external_body]
fn instant_now() -> Instant {
    Instant::now()
}

/// Calls `Instant::elapsed`.  Nothing is claimed of the result: it depends on
/// the clock.
#[verifier::external_body]
fn elapsed(since: &Instant) -> Duration {
    since.elapsed()
}

/// Calls `Duration::as_nanos`: the whole length of `d` in nanoseconds.
#[verifier::external_body]
pub(crate) fn as_nanos(d: &Duration) -> (r: u128)
    ensures
        r == duration_nanos(*d),
{
    d.as_nanos()
}

/// Calls `Duration::as_micros`: the whole length of `d` in microseconds, that
/// is its nanoseconds divided by one thousand, rounded down.
#[verifier::external_body]
pub(crate) fn as_micros(d: &Duration) -> (r: u128)
    ensures
        r == duration_nanos(*d) / 1000,
{
    d.as_micros()
}

/// Calls `Duration::from_nanos`: a duration of exactly `nanos` nanoseconds.
#[verifier::external_body]
pub(crate) fn from_nanos(nanos: u64) -> (r: Duration)
    ensures
        duration_nanos(r) == nanos,
{
    Duration::from_nanos(nanos)
}

/// One billion: the nanoseconds in a second.
pub const NANOS_PER_SECOND: u128 = 1_000_000_000;

/// The shortest stretch of time, in nanoseconds, that one step of
/// [`ZeroSleepTimer::wait_step`] accounts for.
pub const MIN_STEP_NANOS: u128 = 1000;

/// What one step of a [`ZeroSleepTimer`] wait asks the caller to do next.
#[derive(Debug, Clone, Copy, PartialEq, Eq)]
pub enum WaitStep {
    /// Less than [`MIN_STEP_NANOS`] has passed: nothing was accounted; read the
    /// clock again.
    Pending,
    /// Time was accounted but the period is not over yet: yield (sleep for
    /// zero time) and step again.
    Sleep,
    /// The period is over: the wait ends.
    Done,
}

/// What one step of a [`ZeroSleepTimer`] wait does, from `before` to `after`,
/// when the clock reads `elapsed` nanoseconds: nothing and no step where the
/// counter would overflow; nothing under [`MIN_STEP_NANOS`]; otherwise the
/// time is accounted, with a yield while the period is not over and the end
/// of the wait, one period taken off, once it is.
pub open spec fn step_outcome(
    before: ZeroSleepTimer,
    after: ZeroSleepTimer,
    elapsed: u128,
    r: Option<WaitStep>,
) -> bool {
    if elapsed >= MIN_STEP_NANOS && before.counter_spec() + elapsed > u128::MAX {
        r is None && after == before
    } else if elapsed < MIN_STEP_NANOS {
        r == Some(WaitStep::Pending) && after == before
    } else if before.counter_spec() + elapsed <= before.target_spec() {
        &&& r == Some(WaitStep::Sleep)
        &&& after.counter_spec() == before.counter_spec() + elapsed
        &&& after.target_spec() == before.target_spec()
    } else {
        &&& r == Some(WaitStep::Done)
        &&& after.counter_spec() == before.counter_spec() + elapsed - before.target_spec()
        &&& after.target_spec() == before.target_spec()
    }
}

/// A timer that accounts elapsed time against a period of `target`
/// nanoseconds without ever sleeping for a nonzero time.
#[derive(Debug, Clone, Copy, PartialEq, PartialOrd, Eq, Ord, Hash)]
pub struct ZeroSleepTimer {
    timer: Instant,
    counter: u128,
    target: u128,
}

impl ZeroSleepTimer {
    /// Nanoseconds accounted so far in the current period.
    pub closed spec fn counter_spec(&self) -> u128 {
        self.counter
    }

    /// The period, in nanoseconds.
    pub closed spec fn target_spec(&self) -> u128 {
        self.target
    }

    /// A timer for `target` periods per second: its period is one second
    /// divided by `target`, in whole nanoseconds.
    pub fn new(target: u128) -> (r: Self)
        requires
            target != 0,
        ensures
            r.counter_spec() == 0,
            r.target_spec() == NANOS_PER_SECOND / target,
    {
        ZeroSleepTimer { timer: instant_now(), counter: 0, target: NANOS_PER_SECOND / target }
    }

    /// Restarts the clock from now; the accounted time and the period stay.
    pub fn now(&mut self)
        ensures
            final(self).counter_spec() == old(self).counter_spec(),
            final(self).target_spec() == old(self).target_spec(),
    {
        self.timer = instant_now();
    }

    /// The nanoseconds accounted so far in the current period.
    pub fn get_counter(&self) -> (r: u128)
        ensures
            r == self.counter_spec(),
    {
        self.counter
    }

    /// The period, in nanoseconds.
    pub fn get_target(&self) -> (r: u128)
        ensures
            r == self.target_spec(),
    {
        self.target
    }

    /// Sets the period to `target` nanoseconds.
    pub fn set_target(&mut self, target: u128)
        ensures
            final(self).target_spec() == target,
            final(self).counter_spec() == old(self).counter_spec(),
    {
        self.target = target;
    }

    /// Forgets the time accounted so far and restarts the clock.
    pub fn reset(&mut self)
        ensures
            final(self).target_spec() == old(self).target_spec(),
            final(self).counter_spec() == 0,
    {
        self.counter = 0;
        self.now();
    }

    /// One step of a wait, given the nanoseconds `elapsed` since the clock was
    /// last restarted.
    ///
    /// Under [`MIN_STEP_NANOS`] nothing happens.  Otherwise `elapsed` is added
    /// to the counter and the clock restarts; while the counter does not exceed
    /// the period the caller is asked to yield, and once it does, one period is
    /// taken off the counter and the wait is over.
    pub fn wait_step(&mut self, elapsed: u128) -> (r: WaitStep)
        requires
            elapsed >= MIN_STEP_NANOS ==> old(self).counter_spec() + elapsed <= u128::MAX,
        ensures
            final(self).target_spec() == old(self).target_spec(),
            elapsed < MIN_STEP_NANOS ==> r == WaitStep::Pending && *final(self) == *old(self),
            elapsed >= MIN_STEP_NANOS && old(self).counter_spec() + elapsed <= old(
                self,
            ).target_spec() ==> r == WaitStep::Sleep && final(self).counter_spec() == old(
                self,
            ).counter_spec() + elapsed,
            elapsed >= MIN_STEP_NANOS && old(self).counter_spec() + elapsed > old(
                self,
            ).target_spec() ==> r == WaitStep::Done && final(self).counter_spec() == old(
                self,
            ).counter_spec() + elapsed - old(self).target_spec(),
    {
        if elapsed >= MIN_STEP_NANOS {
            self.counter = self.counter + elapsed;
            let call = self.counter <= self.target;
            self.timer = instant_now();
            if call {
                WaitStep::Sleep
            } else {
                self.counter = self.counter - self.target;
                WaitStep::Done
            }
        } else {
            WaitStep::Pending
        }
    }

    /// One step of a wait, given the nanoseconds `elapsed` since the clock was
    /// last restarted, for any reading: the step is refused (`None`, nothing
    /// changed) where adding `elapsed` would overflow the counter, and is
    /// otherwise [`Self::wait_step`].
    pub fn step_or_refuse(&mut self, elapsed: u128) -> (r: Option<WaitStep>)
        ensures
            step_outcome(*old(self), *final(self), elapsed, r),
    {
        if elapsed >= MIN_STEP_NANOS && self.counter > u128::MAX - elapsed {
            None
        } else {
            Some(self.wait_step(elapsed))
        }
    }

    /// One step of a wait, reading the clock: [`Self::step_or_refuse`] on the
    /// time elapsed since the clock was last restarted, counted in whole
    /// nanoseconds.  How much time that is rests on the clock; that it is
    /// counted in nanoseconds is stated.
    pub fn poll(&mut self) -> (r: Option<WaitStep>)
        ensures
            exists|d: Duration| step_outcome(*old(self), *final(self), #[trigger] duration_nanos(d), r),
    {
        let d = elapsed(&self.timer);
        let e = as_nanos(&d);
        self.step_or_refuse(e)
    }
}

/// A timer that sleeps off what is left of a fixed period.
#[derive(Debug, Clone, Copy, PartialEq, PartialOrd, Eq, Ord, Hash)]
pub struct SleepTimer {
    timer: Instant,
    target: Duration,
}

impl SleepTimer {
    /// The period.
    pub closed spec fn target_spec(&self) -> Duration {
        self.target
    }

    /// A timer whose period is `target`, its clock started now.
    pub fn new(target: Duration) -> (r: Self)
        ensures
            r.target_spec() == target,
    {
        SleepTimer { timer: instant_now(), target }
    }

    /// Always zero: this timer keeps no count.
    pub fn get_counter(&self) -> (r: u128)
        ensures
            r == 0,
    {
        0
    }

    /// The period, in nanoseconds.
    pub fn get_target(&self) -> (r: u128)
        ensures
            r == duration_nanos(self.target_spec()),
    {
        as_nanos(&self.target)
    }

    /// Sets the period to `target` nanoseconds, cut to the low 64 bits.
    pub fn set_target(&mut self, target: u128)
        ensures
            duration_nanos(final(self).target_spec()) == target as u64,
    {
        self.target = from_nanos(target as u64);
    }

    /// Restarts the clock from now; the period stays.
    pub fn now(&mut self)
        ensures
            final(self).target_spec() == old(self).target_spec(),
    {
        self.timer = instant_now();
    }

    /// How long to sleep, given two readings of the time elapsed since the
    /// clock started: nothing once the period is over at the `first` reading,
    /// and otherwise the difference of the period and the `second` reading in
    /// whole microseconds, taken as that many nanoseconds (cut to the low 64
    /// bits).  Where the `second` reading is already past the period in whole
    /// microseconds the difference would be negative, and nothing comes back.
    pub fn sleep_length_for(&self, first: Duration, second: Duration) -> (r: Option<Duration>)
        ensures
            r is Some <==> duration_nanos(first) < duration_nanos(self.target_spec()) && duration_nanos(
                second,
            ) / 1000 <= duration_nanos(self.target_spec()) / 1000,
            r matches Some(d) ==> duration_nanos(d) == ((duration_nanos(self.target_spec()) / 1000
                - duration_nanos(second) / 1000) as u64),
    {
        if as_nanos(&first) < as_nanos(&self.target) {
            let t = as_micros(&self.target);
            let e = as_micros(&second);
            if e <= t {
                Some(from_nanos((t - e) as u64))
            } else {
                None
            }
        } else {
            None
        }
    }

    /// How long to sleep now: [`Self::sleep_length_for`] of two readings of
    /// the time elapsed since the clock started, taken one after the other.
    pub fn sleep_length(&self) -> (r: Option<Duration>)
        ensures
            r matches Some(d) ==> duration_nanos(self.target_spec()) / 1000 <= u64::MAX
                ==> duration_nanos(d) <= duration_nanos(self.target_spec()) / 1000,
            exists|first: Duration, second: Duration|
                {
                    &&& (r is Some <==> #[trigger] duration_nanos(first) < duration_nanos(
                        self.target_spec(),
                    ) && #[trigger] duration_nanos(second) / 1000 <= duration_nanos(
                        self.target_spec(),
                    ) / 1000)
                    &&& (r matches Some(d) ==> duration_nanos(d) == ((duration_nanos(self.target_spec())
                        / 1000 - duration_nanos(second) / 1000) as u64))
                },
    {
        let first = elapsed(&self.timer);
        let second = elapsed(&self.timer);
        self.sleep_length_for(first, second)
    }
}

} // verus!
