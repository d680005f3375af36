//! `TickerRepeater` and `TickerRepeaterAlt`: tickers that run every event on
//! every tick.
//!
//! Both keep their events in a list and hand each of them, in order, to the
//! caller's `call` function on every tick.  They differ in when they sweep out
//! the events that the caller's `junk` function reports as finished:
//! `TickerRepeater` sweeps once every [`REPEATER_JUNK`] ticks, after running
//! them all; `TickerRepeaterAlt` asks about each event right after running it,
//! on every tick.  Both count the wrap-arounds of the tick counter in `cycle`.

use crate::basic::next_tick;
use crate::basic::wrapping_add_u32;
use crate::seqs::flags_of;
use crate::seqs::remove_flagged;
use crate::seqs::somes;
use crate::seqs::unflagged;
use crate::timer::NANOS_PER_SECOND;
use crate::timer::duration_nanos;
use crate::timer::step_outcome;
use crate::timer::WaitStep;
use crate::timer::ZeroSleepTimer;
use std::time::Duration;
use vstd::prelude::*;

verus! {

/// Every this many ticks a [`TickerRepeater`] sweeps out its finished events.
pub const REPEATER_JUNK: u32 = 100_000;

/// A handle of each of `events`, made by `downgrade`, in order.
fn save_all<E, W, D>(events: &Vec<E>, downgrade: D) -> (r: Vec<W>) where D: Fn(&E) -> W
    requires
        forall|e: &E| #[trigger] downgrade.requires((e,)),
    ensures
        r.len() == events.len(),
        forall|i: int| 0 <= i < events.len() ==> call_ensures(downgrade, (&events@[i],), #[trigger] r@[i]),
{
    let n = events.len();
    let mut r: Vec<W> = Vec::with_capacity(n);
    for i in 0..n
        invariant
            n == events.len(),
            r.len() == i,
            forall|e: &E| #[trigger] downgrade.requires((e,)),
            forall|j: int| 0 <= j < i ==> call_ensures(downgrade, (&events@[j],), #[trigger] r@[j]),
    {
        let w = downgrade(&events[i]);
        r.push(w);
    }
    r
}

/// The events that `upgrade` gives back for the handles `saved`, in order.
fn revive_all<E, W, U>(saved: Vec<W>, upgrade: U) -> (r: Vec<E>) where U: Fn(W) -> Option<E>
    requires
        forall|w: W| #[trigger] upgrade.requires((w,)),
    ensures
        exists|got: Seq<Option<E>>|
            {
                &&& got.len() == saved.len()
                &&& forall|i: int| 0 <= i < got.len() ==> call_ensures(upgrade, (saved@[i],), #[trigger] got[i])
                &&& r@ == somes(got)
            },
{
    let ghost s0 = saved@;
    let n = saved.len();
    let mut rest = saved;
    let mut r: Vec<E> = Vec::new();
    let ghost mut got: Seq<Option<E>> = Seq::empty();
    let mut i: usize = 0;
    while rest.len() > 0
        invariant
            forall|w: W| #[trigger] upgrade.requires((w,)),
            s0.len() == n,
            s0.len() == i + rest@.len(),
            rest@ == s0.skip(i as int),
            got.len() == i,
            forall|j: int| 0 <= j < i ==> call_ensures(upgrade, (s0[j],), #[trigger] got[j]),
            r@ == somes(got),
        decreases rest.len(),
    {
        let w = rest.remove(0);
        assert(w == s0[i as int]);
        assert(rest@ =~= s0.skip(i + 1));
        let o = upgrade(w);
        let ghost prev = got;
        proof {
            got = prev.push(o);
            assert(got.drop_last() =~= prev);
        }
        match o {
            Some(e) => {
                r.push(e);
            },
            None => {},
        }
        i = i + 1;
    }
    r
}

/// A ticker that runs all of its events on every tick and sweeps out the
/// finished ones every [`REPEATER_JUNK`] ticks.
///
/// `E` is the type of the events, `W` that of the handles it keeps of the
/// events of the tick in progress.
#[derive(Debug, Clone)]
pub struct TickerRepeater<E, W> {
    cycle: u64,
    tick: u32,
    stop: bool,
    timer: ZeroSleepTimer,
    safe_save: Vec<W>,
    safe_save_state: bool,
    safe_save_index: u16,
    events: Vec<E>,
}

impl<E, W> TickerRepeater<E, W> {
    /// The events, in the order they run.
    pub closed spec fn events_view(&self) -> Seq<E> {
        self.events@
    }

    /// The number of completed turns of the tick counter.
    pub closed spec fn cycle_spec(&self) -> u64 {
        self.cycle
    }

    /// The current tick.
    pub closed spec fn tick_spec(&self) -> u32 {
        self.tick
    }

    /// Whether the ticker's own run loop is stopped.
    pub closed spec fn stopped(&self) -> bool {
        self.stop
    }

    /// The timer that paces the run loop.
    pub closed spec fn timer_spec(&self) -> ZeroSleepTimer {
        self.timer
    }

    /// The handles kept of the events of the last tick.
    pub closed spec fn saved(&self) -> Seq<W> {
        self.safe_save@
    }

    /// Whether a tick is in progress.
    pub closed spec fn saving(&self) -> bool {
        self.safe_save_state
    }

    /// How many of the saved events have run.
    pub closed spec fn save_index(&self) -> u16 {
        self.safe_save_index
    }

    /// `self` and `other` agree on everything but the events.
    pub open spec fn same_but_events(&self, other: &Self) -> bool {
        &&& self.cycle_spec() == other.cycle_spec()
        &&& self.tick_spec() == other.tick_spec()
        &&& self.stopped() == other.stopped()
        &&& self.timer_spec() == other.timer_spec()
        &&& self.saved() == other.saved()
        &&& self.saving() == other.saving()
        &&& self.save_index() == other.save_index()
    }

    /// A ticker at tick zero of cycle zero with no events, paced at `speed`
    /// ticks per second, its run loop stopped or not as `stop` says.
    pub fn new(speed: u128, stop: bool) -> (r: Self)
        requires
            speed != 0,
        ensures
            r.cycle_spec() == 0,
            r.tick_spec() == 0,
            r.stopped() == stop,
            r.timer_spec().counter_spec() == 0,
            r.timer_spec().target_spec() == NANOS_PER_SECOND / speed,
            r.saved() == Seq::<W>::empty(),
            !r.saving(),
            r.save_index() == 0,
            r.events_view() == Seq::<E>::empty(),
    {
        TickerRepeater {
            cycle: 0,
            tick: 0,
            stop,
            timer: ZeroSleepTimer::new(speed),
            safe_save: Vec::new(),
            safe_save_state: false,
            safe_save_index: 0,
            events: Vec::new(),
        }
    }

    /// Adds `event` after the others: it runs from the next tick on.
    pub fn add_event(&mut self, event: E)
        ensures
            final(self).events_view() == old(self).events_view().push(event),
            final(self).same_but_events(old(self)),
    {
        self.events.push(event);
    }

    /// Stops the ticker's own run loop.
    pub fn stop(&mut self)
        ensures
            final(self).stopped(),
            final(self).events_view() == old(self).events_view(),
            final(self).cycle_spec() == old(self).cycle_spec(),
            final(self).tick_spec() == old(self).tick_spec(),
            final(self).timer_spec() == old(self).timer_spec(),
            final(self).saved() == old(self).saved(),
            final(self).saving() == old(self).saving(),
            final(self).save_index() == old(self).save_index(),
    {
        self.stop = true;
    }

    /// Lets the ticker's own run loop go.
    pub fn start(&mut self)
        ensures
            !final(self).stopped(),
            final(self).events_view() == old(self).events_view(),
            final(self).cycle_spec() == old(self).cycle_spec(),
            final(self).tick_spec() == old(self).tick_spec(),
            final(self).timer_spec() == old(self).timer_spec(),
            final(self).saved() == old(self).saved(),
            final(self).saving() == old(self).saving(),
            final(self).save_index() == old(self).save_index(),
    {
        self.stop = false;
    }

    /// The pace of the run loop: the period of its timer, in nanoseconds.
    pub fn get_speed(&self) -> (r: u128)
        ensures
            r == self.timer_spec().target_spec(),
    {
        self.timer.get_target()
    }

    /// Sets the period of the run loop's timer to `speed` nanoseconds; with
    /// `reset`, the time accounted so far is dropped and the clock restarts.
    pub fn set_speed(&mut self, speed: u128, reset: bool)
        ensures
            final(self).timer_spec().target_spec() == speed,
            reset ==> final(self).timer_spec().counter_spec() == 0,
            !reset ==> final(self).timer_spec().counter_spec() == old(self).timer_spec().counter_spec(),
            final(self).events_view() == old(self).events_view(),
            final(self).cycle_spec() == old(self).cycle_spec(),
            final(self).tick_spec() == old(self).tick_spec(),
            final(self).stopped() == old(self).stopped(),
            final(self).saved() == old(self).saved(),
            final(self).saving() == old(self).saving(),
            final(self).save_index() == old(self).save_index(),
    {
        self.timer.set_target(speed);
        if reset {
            self.timer.reset();
        }
    }

    /// One step of the run loop's wait: [`ZeroSleepTimer::poll`] on its timer.
    pub fn poll_timer(&mut self) -> (r: Option<WaitStep>)
        ensures
            final(self).timer_spec().target_spec() == old(self).timer_spec().target_spec(),
            exists|d: Duration| step_outcome(old(self).timer_spec(), final(self).timer_spec(), #[trigger] duration_nanos(d), r),
            final(self).events_view() == old(self).events_view(),
            final(self).cycle_spec() == old(self).cycle_spec(),
            final(self).tick_spec() == old(self).tick_spec(),
            final(self).stopped() == old(self).stopped(),
            final(self).saved() == old(self).saved(),
            final(self).saving() == old(self).saving(),
            final(self).save_index() == old(self).save_index(),
    {
        self.timer.poll()
    }

    /// The cycle count and the tick.
    pub fn get_tick(&self) -> (r: (u64, u32))
        ensures
            r == (self.cycle_spec(), self.tick_spec()),
    {
        (self.cycle, self.tick)
    }

    /// Sets the cycle count and the tick.
    pub fn set_tick(&mut self, cycle: u64, tick: u32)
        ensures
            final(self).cycle_spec() == cycle,
            final(self).tick_spec() == tick,
            final(self).events_view() == old(self).events_view(),
            final(self).stopped() == old(self).stopped(),
            final(self).timer_spec() == old(self).timer_spec(),
            final(self).saved() == old(self).saved(),
            final(self).saving() == old(self).saving(),
            final(self).save_index() == old(self).save_index(),
    {
        self.cycle = cycle;
        self.tick = tick;
    }

    /// The number of events.
    pub fn get_sum_of_events(&self) -> (r: usize)
        ensures
            r == self.events_view().len(),
    {
        self.events.len()
    }

    /// Whether the ticker's own run loop is stopped.
    pub fn get_autorun(&self) -> (r: bool)
        ensures
            r == self.stopped(),
    {
        self.stop
    }

    /// The handles saved of the events of the last tick.
    pub fn get_savestate_items(&self) -> (r: &Vec<W>)
        ensures
            r@ == self.saved(),
    {
        &self.safe_save
    }

    /// Whether a tick is in progress.
    pub fn get_savestate(&self) -> (r: bool)
        ensures
            r == self.saving(),
    {
        self.safe_save_state
    }

    /// How many of the saved events have run.
    pub fn get_savestate_index(&self) -> (r: usize)
        ensures
            r == self.save_index(),
    {
        self.safe_save_index as usize
    }

    /// Replaces the events by those of the saved handles that `upgrade` still
    /// gives back, in the order they were saved.  The saved handles are used
    /// up.
    pub fn clear_poison<U>(&mut self, upgrade: U) where U: Fn(W) -> Option<E>
        requires
            forall|w: W| #[trigger] upgrade.requires((w,)),
        ensures
            final(self).saved() == Seq::<W>::empty(),
            exists|got: Seq<Option<E>>|
                {
                    &&& got.len() == old(self).saved().len()
                    &&& forall|i: int|
                        0 <= i < got.len() ==> call_ensures(upgrade, (old(self).saved()[i],), #[trigger] got[i])
                    &&& final(self).events_view() == somes(got)
                },
            final(self).cycle_spec() == old(self).cycle_spec(),
            final(self).tick_spec() == old(self).tick_spec(),
            final(self).stopped() == old(self).stopped(),
            final(self).timer_spec() == old(self).timer_spec(),
            final(self).saving() == old(self).saving(),
            final(self).save_index() == old(self).save_index(),
    {
        let mut saved: Vec<W> = Vec::new();
        std::mem::swap(&mut saved, &mut self.safe_save);
        self.events = revive_all(saved, upgrade);
    }

    /// Moves the tick counter on by one, wrapping around; a wrap-around counts
    /// one more cycle.
    fn advance(&mut self)
        requires
            old(self).tick_spec() == u32::MAX ==> old(self).cycle_spec() < u64::MAX,
        ensures
            final(self).tick_spec() == next_tick(old(self).tick_spec()),
            final(self).cycle_spec() == if old(self).tick_spec() == u32::MAX {
                old(self).cycle_spec() + 1
            } else {
                old(self).cycle_spec() as int
            },
            final(self).events_view() == old(self).events_view(),
            final(self).stopped() == old(self).stopped(),
            final(self).timer_spec() == old(self).timer_spec(),
            final(self).saved() == old(self).saved(),
            final(self).saving() == old(self).saving(),
            final(self).save_index() == old(self).save_index(),
    {
        self.tick = wrapping_add_u32(self.tick, 1);
        if self.tick == 0 {
            self.cycle = self.cycle + 1;
        }
    }

    /// Whether [`Self::tick`] can run now: at most `u16::MAX` events, and a
    /// wrap-around of the tick counter would not overflow the cycle count.
    pub fn can_tick(&self) -> (r: bool)
        ensures
            r == (self.events_view().len() <= u16::MAX && (self.tick_spec() == u32::MAX
                ==> self.cycle_spec() < u64::MAX)),
    {
        self.events.len() <= 0xffff && (self.tick != u32::MAX || self.cycle != u64::MAX)
    }

    /// One tick.
    ///
    /// A handle of each event is saved (made by `downgrade`), then every event
    /// is handed to `call`, in order.  The tick counter moves on; when it
    /// reaches a multiple of [`REPEATER_JUNK`] the events that `junk` reports
    /// finished are swept out, the others keeping their order.
    pub fn tick<D, C, J>(&mut self, downgrade: D, call: C, junk: J) where
        D: Fn(&E) -> W,
        C: Fn(&E) -> bool,
        J: Fn(&E) -> bool,
        requires
            forall|e: &E| #[trigger] downgrade.requires((e,)),
            forall|e: &E| #[trigger] call.requires((e,)),
            forall|e: &E| #[trigger] junk.requires((e,)),
            old(self).events_view().len() <= u16::MAX,
            old(self).tick_spec() == u32::MAX ==> old(self).cycle_spec() < u64::MAX,
        ensures
            final(self).tick_spec() == next_tick(old(self).tick_spec()),
            final(self).cycle_spec() == if old(self).tick_spec() == u32::MAX {
                old(self).cycle_spec() + 1
            } else {
                old(self).cycle_spec() as int
            },
            final(self).saved().len() == old(self).events_view().len(),
            forall|i: int|
                0 <= i < old(self).events_view().len() ==> call_ensures(
                    downgrade,
                    (&old(self).events_view()[i],),
                    #[trigger] final(self).saved()[i],
                ),
            !final(self).saving(),
            final(self).save_index() == old(self).events_view().len(),
            exists|answers: Seq<bool>|
                answers.len() == old(self).events_view().len() && forall|i: int|
                    0 <= i < answers.len() ==> call_ensures(call, (&old(self).events_view()[i],), #[trigger] answers[i]),
            next_tick(old(self).tick_spec()) % REPEATER_JUNK != 0 ==> final(self).events_view()
                == old(self).events_view(),
            next_tick(old(self).tick_spec()) % REPEATER_JUNK == 0 ==> exists|flags: Seq<bool>|
                {
                    &&& flags.len() == old(self).events_view().len()
                    &&& forall|i: int|
                        0 <= i < flags.len() ==> call_ensures(junk, (&old(self).events_view()[i],), #[trigger] flags[i])
                    &&& final(self).events_view() == unflagged(old(self).events_view(), flags)
                },
            final(self).stopped() == old(self).stopped(),
            final(self).timer_spec() == old(self).timer_spec(),
    {
        self.safe_save_state = true;
        self.safe_save_index = 0;
        self.safe_save = save_all(&self.events, downgrade);
        let ghost saved0 = self.safe_save@;
        let ghost mut answers: Seq<bool> = Seq::empty();
        let n = self.events.len();
        for i in 0..n
            invariant
                n == self.events.len(),
                n <= u16::MAX,
                self.safe_save_index == i,
                self.events@ == old(self).events@,
                self.tick == old(self).tick,
                self.cycle == old(self).cycle,
                self.stop == old(self).stop,
                self.timer == old(self).timer,
                self.safe_save@ == saved0,
                saved0.len() == n,
                forall|j: int| 0 <= j < n ==> call_ensures(downgrade, (&old(self).events@[j],), #[trigger] saved0[j]),
                forall|e: &E| #[trigger] call.requires((e,)),
                answers.len() == i,
                forall|j: int| 0 <= j < i ==> call_ensures(call, (&old(self).events@[j],), #[trigger] answers[j]),
        {
            let got = call(&self.events[i]);
            proof {
                answers = answers.push(got);
            }
            self.safe_save_index = self.safe_save_index + 1;
        }
        self.safe_save_state = false;
        self.advance();
        if self.tick % REPEATER_JUNK == 0 {
            let flags = flags_of(&self.events, junk);
            let mut events: Vec<E> = Vec::new();
            std::mem::swap(&mut events, &mut self.events);
            self.events = remove_flagged(events, &flags);
        }
    }

}

/// A ticker that runs all of its events on every tick and drops each finished
/// one right after it runs.
///
/// `E` is the type of the events, `W` that of the handles it keeps of the
/// events of the tick in progress.
#[derive(Debug, Clone)]
pub struct TickerRepeaterAlt<E, W> {
    cycle: u64,
    tick: u32,
    stop: bool,
    timer: ZeroSleepTimer,
    safe_save: Vec<W>,
    safe_save_state: bool,
    safe_save_index: u16,
    events: Vec<E>,
}

impl<E, W> TickerRepeaterAlt<E, W> {
    /// The events, in the order they run.
    pub closed spec fn events_view(&self) -> Seq<E> {
        self.events@
    }

    /// The number of completed turns of the tick counter.
    pub closed spec fn cycle_spec(&self) -> u64 {
        self.cycle
    }

    /// The current tick.
    pub closed spec fn tick_spec(&self) -> u32 {
        self.tick
    }

    /// Whether the ticker's own run loop is stopped.
    pub closed spec fn stopped(&self) -> bool {
        self.stop
    }

    /// The timer that paces the run loop.
    pub closed spec fn timer_spec(&self) -> ZeroSleepTimer {
        self.timer
    }

    /// The handles kept of the events of the last tick.
    pub closed spec fn saved(&self) -> Seq<W> {
        self.safe_save@
    }

    /// Whether a tick is in progress.
    pub closed spec fn saving(&self) -> bool {
        self.safe_save_state
    }

    /// How many of the saved events have run.
    pub closed spec fn save_index(&self) -> u16 {
        self.safe_save_index
    }

    /// `self` and `other` agree on everything but the events.
    pub open spec fn same_but_events(&self, other: &Self) -> bool {
        &&& self.cycle_spec() == other.cycle_spec()
        &&& self.tick_spec() == other.tick_spec()
        &&& self.stopped() == other.stopped()
        &&& self.timer_spec() == other.timer_spec()
        &&& self.saved() == other.saved()
        &&& self.saving() == other.saving()
        &&& self.save_index() == other.save_index()
    }

    /// A ticker at tick zero of cycle zero with no events, paced at `speed`
    /// ticks per second, its run loop stopped or not as `stop` says.
    pub fn new(speed: u128, stop: bool) -> (r: Self)
        requires
            speed != 0,
        ensures
            r.cycle_spec() == 0,
            r.tick_spec() == 0,
            r.stopped() == stop,
            r.timer_spec().counter_spec() == 0,
            r.timer_spec().target_spec() == NANOS_PER_SECOND / speed,
            r.saved() == Seq::<W>::empty(),
            !r.saving(),
            r.save_index() == 0,
            r.events_view() == Seq::<E>::empty(),
    {
        TickerRepeaterAlt {
            cycle: 0,
            tick: 0,
            stop,
            timer: ZeroSleepTimer::new(speed),
            safe_save: Vec::new(),
            safe_save_state: false,
            safe_save_index: 0,
            events: Vec::new(),
        }
    }

    /// Adds `event` after the others: it runs from the next tick on.
    pub fn add_event(&mut self, event: E)
        ensures
            final(self).events_view() == old(self).events_view().push(event),
            final(self).same_but_events(old(self)),
    {
        self.events.push(event);
    }

    /// Stops the ticker's own run loop.
    pub fn stop(&mut self)
        ensures
            final(self).stopped(),
            final(self).events_view() == old(self).events_view(),
            final(self).cycle_spec() == old(self).cycle_spec(),
            final(self).tick_spec() == old(self).tick_spec(),
            final(self).timer_spec() == old(self).timer_spec(),
            final(self).saved() == old(self).saved(),
            final(self).saving() == old(self).saving(),
            final(self).save_index() == old(self).save_index(),
    {
        self.stop = true;
    }

    /// Lets the ticker's own run loop go.
    pub fn start(&mut self)
        ensures
            !final(self).stopped(),
            final(self).events_view() == old(self).events_view(),
            final(self).cycle_spec() == old(self).cycle_spec(),
            final(self).tick_spec() == old(self).tick_spec(),
            final(self).timer_spec() == old(self).timer_spec(),
            final(self).saved() == old(self).saved(),
            final(self).saving() == old(self).saving(),
            final(self).save_index() == old(self).save_index(),
    {
        self.stop = false;
    }

    /// The pace of the run loop: the period of its timer, in nanoseconds.
    pub fn get_speed(&self) -> (r: u128)
        ensures
            r == self.timer_spec().target_spec(),
    {
        self.timer.get_target()
    }

    /// Sets the period of the run loop's timer to `speed` nanoseconds; with
    /// `reset`, the time accounted so far is dropped and the clock restarts.
    pub fn set_speed(&mut self, speed: u128, reset: bool)
        ensures
            final(self).timer_spec().target_spec() == speed,
            reset ==> final(self).timer_spec().counter_spec() == 0,
            !reset ==> final(self).timer_spec().counter_spec() == old(self).timer_spec().counter_spec(),
            final(self).events_view() == old(self).events_view(),
            final(self).cycle_spec() == old(self).cycle_spec(),
            final(self).tick_spec() == old(self).tick_spec(),
            final(self).stopped() == old(self).stopped(),
            final(self).saved() == old(self).saved(),
            final(self).saving() == old(self).saving(),
            final(self).save_index() == old(self).save_index(),
    {
        self.timer.set_target(speed);
        if reset {
            self.timer.reset();
        }
    }

    /// One step of the run loop's wait: [`ZeroSleepTimer::poll`] on its timer.
    pub fn poll_timer(&mut self) -> (r: Option<WaitStep>)
        ensures
            final(self).timer_spec().target_spec() == old(self).timer_spec().target_spec(),
            exists|d: Duration| step_outcome(old(self).timer_spec(), final(self).timer_spec(), #[trigger] duration_nanos(d), r),
            final(self).events_view() == old(self).events_view(),
            final(self).cycle_spec() == old(self).cycle_spec(),
            final(self).tick_spec() == old(self).tick_spec(),
            final(self).stopped() == old(self).stopped(),
            final(self).saved() == old(self).saved(),
            final(self).saving() == old(self).saving(),
            final(self).save_index() == old(self).save_index(),
    {
        self.timer.poll()
    }

    /// The cycle count and the tick.
    pub fn get_tick(&self) -> (r: (u64, u32))
        ensures
            r == (self.cycle_spec(), self.tick_spec()),
    {
        (self.cycle, self.tick)
    }

    /// Sets the cycle count and the tick.
    pub fn set_tick(&mut self, cycle: u64, tick: u32)
        ensures
            final(self).cycle_spec() == cycle,
            final(self).tick_spec() == tick,
            final(self).events_view() == old(self).events_view(),
            final(self).stopped() == old(self).stopped(),
            final(self).timer_spec() == old(self).timer_spec(),
            final(self).saved() == old(self).saved(),
            final(self).saving() == old(self).saving(),
            final(self).save_index() == old(self).save_index(),
    {
        self.cycle = cycle;
        self.tick = tick;
    }

    /// The number of events.
    pub fn get_sum_of_events(&self) -> (r: usize)
        ensures
            r == self.events_view().len(),
    {
        self.events.len()
    }

    /// Whether the ticker's own run loop is stopped.
    pub fn get_autorun(&self) -> (r: bool)
        ensures
            r == self.stopped(),
    {
        self.stop
    }

    /// The handles saved of the events of the last tick.
    pub fn get_savestate_items(&self) -> (r: &Vec<W>)
        ensures
            r@ == self.saved(),
    {
        &self.safe_save
    }

    /// Whether a tick is in progress.
    pub fn get_savestate(&self) -> (r: bool)
        ensures
            r == self.saving(),
    {
        self.safe_save_state
    }

    /// How many of the saved events have run.
    pub fn get_savestate_index(&self) -> (r: usize)
        ensures
            r == self.save_index(),
    {
        self.safe_save_index as usize
    }

    /// Replaces the events by those of the saved handles that `upgrade` still
    /// gives back, in the order they were saved.  The saved handles are used
    /// up.
    pub fn clear_poison<U>(&mut self, upgrade: U) where U: Fn(W) -> Option<E>
        requires
            forall|w: W| #[trigger] upgrade.requires((w,)),
        ensures
            final(self).saved() == Seq::<W>::empty(),
            exists|got: Seq<Option<E>>|
                {
                    &&& got.len() == old(self).saved().len()
                    &&& forall|i: int|
                        0 <= i < got.len() ==> call_ensures(upgrade, (old(self).saved()[i],), #[trigger] got[i])
                    &&& final(self).events_view() == somes(got)
                },
            final(self).cycle_spec() == old(self).cycle_spec(),
            final(self).tick_spec() == old(self).tick_spec(),
            final(self).stopped() == old(self).stopped(),
            final(self).timer_spec() == old(self).timer_spec(),
            final(self).saving() == old(self).saving(),
            final(self).save_index() == old(self).save_index(),
    {
        let mut saved: Vec<W> = Vec::new();
        std::mem::swap(&mut saved, &mut self.safe_save);
        self.events = revive_all(saved, upgrade);
    }

    /// Moves the tick counter on by one, wrapping around; a wrap-around counts
    /// one more cycle.
    fn advance(&mut self)
        requires
            old(self).tick_spec() == u32::MAX ==> old(self).cycle_spec() < u64::MAX,
        ensures
            final(self).tick_spec() == next_tick(old(self).tick_spec()),
            final(self).cycle_spec() == if old(self).tick_spec() == u32::MAX {
                old(self).cycle_spec() + 1
            } else {
                old(self).cycle_spec() as int
            },
            final(self).events_view() == old(self).events_view(),
            final(self).stopped() == old(self).stopped(),
            final(self).timer_spec() == old(self).timer_spec(),
            final(self).saved() == old(self).saved(),
            final(self).saving() == old(self).saving(),
            final(self).save_index() == old(self).save_index(),
    {
        self.tick = wrapping_add_u32(self.tick, 1);
        if self.tick == 0 {
            self.cycle = self.cycle + 1;
        }
    }

    /// Whether [`Self::tick`] can run now: at most `u16::MAX` events, and a
    /// wrap-around of the tick counter would not overflow the cycle count.
    pub fn can_tick(&self) -> (r: bool)
        ensures
            r == (self.events_view().len() <= u16::MAX && (self.tick_spec() == u32::MAX
                ==> self.cycle_spec() < u64::MAX)),
    {
        self.events.len() <= 0xffff && (self.tick != u32::MAX || self.cycle != u64::MAX)
    }

    /// One tick.
    ///
    /// A handle of each event is saved (made by `downgrade`), then every event
    /// in turn is handed to `call` and right after that to `junk`; those that
    /// `junk` reports finished are dropped, the others keep their order.  The
    /// tick counter moves on.
    pub fn tick<D, C, J>(&mut self, downgrade: D, call: C, junk: J) where
        D: Fn(&E) -> W,
        C: Fn(&E) -> bool,
        J: Fn(&E) -> bool,
        requires
            forall|e: &E| #[trigger] downgrade.requires((e,)),
            forall|e: &E| #[trigger] call.requires((e,)),
            forall|e: &E| #[trigger] junk.requires((e,)),
            old(self).events_view().len() <= u16::MAX,
            old(self).tick_spec() == u32::MAX ==> old(self).cycle_spec() < u64::MAX,
        ensures
            final(self).tick_spec() == next_tick(old(self).tick_spec()),
            final(self).cycle_spec() == if old(self).tick_spec() == u32::MAX {
                old(self).cycle_spec() + 1
            } else {
                old(self).cycle_spec() as int
            },
            final(self).saved().len() == old(self).events_view().len(),
            forall|i: int|
                0 <= i < old(self).events_view().len() ==> call_ensures(
                    downgrade,
                    (&old(self).events_view()[i],),
                    #[trigger] final(self).saved()[i],
                ),
            !final(self).saving(),
            final(self).save_index() == old(self).events_view().len(),
            exists|answers: Seq<bool>|
                answers.len() == old(self).events_view().len() && forall|i: int|
                    0 <= i < answers.len() ==> call_ensures(call, (&old(self).events_view()[i],), #[trigger] answers[i]),
            exists|flags: Seq<bool>|
                {
                    &&& flags.len() == old(self).events_view().len()
                    &&& forall|i: int|
                        0 <= i < flags.len() ==> call_ensures(junk, (&old(self).events_view()[i],), #[trigger] flags[i])
                    &&& final(self).events_view() == unflagged(old(self).events_view(), flags)
                },
            final(self).stopped() == old(self).stopped(),
            final(self).timer_spec() == old(self).timer_spec(),
    {
        self.safe_save_state = true;
        self.safe_save_index = 0;
        self.safe_save = save_all(&self.events, downgrade);
        let ghost saved0 = self.safe_save@;
        let ghost mut answers: Seq<bool> = Seq::empty();
        let n = self.events.len();
        let mut flags: Vec<bool> = Vec::with_capacity(n);
        for i in 0..n
            invariant
                n == self.events.len(),
                n <= u16::MAX,
                self.safe_save_index == i,
                self.events@ == old(self).events@,
                self.tick == old(self).tick,
                self.cycle == old(self).cycle,
                self.stop == old(self).stop,
                self.timer == old(self).timer,
                self.safe_save@ == saved0,
                saved0.len() == n,
                forall|j: int| 0 <= j < n ==> call_ensures(downgrade, (&old(self).events@[j],), #[trigger] saved0[j]),
                flags.len() == i,
                forall|e: &E| #[trigger] call.requires((e,)),
                answers.len() == i,
                forall|j: int| 0 <= j < i ==> call_ensures(call, (&old(self).events@[j],), #[trigger] answers[j]),
                forall|e: &E| #[trigger] junk.requires((e,)),
                forall|j: int| 0 <= j < i ==> call_ensures(junk, (&self.events@[j],), #[trigger] flags@[j]),
        {
            let got = call(&self.events[i]);
            proof {
                answers = answers.push(got);
            }
            self.safe_save_index = self.safe_save_index + 1;
            let f = junk(&self.events[i]);
            flags.push(f);
        }
        let mut events: Vec<E> = Vec::new();
        std::mem::swap(&mut events, &mut self.events);
        self.events = remove_flagged(events, &flags);
        self.safe_save_state = false;
        self.advance();
    }

}

} // verus!
