//! `TickerController`: the registry of worker threads, by category, and the
//! controller's own tick count.
//!
//! The workers themselves (`I`) are whatever the thread plumbing keeps for a
//! worker; the controller files them under an id in one of
//! [`TICKER_SIZE`] categories, picks one at random to hand a task to, and
//! counts its own ticks and cycles.

use crate::basic::next_tick;
use crate::basic::wrapping_add_u32;
use crate::timer::NANOS_PER_SECOND;
use crate::timer::duration_nanos;
use crate::timer::step_outcome;
use crate::timer::WaitStep;
use crate::timer::ZeroSleepTimer;
use rand::seq::IteratorRandom;
use std::collections::HashMap;
use std::time::Duration;
use vstd::prelude::*;

verus! {

broadcast use vstd::std_specs::hash::group_hash_axioms;

/// The number of worker categories.
pub const TICKER_SIZE: usize = 32;

/// Picks one key of `m` at random (`IteratorRandom::choose` over `m.keys()`,
/// with the thread-local generator `rand::rng()`): none exactly when `m` is
/// empty, and otherwise one of its keys.  Which key is left unsaid, as it
/// rests on chance.  (`rand::rng()` panics only when the system's random
/// source cannot be read at all.)
#[verifier::external_body]
fn choose_key<V>(m: &HashMap<u64, V>) -> (r: Option<u64>)
    ensures
        r is None <==> m@.dom().len() == 0,
        r matches Some(k) ==> m@.contains_key(k),
{
    m.keys().choose(&mut rand::rng()).copied()
}

/// The position of `(cycle, tick)` on one long count of ticks.
pub open spec fn tick_count(cycle: u64, tick: u32) -> int {
    cycle * 0x1_0000_0000 + tick
}

/// What taking the worker filed under `entry` (a category and an id) out of
/// `ws` gives: that worker, or none where there is none.
pub open spec fn taken<I>(ws: Seq<Map<u64, I>>, entry: (usize, u64)) -> Option<I> {
    if ws[entry.0 as int].contains_key(entry.1) {
        Some(ws[entry.0 as int][entry.1])
    } else {
        None
    }
}

/// The registry `ws` after the workers listed in `exited` are taken out, one
/// after the other.
pub open spec fn reaped<I>(ws: Seq<Map<u64, I>>, exited: Seq<(usize, u64)>) -> Seq<Map<u64, I>>
    decreases exited.len(),
{
    if exited.len() == 0 {
        ws
    } else {
        let before = reaped(ws, exited.drop_last());
        let entry = exited.last();
        before.update(entry.0 as int, before[entry.0 as int].remove(entry.1))
    }
}

/// The registry of workers by category, with the controller's tick count.
#[derive(Debug)]
pub struct TickerController<I> {
    threads: Vec<HashMap<u64, I>>,
    timer: ZeroSleepTimer,
    speed: u128,
    tick: u32,
    cycle: u64,
}

impl<I> TickerController<I> {
    /// There is one registry per category.
    #[verifier::type_invariant]
    spec fn wf(&self) -> bool {
        self.threads.len() == TICKER_SIZE
    }

    /// The workers of each category, by id.
    pub closed spec fn workers(&self) -> Seq<Map<u64, I>> {
        self.threads@.map_values(|m: HashMap<u64, I>| m@)
    }

    /// The controller's pace, in ticks per second.
    pub closed spec fn speed_spec(&self) -> u128 {
        self.speed
    }

    /// The current tick.
    pub closed spec fn tick_spec(&self) -> u32 {
        self.tick
    }

    /// The number of completed turns of the tick counter.
    pub closed spec fn cycle_spec(&self) -> u64 {
        self.cycle
    }

    /// The timer that paces the controller.
    pub closed spec fn timer_spec(&self) -> ZeroSleepTimer {
        self.timer
    }

    /// A controller with no workers, at tick zero of cycle zero, paced at
    /// `run_speed` ticks per second.
    pub fn new(run_speed: u128) -> (r: Self)
        requires
            run_speed != 0,
        ensures
            r.workers().len() == TICKER_SIZE,
            forall|c: int| 0 <= c < TICKER_SIZE ==> #[trigger] r.workers()[c] == Map::<u64, I>::empty(),
            r.speed_spec() == run_speed,
            r.tick_spec() == 0,
            r.cycle_spec() == 0,
            r.timer_spec().counter_spec() == 0,
            r.timer_spec().target_spec() == NANOS_PER_SECOND / run_speed,
    {
        let mut threads: Vec<HashMap<u64, I>> = Vec::with_capacity(TICKER_SIZE);
        for i in 0..TICKER_SIZE
            invariant
                threads.len() == i,
                forall|c: int| 0 <= c < i ==> #[trigger] threads@[c]@ == Map::<u64, I>::empty(),
        {
            threads.push(HashMap::new());
        }
        let r = TickerController {
            threads,
            timer: ZeroSleepTimer::new(run_speed),
            speed: run_speed,
            tick: 0,
            cycle: 0,
        };
        assert forall|c: int| 0 <= c < TICKER_SIZE implies #[trigger] r.workers()[c] == Map::<u64, I>::empty() by {
            assert(r.threads@[c]@ == Map::<u64, I>::empty());
        }
        r
    }

    /// Sets the tick and the cycle count.
    pub fn set_tick(&mut self, tick: u32, cycle: u64)
        ensures
            final(self).tick_spec() == tick,
            final(self).cycle_spec() == cycle,
            final(self).workers() == old(self).workers(),
            final(self).speed_spec() == old(self).speed_spec(),
            final(self).timer_spec() == old(self).timer_spec(),
    {
        proof {
            use_type_invariant(&*self);
        }
        self.tick = tick;
        self.cycle = cycle;
    }

    /// The current tick.
    pub fn get_tick(&self) -> (r: u32)
        ensures
            r == self.tick_spec(),
    {
        self.tick
    }

    /// The number of completed turns of the tick counter.
    pub fn get_cycle(&self) -> (r: u64)
        ensures
            r == self.cycle_spec(),
    {
        self.cycle
    }

    /// The cycle count and the tick.
    pub fn get_full_tick(&self) -> (r: (u64, u32))
        ensures
            r == (self.cycle_spec(), self.tick_spec()),
    {
        (self.cycle, self.tick)
    }

    /// The controller's pace, in ticks per second.
    pub fn speed(&self) -> (r: u128)
        ensures
            r == self.speed_spec(),
    {
        self.speed
    }

    /// Moves the tick counter on by one, wrapping around; a wrap-around counts
    /// one more cycle.  On the long count this is one step.
    pub fn advance(&mut self)
        requires
            old(self).tick_spec() == u32::MAX ==> old(self).cycle_spec() < u64::MAX,
        ensures
            final(self).tick_spec() == next_tick(old(self).tick_spec()),
            tick_count(final(self).cycle_spec(), final(self).tick_spec()) == tick_count(
                old(self).cycle_spec(),
                old(self).tick_spec(),
            ) + 1,
            final(self).workers() == old(self).workers(),
            final(self).speed_spec() == old(self).speed_spec(),
            final(self).timer_spec() == old(self).timer_spec(),
    {
        proof {
            use_type_invariant(&*self);
        }
        self.tick = wrapping_add_u32(self.tick, 1);
        if self.tick == 0 {
            self.cycle = self.cycle + 1;
        }
    }

    /// Ends one turn of the run loop: takes the workers listed in `exited` out
    /// of the registry, in the order given, and then moves the tick counter on
    /// by one.  Gives back, for each entry, the worker it took out, or none where
    /// that entry had none left to take.
    pub fn end_turn(&mut self, exited: &Vec<(usize, u64)>) -> (r: Vec<Option<I>>)
        requires
            forall|k: int| 0 <= k < exited.len() ==> #[trigger] exited[k].0 < TICKER_SIZE,
            old(self).tick_spec() == u32::MAX ==> old(self).cycle_spec() < u64::MAX,
        ensures
            final(self).workers() == reaped(old(self).workers(), exited@),
            r.len() == exited.len(),
            forall|k: int|
                0 <= k < exited.len() ==> #[trigger] r[k] == taken(
                    reaped(old(self).workers(), exited@.take(k)),
                    exited[k],
                ),
            final(self).tick_spec() == next_tick(old(self).tick_spec()),
            tick_count(final(self).cycle_spec(), final(self).tick_spec()) == tick_count(
                old(self).cycle_spec(),
                old(self).tick_spec(),
            ) + 1,
            final(self).speed_spec() == old(self).speed_spec(),
            final(self).timer_spec() == old(self).timer_spec(),
    {
        let ghost w0 = self.workers();
        let mut out: Vec<Option<I>> = Vec::new();
        let mut i: usize = 0;
        while i < exited.len()
            invariant
                i <= exited.len(),
                forall|k: int| 0 <= k < exited.len() ==> #[trigger] exited[k].0 < TICKER_SIZE,
                self.workers() == reaped(w0, exited@.take(i as int)),
                out.len() == i,
                forall|k: int|
                    0 <= k < i ==> #[trigger] out[k] == taken(reaped(w0, exited@.take(k)), exited[k]),
                self.tick_spec() == old(self).tick_spec(),
                self.cycle_spec() == old(self).cycle_spec(),
                self.speed_spec() == old(self).speed_spec(),
                self.timer_spec() == old(self).timer_spec(),
            decreases exited.len() - i,
        {
            let (category, id) = exited[i];
            proof {
                assert(exited[i as int].0 < TICKER_SIZE);
                let next = exited@.take(i as int + 1);
                assert(next.drop_last() =~= exited@.take(i as int));
                assert(next.last() == exited[i as int]);
            }
            let w = self.remove_worker(category, id);
            out.push(w);
            i = i + 1;
        }
        assert(exited@.take(exited.len() as int) =~= exited@);
        self.advance();
        out
    }

    /// One step of the run loop's wait: [`ZeroSleepTimer::poll`] on its timer.
    pub fn poll_timer(&mut self) -> (r: Option<WaitStep>)
        ensures
            final(self).timer_spec().target_spec() == old(self).timer_spec().target_spec(),
            exists|d: Duration| step_outcome(old(self).timer_spec(), final(self).timer_spec(), #[trigger] duration_nanos(d), r),
            final(self).workers() == old(self).workers(),
            final(self).speed_spec() == old(self).speed_spec(),
            final(self).tick_spec() == old(self).tick_spec(),
            final(self).cycle_spec() == old(self).cycle_spec(),
    {
        proof {
            use_type_invariant(&*self);
        }
        let mut timer = self.timer;
        let r = timer.poll();
        self.timer = timer;
        r
    }

    /// Restarts the run loop's clock.
    pub fn restart_timer(&mut self)
        ensures
            final(self).timer_spec().target_spec() == old(self).timer_spec().target_spec(),
            final(self).timer_spec().counter_spec() == old(self).timer_spec().counter_spec(),
            final(self).workers() == old(self).workers(),
            final(self).speed_spec() == old(self).speed_spec(),
            final(self).tick_spec() == old(self).tick_spec(),
            final(self).cycle_spec() == old(self).cycle_spec(),
    {
        proof {
            use_type_invariant(&*self);
        }
        let mut timer = self.timer;
        timer.now();
        self.timer = timer;
    }

    /// The workers of `category`, by id.
    pub fn workers_of(&self, category: usize) -> (r: &HashMap<u64, I>)
        requires
            category < TICKER_SIZE,
        ensures
            r@ == self.workers()[category as int],
    {
        proof {
            use_type_invariant(self);
        }
        &self.threads[category]
    }

    /// Files `worker` under `id` in `category`, giving back the worker that was
    /// there before.
    pub fn insert_worker(&mut self, category: usize, id: u64, worker: I) -> (r: Option<I>)
        requires
            category < TICKER_SIZE,
        ensures
            final(self).workers() == old(self).workers().update(
                category as int,
                old(self).workers()[category as int].insert(id, worker),
            ),
            r == (if old(self).workers()[category as int].contains_key(id) {
                Some(old(self).workers()[category as int][id])
            } else {
                None::<I>
            }),
            final(self).speed_spec() == old(self).speed_spec(),
            final(self).tick_spec() == old(self).tick_spec(),
            final(self).cycle_spec() == old(self).cycle_spec(),
            final(self).timer_spec() == old(self).timer_spec(),
    {
        proof {
            use_type_invariant(&*self);
        }
        let ghost w0 = self.workers();
        let mut m: HashMap<u64, I> = HashMap::new();
        std::mem::swap(&mut m, &mut self.threads[category]);
        let r = m.insert(id, worker);
        std::mem::swap(&mut m, &mut self.threads[category]);
        assert(self.workers() =~= w0.update(category as int, w0[category as int].insert(id, worker)));
        r
    }

    /// Takes the worker filed under `id` in `category` out, if any.
    pub fn remove_worker(&mut self, category: usize, id: u64) -> (r: Option<I>)
        requires
            category < TICKER_SIZE,
        ensures
            final(self).workers() == old(self).workers().update(
                category as int,
                old(self).workers()[category as int].remove(id),
            ),
            r == (if old(self).workers()[category as int].contains_key(id) {
                Some(old(self).workers()[category as int][id])
            } else {
                None::<I>
            }),
            final(self).speed_spec() == old(self).speed_spec(),
            final(self).tick_spec() == old(self).tick_spec(),
            final(self).cycle_spec() == old(self).cycle_spec(),
            final(self).timer_spec() == old(self).timer_spec(),
    {
        proof {
            use_type_invariant(&*self);
        }
        let ghost w0 = self.workers();
        let mut m: HashMap<u64, I> = HashMap::new();
        std::mem::swap(&mut m, &mut self.threads[category]);
        let r = m.remove(&id);
        std::mem::swap(&mut m, &mut self.threads[category]);
        assert(self.workers() =~= w0.update(category as int, w0[category as int].remove(id)));
        r
    }

    /// Picks, at random, the worker of `category` that is to get a task: none
    /// when the category has no worker, and otherwise the id of one of them.
    pub fn choose_worker(&self, category: usize) -> (r: Option<u64>)
        requires
            category < TICKER_SIZE,
        ensures
            r is None <==> self.workers()[category as int].dom().len() == 0,
            r matches Some(id) ==> self.workers()[category as int].contains_key(id),
    {
        proof {
            use_type_invariant(self);
        }
        choose_key(&self.threads[category])
    }

    /// Hands `task` to a worker of `category` picked at random (by calling
    /// `deliver` with the worker and the task), and gives back the id of the
    /// worker picked; with no worker in the category, the task is dropped.
    pub fn add_task<T, P>(&self, category: usize, task: T, deliver: P) -> (r: Option<u64>) where
        P: Fn(&I, T),
        requires
            category < TICKER_SIZE,
            forall|w: &I, t: T| #[trigger] deliver.requires((w, t)),
        ensures
            r is None <==> self.workers()[category as int].dom().len() == 0,
            r matches Some(id) ==> self.workers()[category as int].contains_key(id) && call_ensures(
                deliver,
                (&self.workers()[category as int][id], task),
                (),
            ),
    {
        proof {
            use_type_invariant(self);
        }
        let picked = choose_key(&self.threads[category]);
        match picked {
            Some(id) => {
                match self.threads[category].get(&id) {
                    Some(w) => {
                        deliver(w, task);
                    },
                    None => {},
                }
            },
            None => {},
        }
        picked
    }
}

/// A view of a controller's tick count from outside it, with the controller
/// (`C`) to hand tasks to.
#[derive(Debug, Clone)]
pub struct TickerControllerAccess<C> {
    controller: C,
    tick: u32,
    cycle: u64,
}

impl<C> TickerControllerAccess<C> {
    /// The controller.
    pub closed spec fn controller_spec(&self) -> C {
        self.controller
    }

    /// The tick last published.
    pub closed spec fn tick_spec(&self) -> u32 {
        self.tick
    }

    /// The cycle count last published.
    pub closed spec fn cycle_spec(&self) -> u64 {
        self.cycle
    }

    /// An access to `controller` showing `tick` of `cycle`.
    pub fn new(controller: C, tick: u32, cycle: u64) -> (r: Self)
        ensures
            r.controller_spec() == controller,
            r.tick_spec() == tick,
            r.cycle_spec() == cycle,
    {
        TickerControllerAccess { controller, tick, cycle }
    }

    /// The tick last published.
    pub fn tick(&self) -> (r: u32)
        ensures
            r == self.tick_spec(),
    {
        self.tick
    }

    /// The cycle count last published.
    pub fn cycle(&self) -> (r: u64)
        ensures
            r == self.cycle_spec(),
    {
        self.cycle
    }

    /// Publishes the controller's tick and cycle count.
    pub fn publish(&mut self, tick: u32, cycle: u64)
        ensures
            final(self).tick_spec() == tick,
            final(self).cycle_spec() == cycle,
            final(self).controller_spec() == old(self).controller_spec(),
    {
        self.tick = tick;
        self.cycle = cycle;
    }

    /// The controller.
    pub fn controller(&self) -> (r: &C)
        ensures
            *r == self.controller_spec(),
    {
        &self.controller
    }
}

/// Counting a wrap-around of the tick counter as one more cycle makes the
/// cycle count and the tick one long count of ticks, which a step moves on by
/// exactly one.
pub proof fn lemma_wrap_counts_cycle(cycle: u64, tick: u32)
    requires
        tick == u32::MAX ==> cycle < u64::MAX,
    ensures
        tick_count(
            if tick == u32::MAX {
                (cycle + 1) as u64
            } else {
                cycle
            },
            next_tick(tick),
        ) == tick_count(cycle, tick) + 1,
{
}

} // verus!
