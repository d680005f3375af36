//! `TickerBasic`: a ticker that keeps its events in a map from the tick at
//! which each is due to the events due then, in the order they were added.
//!
//! Events are opaque to the ticker: it stores what it is handed, and when a
//! tick comes it hands the due events back to the caller's `call` function,
//! in order.  Besides user events the map holds the ticker's own cycle
//! events: a pair of markers that chase each other around the 32-bit tick
//! counter and count its wrap-arounds in `cycle`.

use crate::maps::keys_of;
use crate::maps::lemma_sum_lens_append;
use crate::maps::lemma_sum_lens_total;
use crate::maps::lemma_total_len_remove;
use crate::maps::sum_lens;
use crate::maps::total_len;
use crate::timer::NANOS_PER_SECOND;
use crate::timer::duration_nanos;
use crate::timer::step_outcome;
use crate::timer::WaitStep;
use crate::timer::ZeroSleepTimer;
use std::collections::HashMap;
use std::time::Duration;
use vstd::prelude::*;

verus! {

broadcast use vstd::std_specs::hash::group_hash_axioms;

/// An entry of a ticker's schedule.
#[derive(Debug, Clone)]
pub enum TickerEvent<E> {
    /// An event handed in by a user.
    Task(E),
    /// The ticker's own cycle marker.  When it fires with `new_cycle` set it
    /// counts one more cycle and schedules its partner for the next tick;
    /// without it, it schedules its partner for the tick before the current
    /// one, that is one full turn of the tick counter later.
    Cycler { new_cycle: bool },
}

/// The tick after `t`, wrapping from `u32::MAX` to zero.
pub open spec fn next_tick(t: u32) -> u32 {
    if t == u32::MAX {
        0
    } else {
        (t + 1) as u32
    }
}

/// `a + b` on 32 bits, wrapping around.
pub open spec fn wrapping_sum(a: u32, b: u32) -> u32 {
    if a + b <= u32::MAX {
        (a + b) as u32
    } else {
        (a + b - 0x1_0000_0000) as u32
    }
}

/// `a + b` on 32 bits, wrapping around.
pub fn wrapping_add_u32(a: u32, b: u32) -> (r: u32)
    ensures
        r == wrapping_sum(a, b),
{
    if a <= u32::MAX - b {
        a + b
    } else {
        a - (u32::MAX - b) - 1
    }
}

/// `m` with `x` appended to the sequence under `k` (a new sequence if there
/// is none).
pub open spec fn push_at<X>(m: Map<u32, Seq<X>>, k: u32, x: X) -> Map<u32, Seq<X>> {
    if m.contains_key(k) {
        m.insert(k, m[k].push(x))
    } else {
        m.insert(k, seq![x])
    }
}

/// The schedule and cycle count after the event `ev` fires at tick `t`.
/// A user event changes neither; the cycle markers do.
pub open spec fn fire<E>(m: Map<u32, Seq<TickerEvent<E>>>, cycle: int, t: u32, ev: TickerEvent<E>) -> (
    Map<u32, Seq<TickerEvent<E>>>,
    int,
) {
    match ev {
        TickerEvent::Task(_) => (m, cycle),
        TickerEvent::Cycler { new_cycle } => if new_cycle {
            (push_at(m, next_tick(t), TickerEvent::Cycler { new_cycle: false }), cycle + 1)
        } else {
            (push_at(m, wrapping_sum(u32::MAX, t), TickerEvent::Cycler { new_cycle: true }), cycle)
        },
    }
}

/// The schedule and cycle count after the events `due` fire at tick `t`, one
/// after the other.
pub open spec fn fire_all<E>(
    m: Map<u32, Seq<TickerEvent<E>>>,
    cycle: int,
    t: u32,
    due: Seq<TickerEvent<E>>,
) -> (Map<u32, Seq<TickerEvent<E>>>, int)
    decreases due.len(),
{
    if due.len() == 0 {
        (m, cycle)
    } else {
        let (m2, c2) = fire(m, cycle, t, due[0]);
        fire_all(m2, c2, t, due.drop_first())
    }
}

/// The number of cycle markers with `new_cycle` set among `due`.
pub open spec fn new_cycles<E>(due: Seq<TickerEvent<E>>) -> int
    decreases due.len(),
{
    if due.len() == 0 {
        0
    } else {
        (if due[0] matches TickerEvent::Cycler { new_cycle: true } {
            1int
        } else {
            0int
        }) + new_cycles(due.drop_first())
    }
}

/// Firing events adds one to the cycle count for each marker with
/// `new_cycle` set, and nothing else.
pub proof fn lemma_fire_all_cycle<E>(
    m: Map<u32, Seq<TickerEvent<E>>>,
    cycle: int,
    t: u32,
    due: Seq<TickerEvent<E>>,
)
    ensures
        fire_all(m, cycle, t, due).1 == cycle + new_cycles(due),
    decreases due.len(),
{
    if due.len() > 0 {
        let (m2, c2) = fire(m, cycle, t, due[0]);
        lemma_fire_all_cycle(m2, c2, t, due.drop_first());
    }
}

/// Firing events never lowers the cycle count.
pub proof fn lemma_fire_all_cycle_grows<E>(
    m: Map<u32, Seq<TickerEvent<E>>>,
    cycle: int,
    t: u32,
    due: Seq<TickerEvent<E>>,
)
    ensures
        cycle <= fire_all(m, cycle, t, due).1,
    decreases due.len(),
{
    if due.len() > 0 {
        let (m2, c2) = fire(m, cycle, t, due[0]);
        lemma_fire_all_cycle_grows(m2, c2, t, due.drop_first());
    }
}

/// The events due at tick `t` in the schedule `m` (none if `t` has no entry).
pub open spec fn due_at<E>(m: Map<u32, Seq<E>>, t: u32) -> Seq<E> {
    if m.contains_key(t) {
        m[t]
    } else {
        Seq::empty()
    }
}

/// What the save state records for an event about to fire: a weak handle
/// made by the caller for a user event, nothing for a cycle marker.
pub open spec fn saved_for<E, W, D: Fn(&E) -> W>(downgrade: D, ev: TickerEvent<E>, w: Option<W>) -> bool {
    match ev {
        TickerEvent::Task(e) => w matches Some(h) && call_ensures(downgrade, (&e,), h),
        TickerEvent::Cycler { .. } => w is None,
    }
}

/// What handing the event `ev` to `call` may have answered: for a user
/// event, whatever `call` returns for it; a cycle marker is not handed over.
pub open spec fn handed<E, C: Fn(E) -> bool>(call: C, ev: TickerEvent<E>, answer: bool) -> bool {
    match ev {
        TickerEvent::Task(e) => call_ensures(call, (e,), answer),
        TickerEvent::Cycler { .. } => true,
    }
}

/// The user events made of the `Some` entries of `s`, in order.
pub open spec fn revived_tasks<E>(s: Seq<Option<E>>) -> Seq<TickerEvent<E>>
    decreases s.len(),
{
    if s.len() == 0 {
        Seq::empty()
    } else {
        let init = revived_tasks(s.drop_last());
        match s.last() {
            Some(e) => init.push(TickerEvent::Task(e)),
            None => init,
        }
    }
}

/// Whether a saved handle came back alive.
pub open spec fn is_live<E>(o: Option<E>) -> bool {
    o is Some
}

/// The user event made of a revived handle's event.
pub open spec fn live_task<E>(o: Option<E>) -> TickerEvent<E> {
    TickerEvent::Task(o->0)
}

/// The events put back after a poisoned tick are exactly the live ones: every
/// `Some` entry of `s` becomes one user event, none is lost and nothing else is
/// added, in the order of `s`.
pub proof fn lemma_revived_tasks_are_the_live_ones<E>(s: Seq<Option<E>>)
    ensures
        revived_tasks(s) == s.filter(|o: Option<E>| is_live(o)).map_values(|o: Option<E>| live_task(o)),
        revived_tasks(s).len() == s.filter(|o: Option<E>| is_live(o)).len(),
        forall|j: int|
            0 <= j < revived_tasks(s).len() ==> #[trigger] revived_tasks(s)[j] == TickerEvent::Task(
                s.filter(|o: Option<E>| is_live(o))[j]->0,
            ),
    decreases s.len(),
{
    reveal(Seq::filter);
    let live = |o: Option<E>| is_live(o);
    let task = |o: Option<E>| live_task(o);
    if s.len() > 0 {
        lemma_revived_tasks_are_the_live_ones(s.drop_last());
        let sub = s.drop_last().filter(live);
        assert(s.filter(live) == (if live(s.last()) { sub.push(s.last()) } else { sub }));
        if live(s.last()) {
            assert(sub.push(s.last()).map_values(task) =~= sub.map_values(task).push(task(s.last())));
        }
    } else {
        assert(s.filter(live) =~= Seq::<Option<E>>::empty());
        assert(revived_tasks(s) =~= s.filter(live).map_values(task));
    }
}

/// `m` with the items `xs` appended, in order, to the sequence under `k`
/// (which is created if missing and `xs` is not empty).
pub open spec fn append_at<X>(m: Map<u32, Seq<X>>, k: u32, xs: Seq<X>) -> Map<u32, Seq<X>> {
    if xs.len() == 0 {
        m
    } else {
        m.insert(k, due_at(m, k) + xs)
    }
}

/// Appending one more item to what `append_at` appends is one `push_at`.
pub proof fn lemma_append_at_push<X>(m: Map<u32, Seq<X>>, k: u32, xs: Seq<X>, x: X)
    ensures
        append_at(m, k, xs.push(x)) == push_at(append_at(m, k, xs), k, x),
{
    if xs.len() == 0 {
        assert(due_at(m, k) + xs.push(x) =~= due_at(m, k).push(x));
        assert(append_at(m, k, xs.push(x)) =~= push_at(append_at(m, k, xs), k, x));
    } else {
        assert(due_at(m, k) + xs.push(x) =~= (due_at(m, k) + xs).push(x));
        assert(append_at(m, k, xs.push(x)) =~= push_at(append_at(m, k, xs), k, x));
    }
}

/// What reviving a saved handle may give: for a handle, whatever `upgrade`
/// returns for it; for a missing handle (a cycle marker), nothing.
pub open spec fn revived<E, W, U: Fn(W) -> Option<E>>(upgrade: U, w: Option<W>, r: Option<E>) -> bool {
    match w {
        Some(h) => call_ensures(upgrade, (h,), r),
        None => r is None,
    }
}

/// The decimal digit for `d`, which is below ten.
pub open spec fn digit_char(d: nat) -> char {
    ((d + 48) as char)
}

/// The decimal numeral of `n`, without leading zeros (`0` for zero).
pub open spec fn decimal(n: nat) -> Seq<char>
    decreases n,
{
    if n < 10 {
        seq![digit_char(n)]
    } else {
        decimal(n / 10).push(digit_char(n % 10))
    }
}

/// `true` or `false`, as a boolean is written out.
pub open spec fn bool_text(b: bool) -> Seq<char> {
    if b {
        seq!['t', 'r', 'u', 'e']
    } else {
        seq!['f', 'a', 'l', 's', 'e']
    }
}

/// The summary of a ticker's state: the cycle count, the tick and the
/// run-loop flag on one line, the number of events on the next.
pub open spec fn summary_of(cycle: u64, tick: u32, stop: bool, events: usize) -> Seq<char> {
    seq!['C', 'y', 'c', 'l', 'e', ':', ' '] + decimal(cycle as nat)
        + seq![' ', 'T', 'i', 'c', 'k', ':', ' '] + decimal(tick as nat)
        + seq![' ', 'A', 'u', 't', 'o', '-', 'r', 'u', 'n', ':', ' '] + bool_text(stop)
        + seq!['\n', 'N', 'u', 'm', 'b', 'e', 'r', ' ', 'o', 'f', ' ', 'e', 'v', 'e', 'n', 't', 's', ':', ' ']
        + decimal(events as nat)
}

/// Formats the summary with `format!`. std writes an unsigned integer with
/// `{}` as its decimal numeral and a boolean as `true` or `false`, so the text
/// is [`summary_of`] of the four values.
#[verifier::external_body]
fn summary_text(cycle: u64, tick: u32, stop: bool, events: usize) -> (r: String)
    ensures
        r@ == summary_of(cycle, tick, stop, events),
{
    format!("Cycle: {} Tick: {} Auto-run: {}\nNumber of events: {}", cycle, tick, stop, events)
}

/// A ticker whose events are kept by the tick at which they are due.
///
/// `E` is the type of the events it is handed, `W` that of the weak handles
/// it keeps of the events of the tick in progress.
#[derive(Debug, Clone)]
pub struct TickerBasic<E, W> {
    cycle: u64,
    tick: u32,
    stop: bool,
    timer: ZeroSleepTimer,
    safe_save: Vec<Option<W>>,
    safe_save_state: bool,
    safe_save_index: u16,
    events: HashMap<u32, Vec<TickerEvent<E>>>,
}

impl<E, W> TickerBasic<E, W> {
    /// The schedule: for each tick that has an entry, the events due then in
    /// the order they were added.
    pub closed spec fn events_view(&self) -> Map<u32, Seq<TickerEvent<E>>> {
        self.events@.map_values(|v: Vec<TickerEvent<E>>| v@)
    }

    /// The number of completed turns of the tick counter.
    pub closed spec fn cycle_spec(&self) -> u64 {
        self.cycle
    }

    /// The current tick.
    pub closed spec fn tick_spec(&self) -> u32 {
        self.tick
    }

    /// Whether the ticker's own run loop is stopped.
    pub closed spec fn stopped(&self) -> bool {
        self.stop
    }

    /// The timer that paces the run loop.
    pub closed spec fn timer_spec(&self) -> ZeroSleepTimer {
        self.timer
    }

    /// The handles kept of the events of the last tick that had any.
    pub closed spec fn saved(&self) -> Seq<Option<W>> {
        self.safe_save@
    }

    /// Whether a tick is in progress.
    pub closed spec fn saving(&self) -> bool {
        self.safe_save_state
    }

    /// How many of the saved events have fired.
    pub closed spec fn save_index(&self) -> u16 {
        self.safe_save_index
    }

    /// `self` and `other` agree on everything but the schedule and the cycle
    /// count.
    pub open spec fn same_but_schedule(&self, other: &Self) -> bool {
        &&& self.tick_spec() == other.tick_spec()
        &&& self.stopped() == other.stopped()
        &&& self.timer_spec() == other.timer_spec()
        &&& self.saved() == other.saved()
        &&& self.saving() == other.saving()
        &&& self.save_index() == other.save_index()
    }

    /// A ticker at tick zero of cycle zero with an empty schedule, paced at
    /// `speed` ticks per second, its run loop stopped or not as `stop` says.
    pub fn new(speed: u128, stop: bool) -> (r: Self)
        requires
            speed != 0,
        ensures
            r.cycle_spec() == 0,
            r.tick_spec() == 0,
            r.stopped() == stop,
            r.timer_spec().counter_spec() == 0,
            r.timer_spec().target_spec() == NANOS_PER_SECOND / speed,
            r.saved() == Seq::<Option<W>>::empty(),
            !r.saving(),
            r.save_index() == 0,
            r.events_view() == Map::<u32, Seq<TickerEvent<E>>>::empty(),
    {
        let r = TickerBasic {
            cycle: 0,
            tick: 0,
            stop,
            timer: ZeroSleepTimer::new(speed),
            safe_save: Vec::new(),
            safe_save_state: false,
            safe_save_index: 0,
            events: HashMap::new(),
        };
        assert(r.events_view() =~= Map::<u32, Seq<TickerEvent<E>>>::empty());
        r
    }

    /// Appends `ev` to the events due at tick `key`.
    fn push_event(&mut self, key: u32, ev: TickerEvent<E>)
        ensures
            final(self).events_view() == push_at(old(self).events_view(), key, ev),
            final(self).cycle_spec() == old(self).cycle_spec(),
            final(self).same_but_schedule(old(self)),
    {
        let ghost m0 = self.events_view();
        let ghost raw0 = self.events@;
        match self.events.remove(&key) {
            Some(mut v) => {
                assert(raw0.contains_key(key) && raw0[key] == v);
                assert(m0[key] == v@);
                v.push(ev);
                self.events.insert(key, v);
                assert(self.events@ == raw0.insert(key, v));
            },
            None => {
                assert(!raw0.contains_key(key));
                let v = vec![ev];
                assert(v@ == seq![ev]);
                self.events.insert(key, v);
                assert(self.events@ == raw0.insert(key, v));
            },
        }
        assert(self.events_view() =~= push_at(m0, key, ev));
    }

    /// Schedules the user event `event` for `delay` ticks from now (wrapping
    /// around the tick counter), after the events already due then, and
    /// records on it, through `stamp`, the tick at which it was requested: the
    /// current tick, which also comes back.
    pub fn add_event<S>(&mut self, event: E, delay: u32, stamp: S) -> (request: u32) where
        S: Fn(&E, u32),
        requires
            stamp.requires((&event, old(self).tick_spec())),
        ensures
            request == old(self).tick_spec(),
            call_ensures(stamp, (&event, request), ()),
            final(self).events_view() == push_at(
                old(self).events_view(),
                wrapping_sum(delay, old(self).tick_spec()),
                TickerEvent::Task(event),
            ),
            final(self).cycle_spec() == old(self).cycle_spec(),
            final(self).same_but_schedule(old(self)),
    {
        let request = self.tick;
        stamp(&event, request);
        let key = wrapping_add_u32(delay, request);
        self.push_event(key, TickerEvent::Task(event));
        request
    }

    /// The schedule holds entries for finitely many ticks.
    pub proof fn lemma_events_finite(&self)
        ensures
            self.events_view().dom().finite(),
    {
        assert(self.events_view().dom() =~= self.events@.dom());
    }

    /// Counts one more cycle and schedules a cycle marker for the next tick.
    fn cycle_up(&mut self)
        requires
            old(self).cycle_spec() < u64::MAX,
        ensures
            (final(self).events_view(), final(self).cycle_spec() as int) == fire(
                old(self).events_view(),
                old(self).cycle_spec() as int,
                old(self).tick_spec(),
                TickerEvent::Cycler { new_cycle: true },
            ),
            final(self).same_but_schedule(old(self)),
    {
        self.cycle = self.cycle + 1;
        let key = wrapping_add_u32(1, self.tick);
        self.push_event(key, TickerEvent::Cycler { new_cycle: false });
    }

    /// Schedules the cycle marker that counts the next cycle, one full turn of
    /// the tick counter from now (at the tick before the current one).
    pub fn cycle_adder(&mut self)
        ensures
            (final(self).events_view(), final(self).cycle_spec() as int) == fire(
                old(self).events_view(),
                old(self).cycle_spec() as int,
                old(self).tick_spec(),
                TickerEvent::Cycler { new_cycle: false },
            ),
            final(self).same_but_schedule(old(self)),
    {
        let key = wrapping_add_u32(u32::MAX, self.tick);
        self.push_event(key, TickerEvent::Cycler { new_cycle: true });
    }
    /// Whether [`Self::tick`] can run now: at most `u16::MAX` events are due,
    /// and counting the cycles they add does not overflow the cycle count.
    pub fn can_tick(&self) -> (r: bool)
        ensures
            r == (due_at(self.events_view(), self.tick_spec()).len() <= u16::MAX && fire_all(
                self.events_view().remove(self.tick_spec()),
                self.cycle_spec() as int,
                self.tick_spec(),
                due_at(self.events_view(), self.tick_spec()),
            ).1 <= u64::MAX),
    {
        let ghost m = self.events_view();
        proof {
            lemma_fire_all_cycle(m.remove(self.tick), self.cycle as int, self.tick, due_at(m, self.tick));
        }
        match self.events.get(&self.tick) {
            None => {
                assert(due_at(m, self.tick) =~= Seq::<TickerEvent<E>>::empty());
                true
            },
            Some(due) => {
                assert(m[self.tick] == due@);
                if due.len() > 0xffff {
                    false
                } else {
                    let mut count: u64 = 0;
                    let n = due.len();
                    assert(due@.skip(0) =~= due@);
                    for i in 0..n
                        invariant
                            n == due@.len(),
                            n <= 0xffff,
                            count <= i,
                            count + new_cycles(due@.skip(i as int)) == new_cycles(due@),
                    {
                        assert(due@.skip(i as int).drop_first() =~= due@.skip(i + 1));
                        match &due[i] {
                            TickerEvent::Cycler { new_cycle } => {
                                if *new_cycle {
                                    count = count + 1;
                                }
                            },
                            TickerEvent::Task(_) => {},
                        }
                    }
                    assert(due@.skip(n as int) =~= Seq::<TickerEvent<E>>::empty());
                    count <= u64::MAX - self.cycle
                }
            },
        }
    }

    /// One tick.
    ///
    /// The events due at the current tick are taken out of the schedule.  If
    /// there are any, a handle of each is saved first (made by `downgrade` for
    /// a user event, none for a cycle marker) and then they fire in order: a
    /// user event is handed to `call`, a cycle marker does its own work (see
    /// [`TickerEvent::Cycler`]).  The saved handles stay until the next tick
    /// that has events.  Then the tick counter moves on, wrapping around.
    pub fn tick<D, C>(&mut self, downgrade: D, call: C) where D: Fn(&E) -> W, C: Fn(E) -> bool
        requires
            forall|e: &E| #[trigger] downgrade.requires((e,)),
            forall|e: E| #[trigger] call.requires((e,)),
            due_at(old(self).events_view(), old(self).tick_spec()).len() <= u16::MAX,
            fire_all(
                old(self).events_view().remove(old(self).tick_spec()),
                old(self).cycle_spec() as int,
                old(self).tick_spec(),
                due_at(old(self).events_view(), old(self).tick_spec()),
            ).1 <= u64::MAX,
        ensures
            (final(self).events_view(), final(self).cycle_spec() as int) == fire_all(
                old(self).events_view().remove(old(self).tick_spec()),
                old(self).cycle_spec() as int,
                old(self).tick_spec(),
                due_at(old(self).events_view(), old(self).tick_spec()),
            ),
            final(self).tick_spec() == next_tick(old(self).tick_spec()),
            (final(self).events_view(), final(self).cycle_spec() as int, final(self).tick_spec())
                == tick_once(old(self).events_view(), old(self).cycle_spec() as int, old(self).tick_spec()),
            final(self).stopped() == old(self).stopped(),
            final(self).timer_spec() == old(self).timer_spec(),
            old(self).events_view().contains_key(old(self).tick_spec()) ==> {
                let due = old(self).events_view()[old(self).tick_spec()];
                &&& !final(self).saving()
                &&& final(self).save_index() == due.len()
                &&& final(self).saved().len() == due.len()
                &&& forall|i: int|
                    0 <= i < due.len() ==> saved_for(downgrade, #[trigger] due[i], final(self).saved()[i])
                &&& exists|answers: Seq<bool>|
                    answers.len() == due.len() && forall|i: int|
                        0 <= i < due.len() ==> handed(call, due[i], #[trigger] answers[i])
            },
            !old(self).events_view().contains_key(old(self).tick_spec()) ==> {
                &&& final(self).saving() == old(self).saving()
                &&& final(self).save_index() == old(self).save_index()
                &&& final(self).saved() == old(self).saved()
            },
    {
        let t = self.tick;
        let ghost m0 = self.events_view();
        let ghost raw0 = self.events@;
        let ghost target = fire_all(
            m0.remove(t),
            self.cycle as int,
            t,
            due_at(m0, t),
        );
        let removed = self.events.remove(&t);
        assert(self.events_view() =~= m0.remove(t));
        match removed {
            Some(due) => {
                assert(raw0.contains_key(t) && raw0[t] == due);
                assert(m0[t] == due@);
                self.safe_save_state = true;
                self.safe_save_index = 0;
                let n = due.len();
                let mut saved: Vec<Option<W>> = Vec::with_capacity(n);
                for i in 0..n
                    invariant
                        n == due.len(),
                        saved.len() == i,
                        forall|e: &E| #[trigger] downgrade.requires((e,)),
                        forall|j: int| 0 <= j < i ==> saved_for(downgrade, #[trigger] due@[j], saved@[j]),
                {
                    match &due[i] {
                        TickerEvent::Task(e) => {
                            let w = downgrade(e);
                            saved.push(Some(w));
                        },
                        TickerEvent::Cycler { .. } => {
                            saved.push(None);
                        },
                    }
                }
                self.safe_save = saved;
                let mut rest = due;
                let ghost mut answers: Seq<bool> = Seq::empty();
                assert(rest@.skip(0) =~= rest@);
                while rest.len() > 0
                    invariant
                        rest@ == m0[t].skip(self.safe_save_index as int),
                        answers.len() == self.safe_save_index,
                        m0[t].len() == n,
                        forall|j: int| 0 <= j < answers.len() ==> handed(call, m0[t][j], #[trigger] answers[j]),
                        fire_all(self.events_view(), self.cycle as int, t, rest@) == target,
                        target.1 <= u64::MAX,
                        forall|e: E| #[trigger] call.requires((e,)),
                        self.tick == t,
                        self.safe_save_index + rest.len() == n,
                        n <= u16::MAX,
                        self.safe_save_state,
                        self.stop == old(self).stop,
                        self.timer == old(self).timer,
                        self.safe_save@.len() == n,
                        forall|j: int| 0 <= j < n ==> saved_for(downgrade, #[trigger] m0[t][j], self.safe_save@[j]),
                    decreases rest.len(),
                {
                    let ghost before = rest@;
                    let ghost idx = self.safe_save_index as int;
                    let ev = rest.remove(0);
                    assert(rest@ =~= before.drop_first());
                    assert(ev == m0[t][idx]);
                    assert(rest@ =~= m0[t].skip(idx + 1));
                    let ghost mut answer = true;
                    let ghost next = fire(self.events_view(), self.cycle as int, t, ev);
                    proof {
                        lemma_fire_all_cycle_grows(next.0, next.1, t, rest@);
                    }
                    match ev {
                        TickerEvent::Task(e) => {
                            let got = call(e);
                            proof {
                                answer = got;
                            }
                        },
                        TickerEvent::Cycler { new_cycle } => {
                            if new_cycle {
                                self.cycle_up();
                            } else {
                                self.cycle_adder();
                            }
                        },
                    }
                    proof {
                        answers = answers.push(answer);
                    }
                    self.safe_save_index = self.safe_save_index + 1;
                }
                assert(answers.len() == n);
                self.safe_save_state = false;
            },
            None => {
                assert(!raw0.contains_key(t));
                assert(due_at(m0, t) =~= Seq::<TickerEvent<E>>::empty());
            },
        }
        self.tick = wrapping_add_u32(t, 1);
    }
    /// Stops the ticker's own run loop.
    pub fn stop(&mut self)
        ensures
            final(self).stopped(),
            final(self).events_view() == old(self).events_view(),
            final(self).cycle_spec() == old(self).cycle_spec(),
            final(self).tick_spec() == old(self).tick_spec(),
            final(self).timer_spec() == old(self).timer_spec(),
            final(self).saved() == old(self).saved(),
            final(self).saving() == old(self).saving(),
            final(self).save_index() == old(self).save_index(),
    {
        self.stop = true;
    }

    /// Lets the ticker's own run loop go.
    pub fn start(&mut self)
        ensures
            !final(self).stopped(),
            final(self).events_view() == old(self).events_view(),
            final(self).cycle_spec() == old(self).cycle_spec(),
            final(self).tick_spec() == old(self).tick_spec(),
            final(self).timer_spec() == old(self).timer_spec(),
            final(self).saved() == old(self).saved(),
            final(self).saving() == old(self).saving(),
            final(self).save_index() == old(self).save_index(),
    {
        self.stop = false;
    }

    /// The pace of the run loop: the period of its timer, in nanoseconds.
    pub fn get_speed(&self) -> (r: u128)
        ensures
            r == self.timer_spec().target_spec(),
    {
        self.timer.get_target()
    }

    /// Sets the period of the run loop's timer to `speed` nanoseconds; with
    /// `reset`, the time accounted so far is dropped and the clock restarts.
    pub fn set_speed(&mut self, speed: u128, reset: bool)
        ensures
            final(self).timer_spec().target_spec() == speed,
            reset ==> final(self).timer_spec().counter_spec() == 0,
            !reset ==> final(self).timer_spec().counter_spec() == old(self).timer_spec().counter_spec(),
            final(self).events_view() == old(self).events_view(),
            final(self).cycle_spec() == old(self).cycle_spec(),
            final(self).tick_spec() == old(self).tick_spec(),
            final(self).stopped() == old(self).stopped(),
            final(self).saved() == old(self).saved(),
            final(self).saving() == old(self).saving(),
            final(self).save_index() == old(self).save_index(),
    {
        self.timer.set_target(speed);
        if reset {
            self.timer.reset();
        }
    }

    /// One step of the run loop's wait: [`ZeroSleepTimer::poll`] on its timer.
    pub fn poll_timer(&mut self) -> (r: Option<WaitStep>)
        ensures
            final(self).timer_spec().target_spec() == old(self).timer_spec().target_spec(),
            exists|d: Duration| step_outcome(old(self).timer_spec(), final(self).timer_spec(), #[trigger] duration_nanos(d), r),
            final(self).events_view() == old(self).events_view(),
            final(self).cycle_spec() == old(self).cycle_spec(),
            final(self).tick_spec() == old(self).tick_spec(),
            final(self).stopped() == old(self).stopped(),
            final(self).saved() == old(self).saved(),
            final(self).saving() == old(self).saving(),
            final(self).save_index() == old(self).save_index(),
    {
        self.timer.poll()
    }

    /// The cycle count and the tick.
    pub fn get_tick(&self) -> (r: (u64, u32))
        ensures
            r == (self.cycle_spec(), self.tick_spec()),
    {
        (self.cycle, self.tick)
    }

    /// Sets the cycle count and the tick.
    pub fn set_tick(&mut self, cycle: u64, tick: u32)
        ensures
            final(self).cycle_spec() == cycle,
            final(self).tick_spec() == tick,
            final(self).events_view() == old(self).events_view(),
            final(self).stopped() == old(self).stopped(),
            final(self).timer_spec() == old(self).timer_spec(),
            final(self).saved() == old(self).saved(),
            final(self).saving() == old(self).saving(),
            final(self).save_index() == old(self).save_index(),
    {
        self.cycle = cycle;
        self.tick = tick;
    }

    /// The number of events in the schedule, over all ticks, if it fits in a
    /// `usize`.
    pub fn try_sum_of_events(&self) -> (r: Option<usize>)
        ensures
            r matches Some(n) ==> n == total_len(self.events_view()),
            r is None ==> total_len(self.events_view()) > usize::MAX,
    {
        let ghost m = self.events_view();
        let keys = keys_of(&self.events);
        proof {
            assert(m.dom() =~= self.events@.dom());
            lemma_sum_lens_total(m, keys@);
        }
        let mut sum: usize = 0;
        let n = keys.len();
        for i in 0..n
            invariant
                n == keys@.len(),
                m == self.events_view(),
                keys@.to_set() == self.events@.dom(),
                sum == sum_lens(m, keys@.take(i as int)),
                sum_lens(m, keys@) == total_len(m),
        {
            let k = keys[i];
            assert(keys@.to_set().contains(k)) by {
                assert(keys@[i as int] == k);
            }
            let v = self.events.get(&k).unwrap();
            proof {
                let a = keys@.take(i as int);
                lemma_sum_lens_append(m, a, seq![k]);
                assert(keys@.take(i + 1) =~= a + seq![k]);
                assert(keys@ =~= keys@.take(i + 1) + keys@.skip(i + 1));
                lemma_sum_lens_append(m, keys@.take(i + 1), keys@.skip(i + 1));
                assert(seq![k].drop_first() =~= Seq::<u32>::empty());
                assert(self.events@[k] == *v);
                assert(m[k] == v@);
                assert(sum_lens(m, seq![k]) == m[k].len() + sum_lens(m, seq![k].drop_first()));
            }
            if sum > usize::MAX - v.len() {
                return None;
            }
            sum = sum + v.len();
        }
        assert(keys@.take(n as int) =~= keys@);
        Some(sum)
    }

    /// The number of events in the schedule, over all ticks.
    pub fn get_sum_of_events(&self) -> (r: usize)
        requires
            total_len(self.events_view()) <= usize::MAX,
        ensures
            r == total_len(self.events_view()),
    {
        match self.try_sum_of_events() {
            Some(n) => n,
            None => 0,
        }
    }

    /// A one-line summary of the cycle count, the tick and the run-loop flag,
    /// with the number of events on a second line.
    pub fn to_string(&self) -> (r: String)
        requires
            total_len(self.events_view()) <= usize::MAX,
        ensures
            r@ == summary_of(
                self.cycle_spec(),
                self.tick_spec(),
                self.stopped(),
                total_len(self.events_view()) as usize,
            ),
    {
        let n = self.get_sum_of_events();
        summary_text(self.cycle, self.tick, self.stop, n)
    }

    /// Whether the ticker's own run loop is stopped.
    pub fn get_autorun(&self) -> (r: bool)
        ensures
            r == self.stopped(),
    {
        self.stop
    }

    /// The handles saved of the events of the last tick that had any.
    pub fn get_savestate_items(&self) -> (r: &Vec<Option<W>>)
        ensures
            r@ == self.saved(),
    {
        &self.safe_save
    }

    /// Whether a tick is in progress.
    pub fn get_savestate(&self) -> (r: bool)
        ensures
            r == self.saving(),
    {
        self.safe_save_state
    }

    /// How many of the saved events have fired.
    pub fn get_savestate_index(&self) -> (r: usize)
        ensures
            r == self.save_index(),
    {
        self.safe_save_index as usize
    }

    /// Puts back the saved events that are still alive.
    ///
    /// Each saved handle is handed to `upgrade`; the events it gives back are
    /// scheduled for the next tick, in the order they were saved, after the
    /// events already due then.  Cycle markers are not saved, so they never
    /// come back.  The saved handles are used up.
    pub fn clear_poison<U>(&mut self, upgrade: U) where U: Fn(W) -> Option<E>
        requires
            forall|w: W| #[trigger] upgrade.requires((w,)),
        ensures
            final(self).saved() == Seq::<Option<W>>::empty(),
            exists|r: Seq<Option<E>>|
                {
                    &&& r.len() == old(self).saved().len()
                    &&& forall|i: int|
                        0 <= i < r.len() ==> revived(upgrade, old(self).saved()[i], #[trigger] r[i])
                    &&& final(self).events_view() == append_at(
                        old(self).events_view(),
                        next_tick(old(self).tick_spec()),
                        revived_tasks(r),
                    )
                    &&& final(self).events_view() == append_at(
                        old(self).events_view(),
                        next_tick(old(self).tick_spec()),
                        r.filter(|o: Option<E>| is_live(o)).map_values(|o: Option<E>| live_task(o)),
                    )
                },
            final(self).cycle_spec() == old(self).cycle_spec(),
            final(self).tick_spec() == old(self).tick_spec(),
            final(self).stopped() == old(self).stopped(),
            final(self).timer_spec() == old(self).timer_spec(),
            final(self).saving() == old(self).saving(),
            final(self).save_index() == old(self).save_index(),
    {
        let ghost m0 = self.events_view();
        let ghost s0 = self.safe_save@;
        let mut saved: Vec<Option<W>> = Vec::new();
        std::mem::swap(&mut saved, &mut self.safe_save);
        assert(saved@ == s0);
        let len0 = saved.len();
        assert(s0.len() == len0);
        let key = wrapping_add_u32(self.tick, 1);
        let ghost mut rs: Seq<Option<E>> = Seq::empty();
        assert(self.events_view() == append_at(m0, key, revived_tasks(rs)));
        let mut i: usize = 0;
        while saved.len() > 0
            invariant
                forall|w: W| #[trigger] upgrade.requires((w,)),
                s0.len() == i + saved@.len(),
                s0.len() <= usize::MAX,
                saved@ == s0.skip(i as int),
                rs.len() == i,
                forall|j: int| 0 <= j < i ==> revived(upgrade, s0[j], #[trigger] rs[j]),
                self.events_view() == append_at(m0, key, revived_tasks(rs)),
                key == next_tick(self.tick),
                self.tick == old(self).tick,
                self.cycle == old(self).cycle,
                self.stop == old(self).stop,
                self.timer == old(self).timer,
                self.safe_save@ == Seq::<Option<W>>::empty(),
                self.safe_save_state == old(self).safe_save_state,
                self.safe_save_index == old(self).safe_save_index,
            decreases saved.len(),
        {
            let h = saved.remove(0);
            assert(saved@ =~= s0.skip(i + 1));
            assert(h == s0[i as int]);
            let ghost prev = rs;
            let ghost mut r: Option<E> = None;
            match h {
                Some(w) => {
                    let got = upgrade(w);
                    proof {
                        r = got;
                    }
                    match got {
                        Some(e) => {
                            proof {
                                lemma_append_at_push(m0, key, revived_tasks(prev), TickerEvent::Task(e));
                            }
                            self.push_event(key, TickerEvent::Task(e));
                        },
                        None => {},
                    }
                },
                None => {},
            }
            proof {
                rs = prev.push(r);
                assert(rs.drop_last() =~= prev);
            }
            i = i + 1;
        }
        assert(rs.len() == s0.len());
        proof {
            lemma_revived_tasks_are_the_live_ones(rs);
        }
    }
}

/// User events leave the schedule and the cycle count as they are: only the
/// cycle markers change them when they fire.
pub proof fn lemma_tasks_leave_schedule<E>(
    m: Map<u32, Seq<TickerEvent<E>>>,
    cycle: int,
    t: u32,
    due: Seq<TickerEvent<E>>,
)
    requires
        forall|i: int| 0 <= i < due.len() ==> #[trigger] due[i] is Task,
    ensures
        fire_all(m, cycle, t, due) == (m, cycle),
    decreases due.len(),
{
    if due.len() > 0 {
        assert(due[0] is Task);
        assert forall|i: int| 0 <= i < due.drop_first().len() implies #[trigger] due.drop_first()[i] is Task by {
            assert(due.drop_first()[i] == due[i + 1]);
        }
        lemma_tasks_leave_schedule(m, cycle, t, due.drop_first());
    }
}

/// The cycle markers count the turns of the tick counter.  The marker that
/// [`TickerBasic::cycle_adder`] schedules on a ticker at tick zero sits at the
/// last tick, `u32::MAX`; when it fires there it counts one cycle and puts its
/// partner on tick zero, the first tick of the next turn; the partner, firing
/// there, puts the marker back on `u32::MAX`.
pub proof fn lemma_cycle_markers_turn<E>(m: Map<u32, Seq<TickerEvent<E>>>, cycle: int)
    ensures
        wrapping_sum(u32::MAX, 0) == u32::MAX,
        fire(m, cycle, u32::MAX, TickerEvent::Cycler { new_cycle: true }) == (
            push_at(m, 0, TickerEvent::Cycler { new_cycle: false }),
            cycle + 1,
        ),
        fire(m, cycle, 0, TickerEvent::Cycler { new_cycle: false }) == (
            push_at(m, u32::MAX, TickerEvent::Cycler { new_cycle: true }),
            cycle,
        ),
{
}

/// Adding an event adds exactly one to the number of events scheduled.
pub proof fn lemma_push_at_counts<X>(m: Map<u32, Seq<X>>, k: u32, x: X)
    requires
        m.dom().finite(),
    ensures
        push_at(m, k, x).dom().finite(),
        total_len(push_at(m, k, x)) == total_len(m) + 1,
{
    let p = push_at(m, k, x);
    lemma_total_len_remove(p, k);
    if m.contains_key(k) {
        lemma_total_len_remove(m, k);
        assert(p.remove(k) =~= m.remove(k));
    } else {
        assert(p.remove(k) =~= m);
    }
}

/// An event added with no delay is the last of the events due at the current
/// tick, so the next tick runs it.
pub proof fn lemma_no_delay_is_due_now<X>(m: Map<u32, Seq<X>>, t: u32, x: X)
    ensures
        wrapping_sum(0, t) == t,
        due_at(push_at(m, t, x), t).len() == due_at(m, t).len() + 1,
        due_at(push_at(m, t, x), t).last() == x,
{
}

/// A tick whose due events are all user events takes exactly those events out
/// of the schedule.
pub proof fn lemma_tick_takes_due_tasks<E>(m: Map<u32, Seq<TickerEvent<E>>>, cycle: int, t: u32)
    requires
        m.dom().finite(),
        forall|i: int| 0 <= i < due_at(m, t).len() ==> #[trigger] due_at(m, t)[i] is Task,
    ensures
        fire_all(m.remove(t), cycle, t, due_at(m, t)) == (m.remove(t), cycle),
        total_len(m.remove(t)) + due_at(m, t).len() == total_len(m),
{
    lemma_tasks_leave_schedule(m.remove(t), cycle, t, due_at(m, t));
    if m.contains_key(t) {
        lemma_total_len_remove(m, t);
    } else {
        assert(m.remove(t) =~= m);
    }
}

/// `a` is a prefix of `b`.
pub open spec fn is_prefix<X>(a: Seq<X>, b: Seq<X>) -> bool {
    a.len() <= b.len() && forall|i: int| 0 <= i < a.len() ==> #[trigger] b[i] == a[i]
}

/// Firing events only ever appends to the schedule: what was due at any tick
/// stays due there, in the same order.
pub proof fn lemma_fire_all_extends<E>(
    m: Map<u32, Seq<TickerEvent<E>>>,
    cycle: int,
    t: u32,
    due: Seq<TickerEvent<E>>,
    k: u32,
)
    ensures
        is_prefix(due_at(m, k), due_at(fire_all(m, cycle, t, due).0, k)),
    decreases due.len(),
{
    if due.len() > 0 {
        let (m2, c2) = fire(m, cycle, t, due[0]);
        lemma_fire_all_extends(m2, c2, t, due.drop_first(), k);
        assert(is_prefix(due_at(m, k), due_at(m2, k)));
        let a = due_at(m, k);
        let b = due_at(m2, k);
        let c = due_at(fire_all(m2, c2, t, due.drop_first()).0, k);
        assert forall|i: int| 0 <= i < a.len() implies #[trigger] c[i] == a[i] by {
            assert(b[i] == a[i]);
            assert(c[i] == b[i]);
        }
    }
}

/// A tick never drops or reorders the events due at any other tick: they wait
/// their turn.
pub proof fn lemma_tick_keeps_pending<E>(m: Map<u32, Seq<TickerEvent<E>>>, cycle: int, t: u32, k: u32)
    requires
        k != t,
    ensures
        is_prefix(due_at(m, k), due_at(fire_all(m.remove(t), cycle, t, due_at(m, t)).0, k)),
{
    assert(due_at(m.remove(t), k) =~= due_at(m, k));
    lemma_fire_all_extends(m.remove(t), cycle, t, due_at(m, t), k);
}

/// The schedule, cycle count and tick after one [`TickerBasic::tick`] from
/// the schedule `m` and cycle count `cycle` at tick `t`.
pub open spec fn tick_once<E>(m: Map<u32, Seq<TickerEvent<E>>>, cycle: int, t: u32) -> (
    Map<u32, Seq<TickerEvent<E>>>,
    int,
    u32,
) {
    let (m2, c2) = fire_all(m.remove(t), cycle, t, due_at(m, t));
    (m2, c2, next_tick(t))
}

/// The schedule, cycle count and tick after `n` ticks.
pub open spec fn ticks<E>(m: Map<u32, Seq<TickerEvent<E>>>, cycle: int, t: u32, n: nat) -> (
    Map<u32, Seq<TickerEvent<E>>>,
    int,
    u32,
)
    decreases n,
{
    if n == 0 {
        (m, cycle, t)
    } else {
        let (m2, c2, t2) = tick_once(m, cycle, t);
        ticks(m2, c2, t2, (n - 1) as nat)
    }
}

/// Being a prefix is transitive.
proof fn lemma_prefix_trans<X>(a: Seq<X>, b: Seq<X>, c: Seq<X>)
    requires
        is_prefix(a, b),
        is_prefix(b, c),
    ensures
        is_prefix(a, c),
{
    assert forall|i: int| 0 <= i < a.len() implies #[trigger] c[i] == a[i] by {
        assert(b[i] == a[i]);
        assert(c[i] == b[i]);
    }
}

/// Over `k` ticks from tick `t`, not reaching tick `target`, the tick counter
/// counts up by `k` and the events due at `target` stay there.
proof fn lemma_ticks_before<E>(m: Map<u32, Seq<TickerEvent<E>>>, cycle: int, t: u32, target: u32, k: nat)
    requires
        t + k <= target,
    ensures
        ticks(m, cycle, t, k).2 == t + k,
        is_prefix(due_at(m, target), due_at(ticks(m, cycle, t, k).0, target)),
    decreases k,
{
    if k == 0 {
        assert(is_prefix(due_at(m, target), due_at(m, target)));
    } else {
        let (m2, c2, t2) = tick_once(m, cycle, t);
        lemma_tick_keeps_pending(m, cycle, t, target);
        assert(t2 == t + 1);
        lemma_ticks_before(m2, c2, t2, target, (k - 1) as nat);
        lemma_prefix_trans(due_at(m, target), due_at(m2, target), due_at(ticks(m2, c2, t2, (k - 1) as nat).0, target));
    }
}

/// Firing the events due at tick `t` files nothing under `t` itself.
proof fn lemma_fire_all_skips_own<E>(m: Map<u32, Seq<TickerEvent<E>>>, cycle: int, t: u32, due: Seq<TickerEvent<E>>)
    requires
        !m.contains_key(t),
    ensures
        !fire_all(m, cycle, t, due).0.contains_key(t),
    decreases due.len(),
{
    if due.len() > 0 {
        let (m2, c2) = fire(m, cycle, t, due[0]);
        lemma_fire_all_skips_own(m2, c2, t, due.drop_first());
    }
}

/// An event waits its turn.  An event due `d` ticks from the current tick `t`
/// (without wrapping around), at position `i` among the events due then, is
/// not reached by the first `d` ticks, which fire the ticks `t` to `t + d - 1`
/// and leave it in place; the `d + 1`-th tick fires tick `t + d`, where it still
/// stands at position `i`, and so hands it over; after that tick nothing is
/// left due at `t + d`.
pub proof fn lemma_event_waits_its_turn<E>(m: Map<u32, Seq<TickerEvent<E>>>, cycle: int, t: u32, d: u32, i: int)
    requires
        t + d <= u32::MAX,
        0 <= i < due_at(m, (t + d) as u32).len(),
    ensures
        forall|k: nat| k < d ==> #[trigger] ticks(m, cycle, t, k).2 == t + k && t + k != t + d,
        ticks(m, cycle, t, d as nat).2 == t + d,
        due_at(ticks(m, cycle, t, d as nat).0, (t + d) as u32)[i] == due_at(m, (t + d) as u32)[i],
        ({
            let before = ticks(m, cycle, t, d as nat);
            !tick_once(before.0, before.1, before.2).0.contains_key((t + d) as u32)
        }),
{
    let target = (t + d) as u32;
    assert forall|k: nat| k < d implies #[trigger] ticks(m, cycle, t, k).2 == t + k && t + k != t + d by {
        lemma_ticks_before::<E>(m, cycle, t, target, k);
    }
    lemma_ticks_before::<E>(m, cycle, t, target, d as nat);
    let before = ticks(m, cycle, t, d as nat);
    lemma_fire_all_skips_own(before.0.remove(target), before.1, target, due_at(before.0, target));
}

} // verus!

verus! {

/// `n + 1` ticks are `n` ticks and then one more.
pub proof fn lemma_ticks_step<E>(m: Map<u32, Seq<TickerEvent<E>>>, cycle: int, t: u32, n: nat)
    ensures
        ({
            let s = ticks(m, cycle, t, n);
            ticks(m, cycle, t, n + 1) == tick_once(s.0, s.1, s.2)
        }),
    decreases n,
{
    let (m2, c2, t2) = tick_once(m, cycle, t);
    assert(ticks(m, cycle, t, n + 1) == ticks(m2, c2, t2, n));
    if n == 0 {
        assert(ticks(m2, c2, t2, 0) == (m2, c2, t2));
    } else {
        lemma_ticks_step(m2, c2, t2, (n - 1) as nat);
        assert(ticks(m, cycle, t, n) == ticks(m2, c2, t2, (n - 1) as nat));
    }
}

/// Every event in the schedule `m` is a user event (no cycle marker).
pub open spec fn tasks_only<E>(m: Map<u32, Seq<TickerEvent<E>>>) -> bool {
    forall|k: u32, i: int| m.contains_key(k) && 0 <= i < m[k].len() ==> #[trigger] m[k][i] is Task
}

/// With user events only, ticks only take events out.  After `k` ticks from
/// tick `t` (without wrapping around) the cycle count is unchanged, every tick
/// outside `t` to `t + k - 1` still has the events it had, and the next tick
/// takes its due events out and changes nothing else, so its cycle count
/// stays within bounds.
pub proof fn lemma_ticks_tasks_only<E>(m: Map<u32, Seq<TickerEvent<E>>>, cycle: int, t: u32, k: nat)
    requires
        tasks_only(m),
        t + k <= u32::MAX,
    ensures
        ({
            let s = ticks(m, cycle, t, k);
            &&& s.1 == cycle
            &&& s.2 == t + k
            &&& tasks_only(s.0)
            &&& forall|b: u32| !(t <= b < t + k) ==> #[trigger] due_at(s.0, b) == due_at(m, b)
            &&& fire_all(s.0.remove(s.2), s.1, s.2, due_at(s.0, s.2)) == (s.0.remove(s.2), s.1)
        }),
    decreases k,
{
    assert forall|i: int| 0 <= i < due_at(m, t).len() implies #[trigger] due_at(m, t)[i] is Task by {
        assert(m[t][i] is Task);
    }
    lemma_tasks_leave_schedule(m.remove(t), cycle, t, due_at(m, t));
    if k > 0 {
        let m2 = m.remove(t);
        assert(tick_once(m, cycle, t) == (m2, cycle, (t + 1) as u32));
        assert forall|kk: u32, i: int| m2.contains_key(kk) && 0 <= i < m2[kk].len() implies #[trigger] m2[kk][i] is Task by {
            assert(m[kk][i] is Task);
        }
        lemma_ticks_tasks_only(m2, cycle, (t + 1) as u32, (k - 1) as nat);
        let s = ticks(m, cycle, t, k);
        assert(s == ticks(m2, cycle, (t + 1) as u32, (k - 1) as nat));
        assert forall|b: u32| !(t <= b < t + k) implies #[trigger] due_at(s.0, b) == due_at(m, b) by {
            assert(due_at(s.0, b) == due_at(m2, b));
            assert(due_at(m2, b) == due_at(m, b));
        }
    }
}

} // verus!
