//! Packages: what a ticker schedules.  A package wraps the object to run with
//! the scheduling data the tickers read: how many ticks to wait, the tick at
//! which it was requested, whether it must run even when nobody watches it,
//! and the category of worker it goes to.
//!
//! A package is shared (`Arc`) between the ticker that runs it and whoever
//! watches it through weak handles.  Whether it runs, and whether it is
//! finished, depends on those handle counts; the decisions are the functions
//! [`wants_run`] and [`is_junk`], and the counts are read at run time.

use std::sync::atomic::AtomicBool;
use std::sync::atomic::AtomicU32;
use std::sync::atomic::Ordering;
use std::sync::Arc;
use vstd::prelude::*;

verus! {

/// Calls `Arc::weak_count`.  Nothing is claimed of the result: other holders
/// of handles may change it at any time.
#[verifier::external_body]
fn arc_weak_count<T>(this: &Arc<T>) -> usize {
    Arc::weak_count(this)
}

/// Calls `Arc::try_unwrap`: the value itself if `this` was its only strong
/// handle, and otherwise `this` back.  Which of the two comes back depends on
/// the other holders and is left unsaid.
#[verifier::external_body]
fn arc_try_unwrap<T>(this: Arc<T>) -> (r: Result<T, Arc<T>>)
    ensures
        match r {
            Ok(t) => t == *this,
            Err(a) => a == this,
        },
{
    Arc::try_unwrap(this)
}

/// Whether a package is run when its turn comes: when it is persistent, or
/// when somebody besides the ticker still watches it (`weak_count` counts the
/// ticker's own handle too).
pub fn wants_run(persistent: bool, weak_count: usize) -> (r: bool)
    ensures
        r == (persistent || weak_count > 1),
{
    persistent || weak_count > 1
}

/// Whether a package is finished: nobody watches it and it is not persistent.
pub fn is_junk(persistent: bool, weak_count: usize) -> (r: bool)
    ensures
        r == (weak_count == 0 && !persistent),
{
    weak_count == 0 && !persistent
}

/// A package that runs its object once.
#[derive(Debug)]
pub struct TickerBox<O> {
    object: O,
    delay: u32,
    request: AtomicU32,
    persistent: bool,
    failure: AtomicBool,
    category: usize,
}

impl<O> TickerBox<O> {
    /// The object to run.
    pub closed spec fn object_spec(&self) -> O {
        self.object
    }

    /// How many ticks the package waits once scheduled.
    pub closed spec fn delay_spec(&self) -> u32 {
        self.delay
    }

    /// Whether it runs even when nobody watches it.
    pub closed spec fn persistent_spec(&self) -> bool {
        self.persistent
    }

    /// The category of worker it goes to.
    pub closed spec fn category_spec(&self) -> usize {
        self.category
    }

    /// A package of `object` that waits `delay` ticks, requested at tick zero,
    /// not failed.
    pub fn new(object: O, delay: u32, persistent: bool, category: usize) -> (r: Self)
        ensures
            r.object_spec() == object,
            r.delay_spec() == delay,
            r.persistent_spec() == persistent,
            r.category_spec() == category,
    {
        TickerBox {
            object,
            delay,
            request: AtomicU32::new(0),
            persistent,
            failure: AtomicBool::new(false),
            category,
        }
    }

    /// How many ticks the package waits once scheduled.
    pub fn delay(&self) -> (r: u32)
        ensures
            r == self.delay_spec(),
    {
        self.delay
    }

    /// The tick at which it was last requested.  The record is shared by all
    /// handles to the package, so any holder may have changed it.
    pub fn request(&self) -> u32 {
        self.request.load(Ordering::SeqCst)
    }

    /// Records, for every handle to the package, the tick at which it was
    /// requested.
    pub fn set_request(&self, request: u32) {
        self.request.store(request, Ordering::SeqCst)
    }

    /// Whether it runs even when nobody watches it.
    pub fn persistent(&self) -> (r: bool)
        ensures
            r == self.persistent_spec(),
    {
        self.persistent
    }

    /// Whether a run failed because the package was still shared.  The flag is
    /// raised by [`Self::call`] and may be raised by any holder at any time.
    pub fn is_failure(&self) -> bool {
        self.failure.load(Ordering::SeqCst)
    }

    /// The category of worker it goes to.
    pub fn category(&self) -> (r: usize)
        ensures
            r == self.category_spec(),
    {
        self.category
    }

    /// Finishes a run once the package was tried for taking (`taken` is what
    /// `Arc::try_unwrap` gave back): a package taken whole has its object
    /// handed to `run` and the run counts as done (`true`); a package still
    /// shared gets its failure flag raised and the run fails (`false`).
    pub fn finish_call<F>(taken: Result<Self, Arc<Self>>, run: F) -> (r: bool) where F: FnOnce(O)
        requires
            taken matches Ok(b) ==> run.requires((b.object_spec(),)),
        ensures
            match taken {
                Ok(b) => r && call_ensures(run, (b.object_spec(),), ()),
                Err(_) => !r,
            },
    {
        match taken {
            Ok(b) => {
                run(b.object);
                true
            },
            Err(failed) => {
                failed.failure.store(true, Ordering::SeqCst);
                false
            },
        }
    }

    /// Runs the package when its turn comes, `weak_count` weak handles to it
    /// being held.
    ///
    /// A package that does not [`wants_run`] is dropped unrun and counts as
    /// done (`true`).  One that does is tried for taking whole, which only
    /// succeeds for the last strong handle, and [`Self::finish_call`] does the
    /// rest: a `true` result then means its object was handed to `run`.
    pub fn call_with<F>(this: Arc<Self>, weak_count: usize, run: F) -> (r: bool) where F: FnOnce(O)
        requires
            run.requires((this.object_spec(),)),
        ensures
            !(this.persistent_spec() || weak_count > 1) ==> r,
            (this.persistent_spec() || weak_count > 1) && r ==> call_ensures(run, (this.object_spec(),), ()),
    {
        if wants_run(this.persistent, weak_count) {
            let taken = arc_try_unwrap(this);
            Self::finish_call(taken, run)
        } else {
            true
        }
    }

    /// Runs the package when its turn comes: [`Self::call_with`] the number of
    /// weak handles to it now.  A persistent package that comes back `true` has
    /// had its object handed to `run`.
    pub fn call<F>(this: Arc<Self>, run: F) -> (r: bool) where F: FnOnce(O)
        requires
            run.requires((this.object_spec(),)),
        ensures
            this.persistent_spec() && r ==> call_ensures(run, (this.object_spec(),), ()),
    {
        let watchers = arc_weak_count(&this);
        Self::call_with(this, watchers, run)
    }

    /// Whether the package is finished: [`is_junk`] of its persistence and of
    /// the number of weak handles to it now.  A persistent package never is.
    pub fn junk(this: Arc<Self>) -> (r: bool)
        ensures
            this.persistent_spec() ==> !r,
    {
        let watchers = arc_weak_count(&this);
        is_junk(this.persistent, watchers)
    }
}

/// A package that runs its object again on every turn it gets.
#[derive(Debug)]
pub struct TickerEternal<O> {
    object: O,
    persistent: bool,
    failure: bool,
    category: usize,
}

impl<O> TickerEternal<O> {
    /// The object to run.
    pub closed spec fn object_spec(&self) -> O {
        self.object
    }

    /// Whether it runs even when nobody watches it.
    pub closed spec fn persistent_spec(&self) -> bool {
        self.persistent
    }

    /// Whether it is marked failed.
    pub closed spec fn failure_spec(&self) -> bool {
        self.failure
    }

    /// The category of worker it goes to.
    pub closed spec fn category_spec(&self) -> usize {
        self.category
    }

    /// An eternal package of `object`.
    pub fn new(object: O, persistent: bool, category: usize) -> (r: Self)
        ensures
            r.object_spec() == object,
            r.persistent_spec() == persistent,
            !r.failure_spec(),
            r.category_spec() == category,
    {
        TickerEternal { object, persistent, failure: false, category }
    }

    /// Whether it runs even when nobody watches it.
    pub fn persistent(&self) -> (r: bool)
        ensures
            r == self.persistent_spec(),
    {
        self.persistent
    }

    /// Always zero: an eternal package is not requested at a tick.
    pub fn request(&self) -> (r: u32)
        ensures
            r == 0,
    {
        0
    }

    /// Always zero: an eternal package does not wait.
    pub fn delay(&self) -> (r: u32)
        ensures
            r == 0,
    {
        0
    }

    /// Does nothing: an eternal package keeps no request tick.
    pub fn set_request(&self, request: u32) {
    }

    /// Whether it is marked failed.
    pub fn is_failure(&self) -> (r: bool)
        ensures
            r == self.failure_spec(),
    {
        self.failure
    }

    /// The category of worker it goes to.
    pub fn category(&self) -> (r: usize)
        ensures
            r == self.category_spec(),
    {
        self.category
    }

    /// Runs the object again (hands it to `repeat`) if the package
    /// [`wants_run`] with `weak_count` weak handles to it held; either way the
    /// turn counts as done.
    pub fn call_with<F>(&self, weak_count: usize, repeat: F) -> (r: bool) where F: FnOnce(&O)
        requires
            repeat.requires((&self.object_spec(),)),
        ensures
            r,
            (self.persistent_spec() || weak_count > 1) ==> call_ensures(repeat, (&self.object_spec(),), ()),
    {
        if wants_run(self.persistent, weak_count) {
            repeat(&self.object);
        }
        true
    }

    /// Runs the object again: [`Self::call_with`] the number of weak handles to
    /// the package now.  A persistent package always hands its object to
    /// `repeat`.
    pub fn call<F>(this: Arc<Self>, repeat: F) -> (r: bool) where F: FnOnce(&O)
        requires
            repeat.requires((&this.object_spec(),)),
        ensures
            r,
            this.persistent_spec() ==> call_ensures(repeat, (&this.object_spec(),), ()),
    {
        let watchers = arc_weak_count(&this);
        this.call_with(watchers, repeat)
    }

    /// Whether the package is finished, `weak_count` weak handles to it being
    /// held: when the object says it is finished (`object_junk`, given the
    /// object), or else when nobody watches it and it is not persistent.
    pub fn junk_with<F>(&self, weak_count: usize, object_junk: F) -> (r: bool) where F: FnOnce(&O) -> bool
        requires
            object_junk.requires((&self.object_spec(),)),
        ensures
            exists|b: bool|
                call_ensures(object_junk, (&self.object_spec(),), b) && r == (b || (weak_count == 0
                    && !self.persistent_spec())),
    {
        let done = object_junk(&self.object);
        if done {
            true
        } else {
            is_junk(self.persistent, weak_count)
        }
    }

    /// Whether the package is finished: [`Self::junk_with`] the number of weak
    /// handles to it now.
    pub fn junk<F>(this: Arc<Self>, object_junk: F) -> (r: bool) where F: FnOnce(&O) -> bool
        requires
            object_junk.requires((&this.object_spec(),)),
        ensures
            exists|b: bool|
                call_ensures(object_junk, (&this.object_spec(),), b) && (b ==> r) && (!b
                    && this.persistent_spec() ==> !r),
    {
        let watchers = arc_weak_count(&this);
        this.junk_with(watchers, object_junk)
    }
}

/// A finished package is never run: nobody watches it and it is not
/// persistent, so it does not want to run.
pub proof fn lemma_junk_never_runs(persistent: bool, weak_count: usize)
    requires
        weak_count == 0 && !persistent,
    ensures
        !(persistent || weak_count > 1),
{
}

/// A persistent package always runs and is never finished, whatever the
/// handle counts.
pub proof fn lemma_persistent_runs(persistent: bool, weak_count: usize)
    requires
        persistent,
    ensures
        persistent || weak_count > 1,
        !(weak_count == 0 && !persistent),
{
}

} // verus!
