//! `TickerDebugWatcher`: watches a lock and reports when it is poisoned.

use crate::package::TickerBox;
use std::sync::Arc;
use std::sync::Mutex;
use std::sync::RwLock;
use vstd::prelude::*;

verus! {

/// A reader-writer lock.
#[verifier::external_type_specification]
#[verifier::external_body]
#[verifier::reject_recursive_types(T)]
pub struct ExRwLock<T: ?Sized>(RwLock<T>);

/// Calls `Mutex::is_poisoned`.  Nothing is claimed of the result: any holder
/// of the lock may poison it.
#[verifier::external_body]
fn mutex_is_poisoned<T: ?Sized>(m: &Mutex<T>) -> bool {
    m.is_poisoned()
}

/// Calls `RwLock::is_poisoned`.  Nothing is claimed of the result: any holder
/// of the lock may poison it.
#[verifier::external_body]
fn rwlock_is_poisoned<T: ?Sized>(m: &RwLock<T>) -> bool {
    m.is_poisoned()
}

/// The lock a watcher watches.
#[verifier::reject_recursive_types(T)]
#[derive(Debug)]
pub enum WatcherType<T: ?Sized> {
    Mutex(Arc<Mutex<T>>),
    RwLock(Arc<RwLock<T>>),
}

/// Watches a lock, every `watch_speed` ticks, under a name used in reports.
#[verifier::reject_recursive_types(T)]
#[derive(Debug)]
pub struct TickerDebugWatcher<T: ?Sized> {
    target: WatcherType<T>,
    watch_speed: u32,
    name: String,
}

impl<T: ?Sized> TickerDebugWatcher<T> {
    /// The lock watched.
    pub closed spec fn target_spec(&self) -> WatcherType<T> {
        self.target
    }

    /// How many ticks pass between two looks.
    pub closed spec fn watch_speed_spec(&self) -> u32 {
        self.watch_speed
    }

    /// The name used in reports.
    pub closed spec fn name_spec(&self) -> Seq<char> {
        self.name@
    }

    /// A watcher of the mutex `target`.
    pub fn new_mutex(target: Arc<Mutex<T>>, speed: u32, name: String) -> (r: Self)
        ensures
            r.target_spec() == WatcherType::Mutex(target),
            r.watch_speed_spec() == speed,
            r.name_spec() == name@,
    {
        TickerDebugWatcher { target: WatcherType::Mutex(target), watch_speed: speed, name }
    }

    /// A watcher of the reader-writer lock `target`.
    pub fn new_rwlock(target: Arc<RwLock<T>>, speed: u32, name: String) -> (r: Self)
        ensures
            r.target_spec() == WatcherType::RwLock(target),
            r.watch_speed_spec() == speed,
            r.name_spec() == name@,
    {
        TickerDebugWatcher { target: WatcherType::RwLock(target), watch_speed: speed, name }
    }

    /// How many ticks pass between two looks.
    pub fn watch_speed(&self) -> (r: u32)
        ensures
            r == self.watch_speed_spec(),
    {
        self.watch_speed
    }

    /// The name used in reports.
    pub fn name(&self) -> (r: &String)
        ensures
            r@ == self.name_spec(),
    {
        &self.name
    }

    /// The report printed when the lock is found poisoned: the name followed
    /// by `" are poisoned!"`.
    pub fn report(&self) -> (r: String)
        ensures
            r@ == self.name_spec() + " are poisoned!"@,
    {
        self.name.clone().concat(" are poisoned!")
    }

    /// What a look reports given whether the lock is `poisoned`: the report
    /// when it is, nothing when it is not.
    pub fn report_if(&self, poisoned: bool) -> (r: Option<String>)
        ensures
            r is Some <==> poisoned,
            r matches Some(msg) ==> msg@ == self.name_spec() + " are poisoned!"@,
    {
        if poisoned {
            Some(self.report())
        } else {
            None
        }
    }

    /// One look at the lock: [`Self::report_if`] of whether it is poisoned
    /// now.
    pub fn look(&self) -> (r: Option<String>)
        ensures
            r matches Some(msg) ==> msg@ == self.name_spec() + " are poisoned!"@,
    {
        let poisoned = match &self.target {
            WatcherType::Mutex(m) => mutex_is_poisoned(&**m),
            WatcherType::RwLock(m) => rwlock_is_poisoned(&**m),
        };
        self.report_if(poisoned)
    }

    /// The package that schedules the next look, running `object`: it waits
    /// the watcher's pace, runs even when nobody watches it, and goes to a
    /// worker of `category`.
    pub fn next_package<O>(&self, object: O, category: usize) -> (r: TickerBox<O>)
        ensures
            r.object_spec() == object,
            r.delay_spec() == self.watch_speed_spec(),
            r.persistent_spec(),
            r.category_spec() == category,
    {
        TickerBox::new(object, self.watch_speed, true, category)
    }

    /// A second watcher of the same lock, at the same pace, under the same
    /// name.
    pub fn duplicate(&self) -> (r: Self)
        ensures
            r.target_spec() == self.target_spec(),
            r.watch_speed_spec() == self.watch_speed_spec(),
            r.name_spec() == self.name_spec(),
    {
        let target = match &self.target {
            WatcherType::Mutex(m) => WatcherType::Mutex(m.clone()),
            WatcherType::RwLock(m) => WatcherType::RwLock(m.clone()),
        };
        TickerDebugWatcher { target, watch_speed: self.watch_speed, name: self.name.clone() }
    }
}

impl<T: ?Sized> Clone for TickerDebugWatcher<T> {
    fn clone(&self) -> (r: Self)
        ensures
            r.target_spec() == self.target_spec(),
            r.watch_speed_spec() == self.watch_speed_spec(),
            r.name_spec() == self.name_spec(),
    {
        self.duplicate()
    }
}

} // verus!
