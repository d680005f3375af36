//! Runnable objects: a function with the arguments to call it with, and
//! optionally a lock that must be free for the call to happen.
//!
//! The callers run once (`call`); the repeating callers can also run again and
//! again (`repeat`) and never report themselves finished.

use std::sync::Arc;
use std::sync::Mutex;
use std::sync::MutexGuard;
use vstd::prelude::*;

verus! {

/// A mutual-exclusion lock.
#[verifier::external_type_specification]
#[verifier::external_body]
#[verifier::reject_recursive_types(T)]
pub struct ExMutex<T: ?Sized>(Mutex<T>);

/// The guard of a held lock; the lock is released when it is dropped.
#[verifier::external_type_specification]
#[verifier::external_body]
#[verifier::reject_recursive_types(T)]
pub struct ExMutexGuard<'a, T: ?Sized + 'a>(MutexGuard<'a, T>);

/// Calls `Mutex::try_lock`, keeping the guard if the lock was free and not
/// poisoned.  It never waits: a lock held elsewhere, by this thread or another,
/// gives nothing back.  Nothing is claimed of the result: it depends on the
/// other holders of the lock.
#[verifier::external_body]
pub(crate) fn lock_guard<T: ?Sized>(m: &Mutex<T>) -> Option<MutexGuard<'_, T>> {
    m.try_lock().ok()
}

/// Calls `function` with `args` if `taken` (the lock it depends on was taken),
/// and does nothing otherwise.
pub fn call_if_taken<Args, F: Fn(Args)>(function: &F, args: Args, taken: bool)
    requires
        taken ==> function.requires((args,)),
    ensures
        taken ==> call_ensures(*function, (args,), ()),
{
    if taken {
        function(args);
    }
}

/// A function and the arguments it is to be called with, once.
#[derive(Debug)]
pub struct TickerCaller<Args, F> {
    function: F,
    args: Args,
}

impl<Args, F: Fn(Args)> TickerCaller<Args, F> {
    /// The function.
    pub closed spec fn function_spec(&self) -> F {
        self.function
    }

    /// The arguments.
    pub closed spec fn args_spec(&self) -> Args {
        self.args
    }

    /// A boxed caller of `function` with `args`.
    pub fn new(function: F, args: Args) -> (r: Box<Self>)
        ensures
            r.function_spec() == function,
            r.args_spec() == args,
    {
        Box::new(TickerCaller { function, args })
    }

    /// Calls the function with the arguments.
    pub fn call(this: Box<Self>)
        requires
            this.function_spec().requires((this.args_spec(),)),
        ensures
            call_ensures(this.function_spec(), (this.args_spec(),), ()),
    {
        let TickerCaller { function, args } = *this;
        function(args);
    }

    /// Does nothing: a caller runs only once.
    pub fn repeat(&self) {
    }

    /// Always `true`: once run, a caller is finished.
    pub fn junk(&self) -> (r: bool)
        ensures
            r,
    {
        true
    }
}

/// A function and its arguments, to be called once while the lock on `object`
/// is held.
#[derive(Debug)]
#[verifier::reject_recursive_types(T)]
pub struct TickerOpener<Args, T: ?Sized, F> {
    function: F,
    args: Args,
    object: Arc<Mutex<T>>,
}

impl<Args, T: ?Sized, F: Fn(Args)> TickerOpener<Args, T, F> {
    /// The function.
    pub closed spec fn function_spec(&self) -> F {
        self.function
    }

    /// The arguments.
    pub closed spec fn args_spec(&self) -> Args {
        self.args
    }

    /// The lock that must be taken for the call.
    pub closed spec fn object_spec(&self) -> Arc<Mutex<T>> {
        self.object
    }

    /// A boxed opener of `object` calling `function` with `args`.
    pub fn new(function: F, args: Args, object: Arc<Mutex<T>>) -> (r: Box<Self>)
        ensures
            r.function_spec() == function,
            r.args_spec() == args,
            r.object_spec() == object,
    {
        Box::new(TickerOpener { function, args, object })
    }

    /// Tries the lock and, if it is taken, calls the function with the
    /// arguments while holding it ([`call_if_taken`]).  Nothing is called when
    /// the lock is poisoned or held elsewhere.
    pub fn call(this: Box<Self>)
        requires
            this.function_spec().requires((this.args_spec(),)),
    {
        let TickerOpener { function, args, object } = *this;
        let guard = lock_guard(&*object);
        call_if_taken(&function, args, guard.is_some());
    }

    /// Does nothing: an opener runs only once.
    pub fn repeat(&self) {
    }

    /// Always `true`: once run, an opener is finished.
    pub fn junk(&self) -> (r: bool)
        ensures
            r,
    {
        true
    }
}

/// A function and the arguments it is to be called with, again and again.
#[derive(Debug)]
pub struct TickerRepeatCaller<Args: Copy, F> {
    function: F,
    args: Args,
}

impl<Args: Copy, F: Fn(Args)> TickerRepeatCaller<Args, F> {
    /// The function.
    pub closed spec fn function_spec(&self) -> F {
        self.function
    }

    /// The arguments.
    pub closed spec fn args_spec(&self) -> Args {
        self.args
    }

    /// A boxed repeating caller of `function` with `args`.
    pub fn new(function: F, args: Args) -> (r: Box<Self>)
        ensures
            r.function_spec() == function,
            r.args_spec() == args,
    {
        Box::new(TickerRepeatCaller { function, args })
    }

    /// Calls the function with the arguments.
    pub fn call(this: Box<Self>)
        requires
            this.function_spec().requires((this.args_spec(),)),
        ensures
            call_ensures(this.function_spec(), (this.args_spec(),), ()),
    {
        (this.function)(this.args);
    }

    /// Calls the function with the arguments again.
    pub fn repeat(&self)
        requires
            self.function_spec().requires((self.args_spec(),)),
        ensures
            call_ensures(self.function_spec(), (self.args_spec(),), ()),
    {
        (self.function)(self.args);
    }

    /// Always `false`: a repeating caller is never finished.
    pub fn junk(&self) -> (r: bool)
        ensures
            !r,
    {
        false
    }
}

/// A function and its arguments, to be called again and again, each time only
/// if the lock on `object` can be taken.
#[derive(Debug)]
#[verifier::reject_recursive_types(T)]
pub struct TickerRepeatOpener<Args: Copy, T: ?Sized, F> {
    function: F,
    args: Args,
    object: Arc<Mutex<T>>,
}

impl<Args: Copy, T: ?Sized, F: Fn(Args)> TickerRepeatOpener<Args, T, F> {
    /// The function.
    pub closed spec fn function_spec(&self) -> F {
        self.function
    }

    /// The arguments.
    pub closed spec fn args_spec(&self) -> Args {
        self.args
    }

    /// The lock that is tried before each call.
    pub closed spec fn object_spec(&self) -> Arc<Mutex<T>> {
        self.object
    }

    /// A boxed repeating opener of `object` calling `function` with `args`.
    pub fn new(function: F, args: Args, object: Arc<Mutex<T>>) -> (r: Box<Self>)
        ensures
            r.function_spec() == function,
            r.args_spec() == args,
            r.object_spec() == object,
    {
        Box::new(TickerRepeatOpener { function, args, object })
    }

    /// Calls the function with the arguments if the lock can be taken (it is
    /// released again before the call; nothing is called when it is poisoned
    /// or held elsewhere).
    pub fn call(this: Box<Self>)
        requires
            this.function_spec().requires((this.args_spec(),)),
    {
        this.repeat();
    }

    /// Calls the function with the arguments again if the lock can be taken
    /// (it is released again before the call; nothing is called when it is
    /// poisoned or held elsewhere): [`call_if_taken`].
    pub fn repeat(&self)
        requires
            self.function_spec().requires((self.args_spec(),)),
    {
        let taken = lock_guard(&*self.object).is_some();
        call_if_taken(&self.function, self.args, taken);
    }

    /// Always `false`: a repeating opener is never finished.
    pub fn junk(&self) -> (r: bool)
        ensures
            !r,
    {
        false
    }
}

} // verus!
