use std::cell::Cell;
use std::sync::Arc;
use std::sync::Mutex;
use ticker::objects::call_if_taken;
use ticker::objects::TickerCaller;
use ticker::objects::TickerOpener;
use ticker::objects::TickerRepeatCaller;
use ticker::objects::TickerRepeatOpener;
use ticker::package::is_junk;
use ticker::package::wants_run;
use ticker::package::TickerBox;
use ticker::package::TickerEternal;

#[test]
fn run_and_junk_decisions() {
    assert!(wants_run(true, 0));
    assert!(wants_run(false, 2));
    assert!(!wants_run(false, 1));
    assert!(!wants_run(false, 0));
    assert!(is_junk(false, 0));
    assert!(!is_junk(true, 0));
    assert!(!is_junk(false, 1));
}

#[test]
fn box_fields() {
    let b = TickerBox::new("obj", 5, true, 3);
    assert_eq!(b.delay(), 5);
    assert_eq!(b.request(), 0);
    assert!(b.persistent());
    assert_eq!(b.category(), 3);
    assert!(!b.is_failure());
    b.set_request(9);
    assert_eq!(b.request(), 9);
}

#[test]
fn box_runs_when_persistent_and_unshared() {
    let ran = Cell::new(0);
    let b = Arc::new(TickerBox::new(7u32, 1, true, 0));
    assert!(TickerBox::call(b, |o: u32| ran.set(o)));
    assert_eq!(ran.get(), 7);
}

#[test]
fn box_unwatched_is_skipped() {
    let ran = Cell::new(0);
    let b = Arc::new(TickerBox::new(7u32, 1, false, 0));
    assert!(TickerBox::call(b, |o: u32| ran.set(o)));
    assert_eq!(ran.get(), 0);
}

#[test]
fn box_watched_runs() {
    let ran = Cell::new(0);
    let b = Arc::new(TickerBox::new(7u32, 1, false, 0));
    let w1 = Arc::downgrade(&b);
    let w2 = Arc::downgrade(&b);
    assert!(TickerBox::call(b, |o: u32| ran.set(o)));
    assert_eq!(ran.get(), 7);
    assert!(w1.upgrade().is_none());
    drop(w2);
}

#[test]
fn box_shared_fails_and_flags() {
    let ran = Cell::new(0);
    let b = Arc::new(TickerBox::new(7u32, 1, true, 0));
    let other = b.clone();
    assert!(!TickerBox::call(b, |o: u32| ran.set(o)));
    assert_eq!(ran.get(), 0);
    assert!(other.is_failure());
}

#[test]
fn box_junk_by_watchers() {
    let b = Arc::new(TickerBox::new(1u8, 0, false, 0));
    assert!(TickerBox::junk(b.clone()));
    let w = Arc::downgrade(&b);
    assert!(!TickerBox::junk(b.clone()));
    drop(w);
    let p = Arc::new(TickerBox::new(1u8, 0, true, 0));
    assert!(!TickerBox::junk(p));
}

#[test]
fn eternal_fields_and_calls() {
    let e = TickerEternal::new(4u32, true, 2);
    assert!(e.persistent());
    assert_eq!(e.request(), 0);
    assert_eq!(e.delay(), 0);
    e.set_request(5);
    assert_eq!(e.request(), 0);
    assert!(!e.is_failure());
    assert_eq!(e.category(), 2);
    let ran = Cell::new(0);
    let e = Arc::new(e);
    assert!(TickerEternal::call(e.clone(), |o: &u32| ran.set(ran.get() + *o)));
    assert!(TickerEternal::call(e.clone(), |o: &u32| ran.set(ran.get() + *o)));
    assert_eq!(ran.get(), 8);
    assert!(!TickerEternal::junk(e.clone(), |_o: &u32| false));
    assert!(TickerEternal::junk(e, |_o: &u32| true));
}

#[test]
fn eternal_unwatched_does_not_repeat_and_is_junk() {
    let ran = Cell::new(0);
    let e = Arc::new(TickerEternal::new(4u32, false, 0));
    assert!(TickerEternal::call(e.clone(), |o: &u32| ran.set(*o)));
    assert_eq!(ran.get(), 0);
    assert!(TickerEternal::junk(e, |_o: &u32| false));
}

#[test]
fn caller_calls_once() {
    let got = Cell::new(0);
    let f = |x: (u32, u32)| got.set(x.0 + x.1);
    let c = TickerCaller::new(f, (2, 3));
    assert!(c.junk());
    c.repeat();
    assert_eq!(got.get(), 0);
    TickerCaller::call(c);
    assert_eq!(got.get(), 5);
}

#[test]
fn opener_calls_only_with_lock() {
    let got = Cell::new(0);
    let f = |x: u32| got.set(got.get() + x);
    let lock = Arc::new(Mutex::new(0u8));
    let o = TickerOpener::new(f, 4, lock.clone());
    assert!(o.junk());
    TickerOpener::call(o);
    assert_eq!(got.get(), 4);
    let held = Arc::new(Mutex::new(0u8));
    let o = TickerOpener::new(f, 5, held.clone());
    TickerOpener::call(o);
    assert_eq!(got.get(), 9);
}

#[test]
fn repeat_caller_calls_every_time() {
    let got = Cell::new(0);
    let f = |x: u32| got.set(got.get() + x);
    let c = TickerRepeatCaller::new(f, 3);
    assert!(!c.junk());
    c.repeat();
    c.repeat();
    TickerRepeatCaller::call(c);
    assert_eq!(got.get(), 9);
}

#[test]
fn repeat_opener_calls_when_lock_free() {
    let got = Cell::new(0);
    let f = |x: u32| got.set(got.get() + x);
    let lock = Arc::new(Mutex::new(()));
    let o = TickerRepeatOpener::new(f, 2, lock.clone());
    assert!(!o.junk());
    o.repeat();
    o.repeat();
    TickerRepeatOpener::call(o);
    assert_eq!(got.get(), 6);
}

#[test]
fn box_request_is_shared_by_handles() {
    let b = Arc::new(TickerBox::new(1u8, 3, false, 0));
    let other = b.clone();
    b.set_request(42);
    assert_eq!(other.request(), 42);
}

#[test]
fn box_call_with_counts() {
    let ran = Cell::new(0);
    let b = Arc::new(TickerBox::new(7u32, 1, false, 0));
    assert!(TickerBox::call_with(b, 1, |o: u32| ran.set(o)));
    assert_eq!(ran.get(), 0);
    let b = Arc::new(TickerBox::new(7u32, 1, false, 0));
    assert!(TickerBox::call_with(b, 2, |o: u32| ran.set(o)));
    assert_eq!(ran.get(), 7);
    let b = Arc::new(TickerBox::new(8u32, 1, false, 0));
    let other = b.clone();
    assert!(!TickerBox::call_with(b, 2, |o: u32| ran.set(o)));
    assert_eq!(ran.get(), 7);
    assert!(other.is_failure());
    assert_eq!(other.delay(), 1);
    assert!(!other.persistent());
}

#[test]
fn box_finish_call_outcomes() {
    let ran = Cell::new(0);
    assert!(TickerBox::finish_call(Ok(TickerBox::new(5u32, 0, true, 0)), |o: u32| ran.set(o)));
    assert_eq!(ran.get(), 5);
    let shared = Arc::new(TickerBox::new(6u32, 0, true, 0));
    assert!(!TickerBox::finish_call(Err(shared.clone()), |o: u32| ran.set(o)));
    assert_eq!(ran.get(), 5);
    assert!(shared.is_failure());
}

#[test]
fn eternal_call_with_counts() {
    let ran = Cell::new(0);
    let e = TickerEternal::new(3u32, false, 0);
    assert!(e.call_with(1, |o: &u32| ran.set(ran.get() + *o)));
    assert_eq!(ran.get(), 0);
    assert!(e.call_with(2, |o: &u32| ran.set(ran.get() + *o)));
    assert_eq!(ran.get(), 3);
}

#[test]
fn call_if_taken_calls_only_when_taken() {
    let got = Cell::new(0);
    let f = |x: u32| got.set(got.get() + x);
    call_if_taken(&f, 4, false);
    assert_eq!(got.get(), 0);
    call_if_taken(&f, 4, true);
    assert_eq!(got.get(), 4);
}

#[test]
fn opener_skips_a_held_lock() {
    let got = Cell::new(0);
    let f = |x: u32| got.set(got.get() + x);
    let lock = Arc::new(Mutex::new(0u8));
    let guard = lock.lock().unwrap();
    let o = TickerOpener::new(f, 4, lock.clone());
    TickerOpener::call(o);
    let r = TickerRepeatOpener::new(f, 2, lock.clone());
    r.repeat();
    assert_eq!(got.get(), 0);
    drop(guard);
    r.repeat();
    assert_eq!(got.get(), 2);
}
