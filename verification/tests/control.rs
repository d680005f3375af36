use std::cell::RefCell;
use std::collections::HashSet;
use std::sync::Arc;
use std::sync::Mutex;
use std::sync::RwLock;
use ticker::controller::TickerController;
use ticker::controller::TickerControllerAccess;
use ticker::controller::TICKER_SIZE;
use ticker::watcher::TickerDebugWatcher;

#[test]
fn controller_new_is_empty() {
    let c: TickerController<String> = TickerController::new(60);
    assert_eq!(c.get_full_tick(), (0, 0));
    assert_eq!(c.speed(), 60);
    for cat in 0..TICKER_SIZE {
        assert!(c.workers_of(cat).is_empty());
        assert_eq!(c.choose_worker(cat), None);
    }
}

#[test]
fn controller_ticks_and_cycles() {
    let mut c: TickerController<u8> = TickerController::new(1);
    c.advance();
    assert_eq!(c.get_tick(), 1);
    c.set_tick(u32::MAX, 6);
    c.advance();
    assert_eq!(c.get_tick(), 0);
    assert_eq!(c.get_cycle(), 7);
}

#[test]
fn controller_workers_by_category() {
    let mut c: TickerController<String> = TickerController::new(10);
    assert_eq!(c.insert_worker(3, 11, "a".to_string()), None);
    assert_eq!(c.insert_worker(3, 12, "b".to_string()), None);
    assert_eq!(c.insert_worker(3, 11, "c".to_string()), Some("a".to_string()));
    assert_eq!(c.workers_of(3).len(), 2);
    assert!(c.workers_of(4).is_empty());
    assert_eq!(c.remove_worker(3, 12), Some("b".to_string()));
    assert_eq!(c.remove_worker(3, 12), None);
    assert_eq!(c.choose_worker(3), Some(11));
}

#[test]
fn controller_end_turn_reaps_then_advances() {
    let mut c: TickerController<String> = TickerController::new(10);
    c.insert_worker(1, 5, "five".to_string());
    c.insert_worker(2, 6, "six".to_string());
    c.insert_worker(2, 7, "seven".to_string());
    c.set_tick(u32::MAX, 2);
    let reaped = c.end_turn(&vec![(2, 6), (1, 9), (2, 6), (1, 5)]);
    assert_eq!(reaped, vec![Some("six".to_string()), None, None, Some("five".to_string())]);
    assert!(c.workers_of(1).is_empty());
    assert_eq!(c.workers_of(2).len(), 1);
    assert_eq!(c.workers_of(2).get(&7), Some(&"seven".to_string()));
    assert_eq!(c.get_full_tick(), (3, 0));
    assert_eq!(c.end_turn(&Vec::new()), Vec::<Option<String>>::new());
    assert_eq!(c.get_full_tick(), (3, 1));
}

#[test]
fn controller_picks_among_workers() {
    let mut c: TickerController<u32> = TickerController::new(10);
    c.insert_worker(0, 1, 100);
    c.insert_worker(0, 2, 200);
    c.insert_worker(0, 3, 300);
    let mut seen = HashSet::new();
    for _ in 0..200 {
        let id = c.choose_worker(0).unwrap();
        assert!((1..=3).contains(&id));
        seen.insert(id);
    }
    assert!(seen.len() >= 2);
}

#[test]
fn controller_add_task_delivers_to_picked_worker() {
    let mut c: TickerController<u32> = TickerController::new(10);
    c.insert_worker(5, 9, 900);
    let got = RefCell::new(Vec::new());
    let picked = c.add_task(5, "job", |w: &u32, t: &str| got.borrow_mut().push((*w, t.to_string())));
    assert_eq!(picked, Some(9));
    assert_eq!(got.into_inner(), vec![(900, "job".to_string())]);
    let none = c.add_task(6, "lost", |_w: &u32, _t: &str| panic!("no worker"));
    assert_eq!(none, None);
}

#[test]
fn access_publishes() {
    let mut a = TickerControllerAccess::new(5u8, 1, 2);
    assert_eq!(a.tick(), 1);
    assert_eq!(a.cycle(), 2);
    a.publish(10, 20);
    assert_eq!((a.tick(), a.cycle()), (10, 20));
    assert_eq!(*a.controller(), 5);
}

#[test]
fn watcher_reports_poison() {
    let lock = Arc::new(Mutex::new(0u32));
    let w = TickerDebugWatcher::new_mutex(lock.clone(), 30, "counter".to_string());
    assert_eq!(w.watch_speed(), 30);
    assert_eq!(w.name(), "counter");
    assert_eq!(w.look(), None);
    assert_eq!(w.report(), "counter are poisoned!".to_string());
    let copy = w.clone();
    assert_eq!(copy.look(), None);
    assert_eq!(copy.report(), "counter are poisoned!".to_string());
}

#[test]
fn watcher_on_rwlock() {
    let lock = Arc::new(RwLock::new(0u32));
    let w = TickerDebugWatcher::new_rwlock(lock, 5, "table".to_string());
    assert_eq!(w.look(), None);
    assert_eq!(w.duplicate().watch_speed(), 5);
}

#[test]
fn watcher_report_if_and_next_package() {
    let lock = Arc::new(Mutex::new(0u32));
    let w = TickerDebugWatcher::new_mutex(lock, 12, "queue".to_string());
    assert_eq!(w.report_if(false), None);
    assert_eq!(w.report_if(true), Some("queue are poisoned!".to_string()));
    let p = w.next_package("obj", 4);
    assert_eq!(p.delay(), 12);
    assert!(p.persistent());
    assert_eq!(p.category(), 4);
}
