use std::cell::RefCell;
use ticker::repeater::TickerRepeater;
use ticker::repeater::TickerRepeaterAlt;
use ticker::repeater::REPEATER_JUNK;

#[test]
fn repeater_runs_every_event_every_tick() {
    let mut t: TickerRepeater<u32, u32> = TickerRepeater::new(1000, false);
    t.add_event(1);
    t.add_event(2);
    t.add_event(3);
    assert_eq!(t.get_sum_of_events(), 3);
    let fired = RefCell::new(Vec::new());
    for _ in 0..2 {
        t.tick(|e: &u32| *e * 10, |e: &u32| {
            fired.borrow_mut().push(*e);
            true
        }, |_e: &u32| true);
    }
    assert_eq!(fired.into_inner(), vec![1, 2, 3, 1, 2, 3]);
    assert_eq!(t.get_tick(), (0, 2));
    assert_eq!(t.get_sum_of_events(), 3);
    assert_eq!(t.get_savestate_items().clone(), vec![10, 20, 30]);
    assert_eq!(t.get_savestate_index(), 3);
    assert!(!t.get_savestate());
}

#[test]
fn repeater_sweeps_junk_every_hundred_thousand_ticks() {
    let mut t: TickerRepeater<u32, u32> = TickerRepeater::new(1000, false);
    t.add_event(1);
    t.add_event(2);
    t.add_event(3);
    t.set_tick(0, REPEATER_JUNK - 2);
    t.tick(|e: &u32| *e, |_e: &u32| true, |e: &u32| *e == 2);
    assert_eq!(t.get_sum_of_events(), 3);
    t.tick(|e: &u32| *e, |_e: &u32| true, |e: &u32| *e == 2);
    assert_eq!(t.get_tick(), (0, REPEATER_JUNK));
    assert_eq!(t.get_sum_of_events(), 2);
    let fired = RefCell::new(Vec::new());
    t.tick(|e: &u32| *e, |e: &u32| {
        fired.borrow_mut().push(*e);
        true
    }, |_e: &u32| false);
    assert_eq!(fired.into_inner(), vec![1, 3]);
}

#[test]
fn repeater_counts_cycle_on_wrap() {
    let mut t: TickerRepeater<u32, u32> = TickerRepeater::new(1000, false);
    t.set_tick(4, u32::MAX);
    t.tick(|e: &u32| *e, |_e: &u32| true, |_e: &u32| false);
    assert_eq!(t.get_tick(), (5, 0));
}

#[test]
fn repeater_clear_poison_replaces_events() {
    let mut t: TickerRepeater<u32, u32> = TickerRepeater::new(1000, false);
    t.add_event(1);
    t.add_event(2);
    t.add_event(3);
    t.tick(|e: &u32| *e, |_e: &u32| true, |_e: &u32| false);
    t.add_event(4);
    t.clear_poison(|w: u32| if w == 2 { None } else { Some(w + 10) });
    assert!(t.get_savestate_items().is_empty());
    let fired = RefCell::new(Vec::new());
    t.tick(|e: &u32| *e, |e: &u32| {
        fired.borrow_mut().push(*e);
        true
    }, |_e: &u32| false);
    assert_eq!(fired.into_inner(), vec![11, 13]);
}

#[test]
fn repeater_alt_drops_junk_right_after_running() {
    let mut t: TickerRepeaterAlt<u32, u32> = TickerRepeaterAlt::new(1000, false);
    t.add_event(1);
    t.add_event(2);
    t.add_event(3);
    let fired = RefCell::new(Vec::new());
    t.tick(|e: &u32| *e, |e: &u32| {
        fired.borrow_mut().push(*e);
        true
    }, |e: &u32| *e != 2);
    assert_eq!(fired.into_inner(), vec![1, 2, 3]);
    assert_eq!(t.get_sum_of_events(), 1);
    assert_eq!(t.get_savestate_items().clone(), vec![1, 2, 3]);
    assert_eq!(t.get_tick(), (0, 1));
}

#[test]
fn repeater_alt_counts_cycle_on_wrap() {
    let mut t: TickerRepeaterAlt<u32, u32> = TickerRepeaterAlt::new(1000, true);
    assert!(t.get_autorun());
    t.start();
    assert!(!t.get_autorun());
    t.set_tick(0, u32::MAX);
    t.tick(|e: &u32| *e, |_e: &u32| true, |_e: &u32| false);
    assert_eq!(t.get_tick(), (1, 0));
    t.set_speed(99, true);
    assert_eq!(t.get_speed(), 99);
}

#[test]
fn repeater_can_tick_guards_cycle_overflow() {
    let mut t: TickerRepeater<u32, u32> = TickerRepeater::new(1000, false);
    assert!(t.can_tick());
    t.set_tick(u64::MAX, u32::MAX);
    assert!(!t.can_tick());
    t.set_tick(u64::MAX, 3);
    assert!(t.can_tick());
    let mut a: TickerRepeaterAlt<u32, u32> = TickerRepeaterAlt::new(1000, false);
    a.set_tick(u64::MAX, u32::MAX);
    assert!(!a.can_tick());
}
