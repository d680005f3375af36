use std::cell::RefCell;
use ticker::basic::wrapping_add_u32;
use ticker::basic::TickerBasic;
use ticker::basic::TickerEvent;

fn no_stamp(_e: &u32, _request: u32) {}

fn run(t: &mut TickerBasic<u32, u32>) -> Vec<u32> {
    let fired = RefCell::new(Vec::new());
    t.tick(|e: &u32| *e + 100, |e: u32| {
        fired.borrow_mut().push(e);
        true
    });
    fired.into_inner()
}

#[test]
fn wrapping_add_wraps() {
    assert_eq!(wrapping_add_u32(1, 2), 3);
    assert_eq!(wrapping_add_u32(u32::MAX, 1), 0);
    assert_eq!(wrapping_add_u32(u32::MAX, 5), 4);
    assert_eq!(wrapping_add_u32(u32::MAX, u32::MAX), u32::MAX - 1);
}

#[test]
fn basic_new_is_empty() {
    let t: TickerBasic<u32, u32> = TickerBasic::new(1000, true);
    assert_eq!(t.get_tick(), (0, 0));
    assert_eq!(t.get_sum_of_events(), 0);
    assert!(t.get_autorun());
    assert!(!t.get_savestate());
    assert_eq!(t.get_savestate_index(), 0);
    assert_eq!(t.get_speed(), 1_000_000);
}

#[test]
fn basic_event_fires_after_its_delay() {
    let mut t: TickerBasic<u32, u32> = TickerBasic::new(1000, false);
    assert_eq!(t.add_event(7, 2, no_stamp), 0);
    assert_eq!(t.add_event(8, 0, no_stamp), 0);
    assert_eq!(t.get_sum_of_events(), 2);
    assert_eq!(run(&mut t), vec![8]);
    assert_eq!(t.get_sum_of_events(), 1);
    assert_eq!(run(&mut t), Vec::<u32>::new());
    assert_eq!(run(&mut t), vec![7]);
    assert_eq!(t.get_tick(), (0, 3));
    assert_eq!(t.get_sum_of_events(), 0);
    assert_eq!(run(&mut t), Vec::<u32>::new());
}

#[test]
fn basic_events_due_together_fire_in_order() {
    let mut t: TickerBasic<u32, u32> = TickerBasic::new(1000, false);
    t.add_event(1, 1, no_stamp);
    t.add_event(2, 1, no_stamp);
    t.add_event(3, 1, no_stamp);
    run(&mut t);
    assert_eq!(run(&mut t), vec![1, 2, 3]);
    let saved: Vec<Option<u32>> = t.get_savestate_items().clone();
    assert_eq!(saved, vec![Some(101), Some(102), Some(103)]);
    assert_eq!(t.get_savestate_index(), 3);
    assert!(!t.get_savestate());
}

#[test]
fn basic_request_is_current_tick() {
    let mut t: TickerBasic<u32, u32> = TickerBasic::new(1000, false);
    t.set_tick(0, 41);
    assert_eq!(t.add_event(5, 1, no_stamp), 41);
}

#[test]
fn basic_delay_wraps_around_the_tick_counter() {
    let mut t: TickerBasic<u32, u32> = TickerBasic::new(1000, false);
    t.set_tick(0, u32::MAX);
    t.add_event(9, 2, no_stamp);
    assert_eq!(run(&mut t), Vec::<u32>::new());
    assert_eq!(t.get_tick(), (0, 0));
    assert_eq!(run(&mut t), Vec::<u32>::new());
    assert_eq!(run(&mut t), vec![9]);
}

#[test]
fn basic_cycle_markers_count_turns() {
    let mut t: TickerBasic<u32, u32> = TickerBasic::new(1000, false);
    t.cycle_adder();
    assert_eq!(t.get_sum_of_events(), 1);
    t.set_tick(0, u32::MAX);
    run(&mut t);
    assert_eq!(t.get_tick(), (1, 0));
    assert_eq!(t.get_sum_of_events(), 1);
    let saved: Vec<Option<u32>> = t.get_savestate_items().clone();
    assert_eq!(saved, vec![None]);
    run(&mut t);
    assert_eq!(t.get_tick(), (1, 1));
    assert_eq!(t.get_sum_of_events(), 1);
    t.set_tick(1, u32::MAX);
    run(&mut t);
    assert_eq!(t.get_tick(), (2, 0));
}

#[test]
fn basic_clear_poison_reschedules_revived_events() {
    let mut t: TickerBasic<u32, u32> = TickerBasic::new(1000, false);
    t.add_event(1, 0, no_stamp);
    t.add_event(2, 0, no_stamp);
    t.cycle_adder();
    t.set_tick(0, 0);
    assert_eq!(run(&mut t), vec![1, 2]);
    t.add_event(5, 0, no_stamp);
    t.clear_poison(|w: u32| if w == 102 { Some(w - 100) } else { None });
    assert!(t.get_savestate_items().is_empty());
    assert_eq!(run(&mut t), vec![5]);
    assert_eq!(run(&mut t), vec![2]);
}

#[test]
fn basic_stop_start_and_speed() {
    let mut t: TickerBasic<u32, u32> = TickerBasic::new(10, true);
    t.start();
    assert!(!t.get_autorun());
    t.stop();
    assert!(t.get_autorun());
    t.set_speed(777, false);
    assert_eq!(t.get_speed(), 777);
    t.set_speed(555, true);
    assert_eq!(t.get_speed(), 555);
}

#[test]
fn basic_event_enum_holds_payload() {
    let e: TickerEvent<u8> = TickerEvent::Task(3);
    match e {
        TickerEvent::Task(x) => assert_eq!(x, 3),
        TickerEvent::Cycler { .. } => panic!("not a marker"),
    }
}

#[test]
fn basic_can_tick_and_counts() {
    let mut t: TickerBasic<u32, u32> = TickerBasic::new(1000, false);
    assert!(t.can_tick());
    assert_eq!(t.try_sum_of_events(), Some(0));
    t.add_event(1, 3, no_stamp);
    t.add_event(2, 7, no_stamp);
    t.add_event(3, 7, no_stamp);
    assert_eq!(t.try_sum_of_events(), Some(3));
    t.cycle_adder();
    t.set_tick(u64::MAX, u32::MAX);
    assert!(!t.can_tick());
    t.set_tick(u64::MAX - 1, u32::MAX);
    assert!(t.can_tick());
}

#[test]
fn basic_to_string_summarises() {
    let mut t: TickerBasic<u32, u32> = TickerBasic::new(1000, true);
    t.add_event(1, 3, no_stamp);
    t.set_tick(2, 5);
    assert_eq!(t.to_string(), "Cycle: 2 Tick: 5 Auto-run: true\nNumber of events: 1");
}

#[test]
fn basic_add_event_stamps_request_tick() {
    let mut t: TickerBasic<u32, u32> = TickerBasic::new(1000, false);
    t.set_tick(0, 17);
    let stamped = RefCell::new(Vec::new());
    let r = t.add_event(4, 2, |e: &u32, request: u32| stamped.borrow_mut().push((*e, request)));
    assert_eq!(r, 17);
    assert_eq!(stamped.into_inner(), vec![(4, 17)]);
}
