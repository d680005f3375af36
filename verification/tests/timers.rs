use std::time::Duration;
use ticker::timer::SleepTimer;
use ticker::timer::WaitStep;
use ticker::timer::ZeroSleepTimer;

#[test]
fn zero_sleep_timer_period_is_second_over_speed() {
    let t = ZeroSleepTimer::new(1000);
    assert_eq!(t.get_target(), 1_000_000);
    assert_eq!(t.get_counter(), 0);
    let t = ZeroSleepTimer::new(3);
    assert_eq!(t.get_target(), 333_333_333);
}

#[test]
fn zero_sleep_timer_set_target_reads_back() {
    let mut t = ZeroSleepTimer::new(10);
    t.set_target(42);
    assert_eq!(t.get_target(), 42);
    assert_eq!(t.get_counter(), 0);
}

#[test]
fn zero_sleep_timer_step_below_minimum_is_pending() {
    let mut t = ZeroSleepTimer::new(1000);
    assert_eq!(t.wait_step(999), WaitStep::Pending);
    assert_eq!(t.get_counter(), 0);
}

#[test]
fn zero_sleep_timer_step_accounts_and_carries() {
    let mut t = ZeroSleepTimer::new(1000);
    t.set_target(5000);
    assert_eq!(t.wait_step(2000), WaitStep::Sleep);
    assert_eq!(t.get_counter(), 2000);
    assert_eq!(t.wait_step(3000), WaitStep::Sleep);
    assert_eq!(t.get_counter(), 5000);
    assert_eq!(t.wait_step(1500), WaitStep::Done);
    assert_eq!(t.get_counter(), 1500);
}

#[test]
fn zero_sleep_timer_reset_drops_count() {
    let mut t = ZeroSleepTimer::new(1000);
    t.wait_step(4000);
    t.reset();
    assert_eq!(t.get_counter(), 0);
    assert_eq!(t.get_target(), 1_000_000);
}

#[test]
fn zero_sleep_timer_poll_eventually_done() {
    let mut t = ZeroSleepTimer::new(1_000_000);
    assert_eq!(t.get_target(), 1000);
    let mut done = false;
    for _ in 0..10_000_000 {
        match t.poll() {
            Some(WaitStep::Done) => {
                done = true;
                break;
            }
            Some(_) => {}
            None => break,
        }
    }
    assert!(done);
}

#[test]
fn sleep_timer_target_in_nanos() {
    let t = SleepTimer::new(Duration::from_micros(3));
    assert_eq!(t.get_target(), 3000);
    assert_eq!(t.get_counter(), 0);
}

#[test]
fn sleep_timer_set_target_cuts_to_64_bits() {
    let mut t = SleepTimer::new(Duration::from_secs(1));
    t.set_target(12_345);
    assert_eq!(t.get_target(), 12_345);
    t.set_target((1u128 << 64) + 7);
    assert_eq!(t.get_target(), 7);
}

#[test]
fn sleep_timer_sleeps_off_the_rest_in_micros() {
    let t = SleepTimer::new(Duration::from_micros(10));
    let us = Duration::from_micros;
    assert_eq!(t.sleep_length_for(us(3), us(3)), Some(Duration::from_nanos(7)));
    assert_eq!(t.sleep_length_for(Duration::from_nanos(3500), Duration::from_nanos(3500)), Some(Duration::from_nanos(7)));
    assert_eq!(t.sleep_length_for(us(3), us(5)), Some(Duration::from_nanos(5)));
    assert_eq!(t.sleep_length_for(us(3), us(10)), Some(Duration::from_nanos(0)));
    assert_eq!(t.sleep_length_for(us(3), us(12)), None);
    assert_eq!(t.sleep_length_for(us(10), us(10)), None);
    assert_eq!(t.sleep_length_for(us(11), us(11)), None);
}

#[test]
fn sleep_timer_sleep_length_bounded_by_period() {
    let t = SleepTimer::new(Duration::from_secs(5));
    match t.sleep_length() {
        Some(d) => assert!(d <= Duration::from_nanos(5_000_000)),
        None => panic!("five seconds cannot have passed"),
    }
}

#[test]
fn zero_sleep_timer_step_or_refuse() {
    let mut t = ZeroSleepTimer::new(1_000_000);
    assert_eq!(t.get_target(), 1000);
    assert_eq!(t.step_or_refuse(10), Some(WaitStep::Pending));
    assert_eq!(t.get_counter(), 0);
    assert_eq!(t.step_or_refuse(1000), Some(WaitStep::Sleep));
    assert_eq!(t.get_counter(), 1000);
    assert_eq!(t.step_or_refuse(1500), Some(WaitStep::Done));
    assert_eq!(t.get_counter(), 1500);
    assert_eq!(t.step_or_refuse(u128::MAX), None);
    assert_eq!(t.get_counter(), 1500);
    assert_eq!(t.get_target(), 1000);
}
