use ticker::registry::TickerMonitor;
use ticker::registry::TickerVec;

#[test]
fn vec_add_len_clear() {
    let mut v: TickerVec<u32> = TickerVec::new();
    assert!(v.is_empty());
    v.add(1);
    v.add(2);
    assert_eq!(v.len(), 2);
    assert!(!v.is_empty());
    v.clear();
    assert_eq!(v.len(), 0);
}

#[test]
fn vec_clean_drops_dead_keeps_order() {
    let mut v: TickerVec<u32> = TickerVec::with_capacity(8);
    for i in 0..6 {
        v.add(i);
    }
    v.clean(|x: &u32| *x % 2 == 1);
    assert_eq!(v.len(), 3);
    v.clean(|_x: &u32| false);
    assert_eq!(v.len(), 3);
    v.clean(|x: &u32| *x == 2);
    assert_eq!(v.len(), 2);
}

#[test]
fn vec_capacity_reserve_shrink() {
    let mut v: TickerVec<u32> = TickerVec::new();
    v.reserve(100);
    assert!(v.capacity() >= 100);
    v.add(5);
    v.shrink_to(0);
    assert_eq!(v.len(), 1);
    assert!(v.capacity() >= 1);
}

#[test]
fn monitor_add_contains_remove() {
    let mut m: TickerMonitor<u64, u32> = TickerMonitor::new();
    assert!(m.is_empty());
    assert_eq!(m.add(1, 10), None);
    assert_eq!(m.add(1, 11), Some(10));
    assert!(m.contains(&1));
    assert_eq!(m.len(), 1);
    assert_eq!(m.remove(&1), Some(11));
    assert_eq!(m.remove(&1), None);
    assert!(!m.contains(&1));
}

#[test]
fn monitor_regroup_without_overwrite() {
    let mut m: TickerMonitor<u64, u32> = TickerMonitor::with_capacity(4);
    m.add(1, 10);
    m.add(2, 20);
    assert!(!m.regroup(&1, 2, false));
    assert_eq!(m.len(), 2);
    assert!(m.regroup(&1, 3, false));
    assert_eq!(m.len(), 2);
    assert!(!m.contains(&1));
    assert_eq!(m.remove(&3), Some(10));
    assert!(m.regroup(&9, 4, false));
    assert!(!m.contains(&4));
}

#[test]
fn monitor_regroup_with_overwrite() {
    let mut m: TickerMonitor<u64, u32> = TickerMonitor::new();
    m.add(1, 10);
    m.add(2, 20);
    assert!(m.regroup(&1, 2, true));
    assert_eq!(m.len(), 1);
    assert_eq!(m.remove(&2), Some(10));
    assert!(m.regroup(&7, 8, true));
    assert!(m.is_empty());
}

#[test]
fn monitor_regroup_back_restores() {
    let mut m: TickerMonitor<u64, u32> = TickerMonitor::new();
    m.add(1, 10);
    m.add(2, 20);
    assert!(m.regroup(&1, 5, false));
    assert!(m.regroup(&5, 1, false));
    assert_eq!(m.remove(&1), Some(10));
    assert_eq!(m.remove(&2), Some(20));
}

#[test]
fn monitor_clean_drops_dead_entries() {
    let mut m: TickerMonitor<u64, u32> = TickerMonitor::new();
    for i in 0..10u64 {
        m.add(i, i as u32 * 3);
    }
    m.clean(|w: &u32| *w % 2 == 0);
    assert_eq!(m.len(), 5);
    assert!(m.contains(&1));
    assert!(!m.contains(&2));
    assert_eq!(m.remove(&3), Some(9));
}

#[test]
fn monitor_clear_reserve_shrink() {
    let mut m: TickerMonitor<String, u32> = TickerMonitor::new();
    m.reserve(10);
    assert!(m.capacity() >= 10);
    m.add("a".to_string(), 1);
    m.shrink_to(0);
    assert!(m.contains(&"a".to_string()));
    m.clear();
    assert!(m.is_empty());
}
