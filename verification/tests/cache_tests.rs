use mini_system_monitor::cache::{History, Throttle, TimedCache};

#[test]
fn cache_reads_back_until_stale() {
    let mut c: TimedCache<u32> = TimedCache::new();
    assert_eq!(c.fresh(0, 300), None);
    c.store(1000, 7);
    assert_eq!(c.fresh(1000, 300), Some(&7));
    assert_eq!(c.fresh(1299, 300), Some(&7));
    assert_eq!(c.fresh(1300, 300), None);
    assert_eq!(c.fresh(10, 300), Some(&7));
    c.store(2000, 8);
    assert_eq!(c.fresh(2001, 300), Some(&8));
}

#[test]
fn throttle_spacing_on_values() {
    let mut t = Throttle::new();
    assert!(t.check(5, 2000));
    assert!(!t.check(1000, 2000));
    assert!(!t.check(2004, 2000));
    assert!(t.check(2005, 2000));
    let mut r = Throttle::ran_at(100);
    assert!(!r.check(50, 10));
    assert!(r.check(110, 10));
}

#[test]
fn history_is_bounded() {
    let mut h: History<u32> = History::new(3);
    for v in 1..=5 {
        h.push(v);
        assert!(h.len() <= 3);
        assert_eq!(*h.as_slice().last().unwrap(), v);
    }
    assert_eq!(h.as_slice(), &[3, 4, 5]);
}
