use fischy::stats::{FishingTimes, Stats, StatsReport};

#[test]
fn new_stats_are_empty() {
    let s = Stats::new(true);
    assert!(s.enabled);
    assert_eq!(s.shakes(), 0);
    assert_eq!(s.reels(), 0);
    assert!(s.is_enabled());
    assert_eq!(s.fishes(), 0);
    assert_eq!(s.total_fishing_time(), 0);
    assert_eq!(s.max_fishing_time(), 0);
    assert_eq!(s.min_fishing_time(), u64::MAX);
}

#[test]
fn fishing_times_accumulate() {
    let mut s = Stats::new(true);
    s.add_fishing_time(7);
    s.add_fishing_time(3);
    s.add_fishing_time(12);
    assert_eq!(s.fishes(), 3);
    assert_eq!(s.total_fishing_time(), 22);
    assert_eq!(s.max_fishing_time(), 12);
    assert_eq!(s.min_fishing_time(), 3);
}

#[test]
fn zero_time_counts_fish_but_not_minimum() {
    let mut s = Stats::new(true);
    s.add_fishing_time(0);
    assert_eq!(s.fishes(), 1);
    assert_eq!(s.max_fishing_time(), 0);
    assert_eq!(s.min_fishing_time(), u64::MAX);
    s.add_fishing_time(4);
    s.add_fishing_time(0);
    assert_eq!(s.min_fishing_time(), 4);
    assert_eq!(s.max_fishing_time(), 4);
    assert!(s.min_fishing_time() <= s.max_fishing_time());
    assert!(s.max_fishing_time() <= s.total_fishing_time());
}

#[test]
fn reels_only_counted_when_enabled() {
    let mut on = Stats::new(true);
    on.record_reel();
    on.record_reel();
    assert_eq!(on.reels(), 2);
    let mut off = Stats::new(false);
    off.record_reel();
    assert_eq!(off.reels(), 0);
    off.record_shake();
    assert_eq!(off.shakes(), 1);
}

#[test]
fn report_of_a_session() {
    let mut s = Stats::new(true);
    for _ in 0..4 {
        s.record_reel();
    }
    for _ in 0..9 {
        s.record_shake();
    }
    s.add_fishing_time(10);
    s.add_fishing_time(5);
    assert_eq!(
        s.print(),
        Some(StatsReport {
            shakes: 9,
            reels: 4,
            missed: 2,
            fishes: 2,
            times: Some(FishingTimes { average: 7, max: 10, min: 5 }),
        })
    );
}

#[test]
fn report_without_positive_time_has_no_times() {
    let mut s = Stats::new(true);
    s.record_reel();
    s.add_fishing_time(0);
    let r = s.print_stats();
    assert_eq!(r.times, None);
    assert_eq!(r.missed + r.fishes, r.reels);
}

#[test]
fn disabled_stats_print_nothing() {
    let mut s = Stats::new(false);
    s.add_fishing_time(3);
    assert_eq!(s.print(), None);
}

#[test]
fn average_is_per_fish() {
    let mut s = Stats::new(true);
    for _ in 0..10 {
        s.record_reel();
    }
    s.add_fishing_time(4);
    s.add_fishing_time(8);
    let r = s.print_stats();
    assert_eq!(r.times, Some(FishingTimes { average: 6, max: 8, min: 4 }));
    assert_eq!(r.missed, 8);
}

#[test]
fn order_of_times_does_not_matter() {
    let mut a = Stats::new(true);
    let mut b = Stats::new(true);
    for t in [5, 0, 9, 2] {
        a.add_fishing_time(t);
    }
    for t in [2, 9, 5, 0] {
        b.add_fishing_time(t);
    }
    assert_eq!(
        (a.fishes(), a.total_fishing_time(), a.max_fishing_time(), a.min_fishing_time()),
        (b.fishes(), b.total_fishing_time(), b.max_fishing_time(), b.min_fishing_time())
    );
    assert_eq!((a.fishes(), a.total_fishing_time(), a.max_fishing_time(), a.min_fishing_time()), (4, 16, 9, 2));
}
