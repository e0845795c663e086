use fischy::timing::{apply_jitter, jittered_millis, keep_sleeping, sleep_chunk_nanos};

#[test]
fn apply_jitter_moves_the_wait() {
    assert_eq!(apply_jitter(500, -10), 490);
    assert_eq!(apply_jitter(500, 10), 510);
    assert_eq!(apply_jitter(5, -10), 0);
    assert_eq!(apply_jitter(0, 0), 0);
}

#[test]
fn apply_jitter_keeps_huge_waits() {
    assert_eq!(apply_jitter(u64::MAX, 0), u64::MAX);
    assert_eq!(apply_jitter(u64::MAX, -3), u64::MAX - 3);
    assert_eq!(apply_jitter(u64::MAX - 1, 3), u64::MAX);
    assert_eq!(apply_jitter(i64::MAX as u64 + 10, 0), i64::MAX as u64 + 10);
    assert_eq!(apply_jitter(0, i64::MIN), 0);
}

#[test]
fn jittered_wait_stays_in_range_and_varies() {
    let mut seen = std::collections::BTreeSet::new();
    for _ in 0..200 {
        let d = jittered_millis(1000, 50);
        assert!((950..=1050).contains(&d));
        seen.insert(d);
    }
    assert!(seen.len() > 1);
    for _ in 0..50 {
        assert_eq!(jittered_millis(700, 0), 700);
        assert!(jittered_millis(3, 10) <= 13);
        assert_eq!(jittered_millis(u64::MAX - 5, 0), u64::MAX - 5);
    }
}

#[test]
fn sleep_goes_on_until_done_or_cancelled() {
    assert!(keep_sleeping(10, 5, false));
    assert!(!keep_sleeping(10, 10, false));
    assert!(!keep_sleeping(10, 5, true));
}

#[test]
fn sleep_chunks_are_at_most_a_millisecond() {
    assert_eq!(sleep_chunk_nanos(5_000_000, 0), 1_000_000);
    assert_eq!(sleep_chunk_nanos(5_000_000, 4_500_000), 500_000);
    assert_eq!(sleep_chunk_nanos(5_000_000, 6_000_000), 0);
    assert_eq!(sleep_chunk_nanos(5_000_000, 5_000_000), 0);
}
