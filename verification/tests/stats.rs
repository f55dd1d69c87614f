use value_log::{IdGenerator, LiveCounter, Ratio, Segment, Stats};

#[test]
fn new_stats_have_nothing_stale() {
    let stats = Stats::new(5, 100, 400);
    assert_eq!(stats.item_count(), 5);
    assert_eq!(stats.total_bytes(), 100);
    assert_eq!(stats.total_uncompressed_bytes(), 400);
    assert_eq!(stats.stale_items(), 0);
    assert_eq!(stats.stale_bytes(), 0);
    assert!(!stats.is_stale());
}

#[test]
fn default_stats_are_zero() {
    let stats = Stats::default();
    assert_eq!(stats.item_count(), 0);
    assert_eq!(stats.total_bytes(), 0);
    assert_eq!(stats.total_uncompressed_bytes(), 0);
    assert_eq!(stats.stale_items(), 0);
    assert_eq!(stats.stale_bytes(), 0);
    assert!(!stats.is_stale());
}

#[test]
fn stale_is_total_minus_live() {
    let mut stats = Stats::new(5, 100, 400);
    stats.set_live(2, 150);
    assert_eq!(stats.stale_items(), 3);
    assert_eq!(stats.stale_bytes(), 250);
    assert!(!stats.is_stale());

    stats.set_live(5, 400);
    assert_eq!((stats.stale_items(), stats.stale_bytes()), (0, 0));

    stats.set_live(0, 0);
    assert_eq!((stats.stale_items(), stats.stale_bytes()), (5, 400));
    assert!(stats.is_stale());
}

#[test]
fn stale_never_exceeds_total() {
    let mut stats = Stats::new(5, 100, 400);
    for (items, bytes) in [(0, 0), (5, 400), (6, 401), (u64::MAX, u64::MAX), (3, 500), (9, 1)] {
        stats.set_live(items, bytes);
        assert!(stats.stale_items() <= stats.item_count());
        assert!(stats.stale_bytes() <= stats.total_uncompressed_bytes());
    }
    stats.set_live(6, 401);
    assert_eq!((stats.stale_items(), stats.stale_bytes()), (0, 0));
    stats.mark_as_stale();
    assert_eq!((stats.stale_items(), stats.stale_bytes()), (5, 400));
    assert_eq!(stats.item_count(), 5);
    assert_eq!(stats.total_bytes(), 100);
    assert_eq!(stats.total_uncompressed_bytes(), 400);
}

#[test]
fn empty_segment_is_never_stale() {
    let mut stats = Stats::new(0, 0, 0);
    stats.mark_as_stale();
    assert!(!stats.is_stale());
    let mut stats = Stats::new(3, 0, 0);
    stats.mark_as_stale();
    assert_eq!(stats.stale_items(), 3);
    assert!(!stats.is_stale());
}

#[test]
fn segment_stale_ratio() {
    let mut segment = Segment { id: 4, stats: Stats::new(5, 100, 400) };
    assert_eq!(segment.len(), 5);
    assert!(!segment.is_empty());
    assert_eq!(segment.stale_ratio(), Ratio { numerator: 0, denominator: 400 });
    segment.stats.set_live(1, 300);
    assert_eq!(segment.stale_ratio(), Ratio { numerator: 100, denominator: 400 });
    assert!(!segment.is_stale());
    segment.mark_as_stale();
    assert_eq!(segment.id, 4);
    assert_eq!(segment.stale_ratio(), Ratio { numerator: 400, denominator: 400 });
    assert!(segment.is_stale());

    let empty = Segment { id: 0, stats: Stats::default() };
    assert_eq!(empty.stale_ratio(), Ratio { numerator: 0, denominator: 1 });
    assert!(empty.is_empty());
}

#[test]
fn live_counter_counts() {
    let mut counter = LiveCounter::new();
    assert_eq!(counter, LiveCounter { items: 0, bytes: 0 });
    counter.add(10);
    counter.add(0);
    counter.add(u32::MAX);
    assert_eq!(counter, LiveCounter { items: 3, bytes: 10 + u32::MAX as u64 });
}

#[test]
fn live_counter_stops_at_the_top() {
    let mut counter = LiveCounter { items: u64::MAX, bytes: u64::MAX - 5 };
    counter.add(10);
    assert_eq!(counter, LiveCounter { items: u64::MAX, bytes: u64::MAX });
}

#[test]
fn ids_count_up() {
    let mut ids = IdGenerator::new(0);
    assert_eq!(ids.next(), 0);
    assert_eq!(ids.next(), 1);
    assert_eq!(ids.next(), 2);
    let mut ids = IdGenerator::new(41);
    let mut seen = vec![];
    for _ in 0..100 {
        let id = ids.next();
        assert!(!seen.contains(&id));
        assert!(seen.iter().all(|earlier| *earlier < id));
        seen.push(id);
    }
}

#[test]
fn ids_wrap_behind_the_last() {
    let mut ids = IdGenerator::new(u64::MAX);
    assert_eq!(ids.next(), u64::MAX);
    assert_eq!(ids.next(), 0);
}

#[test]
fn ids_after_recovery() {
    assert_eq!(IdGenerator::recover(&[]).next(), 0);
    assert_eq!(IdGenerator::recover(&[0]).next(), 1);
    assert_eq!(IdGenerator::recover(&[3, 9, 4]).next(), 10);
    assert_eq!(IdGenerator::recover(&[9, 3, 9]).next(), 10);
    let mut ids = IdGenerator::recover(&[5, 2]);
    for _ in 0..10 {
        let id = ids.next();
        assert!(id > 5);
    }
}
