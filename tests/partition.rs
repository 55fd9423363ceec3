use hn_sync::partition::partition;
use hn_sync::sync_service::SyncService;

fn assert_tiles(ranges: &[(i64, i64)], lo: i64, hi: i64) {
    assert!(!ranges.is_empty());
    assert_eq!(ranges[0].0, lo);
    assert_eq!(ranges[ranges.len() - 1].1, hi);
    for r in ranges {
        assert!(r.0 <= r.1);
    }
    for w in ranges.windows(2) {
        assert_eq!(w[0].1 + 1, w[1].0);
    }
}

#[test]
fn partition_uneven_interval_gives_remainder_to_last() {
    assert_eq!(
        partition(100, 109, 4),
        vec![(100, 101), (102, 103), (104, 105), (106, 109)]
    );
}

#[test]
fn partition_empty_interval_gives_nothing() {
    assert_eq!(partition(5, 5, 3), vec![]);
    assert_eq!(partition(9, 2, 3), vec![]);
    assert_eq!(partition(5, 5, 0), vec![]);
}

#[test]
fn partition_narrow_interval_gives_single_ids() {
    assert_eq!(partition(1, 3, 10), vec![(1, 1), (2, 2), (3, 3)]);
}

#[test]
fn partition_width_equal_to_workers_gives_single_ids() {
    assert_eq!(partition(0, 4, 4), vec![(0, 0), (1, 1), (2, 2), (3, 3), (4, 4)]);
}

#[test]
fn partition_even_interval() {
    assert_eq!(partition(0, 10, 5), vec![(0, 1), (2, 3), (4, 5), (6, 7), (8, 10)]);
}

#[test]
fn partition_tiles_interval_for_several_inputs() {
    for (lo, hi, w) in [(0i64, 1000i64, 7usize), (-50, 50, 3), (10, 11, 1), (1, 200, 200), (3, 1000, 999)] {
        let r = partition(lo, hi, w);
        assert_tiles(&r, lo, hi);
        if hi - lo <= w as i64 {
            assert_eq!(r.len() as i64, hi - lo + 1);
        } else {
            assert_eq!(r.len(), w);
        }
    }
}

#[test]
fn partition_extreme_bounds_do_not_overflow() {
    let r = partition(i64::MIN, i64::MAX, 3);
    assert_eq!(r.len(), 3);
    assert_tiles(&r, i64::MIN, i64::MAX);
    let r = partition(i64::MAX - 2, i64::MAX, 8);
    assert_eq!(r, vec![(i64::MAX - 2, i64::MAX - 2), (i64::MAX - 1, i64::MAX - 1), (i64::MAX, i64::MAX)]);
}

#[test]
fn divide_ranges_uses_worker_count() {
    let service = SyncService::new("https://example.firebaseio.com/v0".to_string(), 4);
    assert_eq!(
        service.divide_ranges(100, 109),
        vec![(100, 101), (102, 103), (104, 105), (106, 109)]
    );
}
