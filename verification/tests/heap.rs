use svf_runtime::oracle::{HeapOracle, HeapOutcome};
use svf_runtime::sites::{SiteStats, SiteTable};
use svf_runtime::tracker::{LiveHeap, LiveObject};

fn object(base_address: usize, size: usize, site_id: u64) -> LiveObject {
    LiveObject { base_address, size, site_id }
}

#[test]
fn check_right_after_alloc_is_true_positive() {
    for &(address, size, site) in &[(0x1000usize, 1usize, 1u64), (8, 4096, 2), (usize::MAX, 1, 3)] {
        let mut oracle = HeapOracle::new();
        oracle.report_alloc(address, size, site);
        assert_eq!(oracle.check_heap(address, site), Some(HeapOutcome::TruePositive));
        assert_eq!(oracle.site(site).unwrap().true_positive, 1);
        assert_eq!(oracle.site(site).unwrap().false_positive, 0);
    }
}

#[test]
fn check_after_alloc_of_empty_object_is_false_positive() {
    let mut oracle = HeapOracle::new();
    oracle.report_alloc(0x1000, 0, 1);
    assert_eq!(oracle.check_heap(0x1000, 1), Some(HeapOutcome::FalsePositive));
}

#[test]
fn unreported_addresses_are_false_positives() {
    let mut oracle = HeapOracle::new();
    assert_eq!(oracle.check_heap(0x1234, 9), Some(HeapOutcome::FalsePositive));
    oracle.report_alloc(0x2000, 32, 3);
    assert_eq!(oracle.check_heap(0x1fff, 9), Some(HeapOutcome::FalsePositive));
    assert_eq!(oracle.check_heap(0x3000, 9), Some(HeapOutcome::FalsePositive));
    let stats = oracle.site(9).unwrap();
    assert_eq!(stats.true_positive, 0);
    assert_eq!(stats.false_positive, 3);
}

#[test]
fn check_after_dealloc_is_false_positive() {
    let mut oracle = HeapOracle::new();
    oracle.report_alloc(0x1000, 16, 7);
    oracle.report_dealloc(0x1000);
    assert_eq!(oracle.check_heap(0x1004, 7), Some(HeapOutcome::FalsePositive));
    let stats = oracle.site(7).unwrap();
    assert_eq!(
        stats,
        SiteStats {
            alloc_count: 1,
            alloc_bytes: 16,
            free_count: 1,
            free_bytes: 16,
            true_positive: 0,
            false_positive: 1,
        }
    );
}

#[test]
fn interior_address_hits_and_one_past_the_end_misses() {
    let mut oracle = HeapOracle::new();
    oracle.report_alloc(0x2000, 32, 3);
    assert_eq!(oracle.check_heap(0x2010, 3), Some(HeapOutcome::TruePositive));
    assert_eq!(oracle.check_heap(0x201f, 3), Some(HeapOutcome::TruePositive));
    assert_eq!(oracle.check_heap(0x2020, 3), Some(HeapOutcome::FalsePositive));
    let stats = oracle.site(3).unwrap();
    assert_eq!(stats.true_positive, 2);
    assert_eq!(stats.false_positive, 1);
}

#[test]
fn null_address_is_ignored_everywhere() {
    let mut oracle = HeapOracle::new();
    oracle.report_alloc(0, 64, 1);
    assert_eq!(oracle.site(1), None);
    assert_eq!(oracle.floor(usize::MAX), None);
    oracle.report_dealloc(0);
    assert_eq!(oracle.check_heap(0, 1), None);
    assert_eq!(oracle.site(1), None);
    assert_eq!(oracle.site_table().heap_checks(), 0);
}

#[test]
fn last_report_for_an_address_wins() {
    let mut oracle = HeapOracle::new();
    oracle.report_alloc(0x4000, 8, 1);
    oracle.report_alloc(0x4000, 64, 2);
    assert_eq!(oracle.floor(0x4010), Some(object(0x4000, 64, 2)));
    assert_eq!(oracle.check_heap(0x4010, 5), Some(HeapOutcome::TruePositive));
    oracle.report_dealloc(0x4000);
    assert_eq!(oracle.floor(0x4010), None);
    assert_eq!(oracle.site(1).unwrap().alloc_count, 1);
    assert_eq!(oracle.site(1).unwrap().free_count, 0);
    assert_eq!(oracle.site(2).unwrap().free_count, 1);
    assert_eq!(oracle.site(2).unwrap().free_bytes, 64);
}

#[test]
fn release_of_untracked_address_changes_nothing() {
    let mut oracle = HeapOracle::new();
    oracle.report_alloc(0x1000, 16, 7);
    oracle.report_dealloc(0x1008);
    oracle.report_dealloc(0x9000);
    assert_eq!(oracle.floor(0x1008), Some(object(0x1000, 16, 7)));
    assert_eq!(oracle.site(7).unwrap().free_count, 0);
}

#[test]
fn release_is_counted_for_the_allocating_site() {
    let mut oracle = HeapOracle::new();
    oracle.report_alloc(0x1000, 16, 7);
    oracle.report_alloc(0x2000, 24, 7);
    oracle.report_alloc(0x3000, 100, 8);
    oracle.report_dealloc(0x2000);
    oracle.report_dealloc(0x3000);
    let seven = oracle.site(7).unwrap();
    assert_eq!((seven.alloc_count, seven.alloc_bytes), (2, 40));
    assert_eq!((seven.free_count, seven.free_bytes), (1, 24));
    let eight = oracle.site(8).unwrap();
    assert_eq!((eight.alloc_count, eight.alloc_bytes), (1, 100));
    assert_eq!((eight.free_count, eight.free_bytes), (1, 100));
}

#[test]
fn floor_query_picks_greatest_base_at_or_below() {
    let mut heap = LiveHeap::new();
    for &base in &[0x5000usize, 0x1000, 0x3000, 0x2000, 0x4000] {
        heap.insert(object(base, 0x10, base as u64));
    }
    assert_eq!(heap.floor(0xfff), None);
    assert_eq!(heap.floor(0x1000), Some(object(0x1000, 0x10, 0x1000)));
    assert_eq!(heap.floor(0x2fff), Some(object(0x2000, 0x10, 0x2000)));
    assert_eq!(heap.floor(usize::MAX), Some(object(0x5000, 0x10, 0x5000)));
    assert!(heap.covers(0x300f));
    assert!(!heap.covers(0x3010));
    assert_eq!(heap.remove(0x3000), Some(object(0x3000, 0x10, 0x3000)));
    assert_eq!(heap.remove(0x3000), None);
    assert_eq!(heap.floor(0x3008), Some(object(0x2000, 0x10, 0x2000)));
    assert!(!heap.covers(0x3008));
}

#[test]
fn floor_decides_even_where_a_lower_object_reaches_further() {
    let mut heap = LiveHeap::new();
    heap.insert(object(0x1000, 0x100, 1));
    heap.insert(object(0x1010, 4, 2));
    assert!(heap.covers(0x1008));
    assert!(!heap.covers(0x1020));
}

#[test]
fn range_that_ends_at_the_top_of_the_address_space() {
    let mut heap = LiveHeap::new();
    heap.insert(object(usize::MAX - 1, 16, 1));
    assert!(heap.covers(usize::MAX));
    assert!(!heap.covers(usize::MAX - 2));
}

#[test]
fn tracker_agrees_with_a_linear_scan() {
    let mut heap = LiveHeap::new();
    let mut model: Vec<LiveObject> = Vec::new();
    let mut seed: usize = 12345;
    for step in 0..400usize {
        seed = seed.wrapping_mul(1103515245).wrapping_add(12345) % 1000003;
        let base = 1 + seed % 64;
        if step % 3 == 2 {
            let expected = model.iter().position(|o| o.base_address == base).map(|i| model.remove(i));
            assert_eq!(heap.remove(base), expected);
        } else {
            let item = object(base, seed % 5, step as u64);
            model.retain(|o| o.base_address != base);
            model.push(item);
            heap.insert(item);
        }
        for address in 0..70usize {
            let expected = model
                .iter()
                .filter(|o| o.base_address <= address)
                .max_by_key(|o| o.base_address)
                .copied();
            assert_eq!(heap.floor(address), expected);
        }
    }
}

#[test]
fn site_table_sums_follow_the_entries() {
    let mut table = SiteTable::new();
    assert_eq!(table.get(4), None);
    assert_eq!(table.get_or_new(4), SiteStats::new());
    table.record_check(4, true);
    table.record_check(4, true);
    table.record_check(5, false);
    table.record_alloc(5, 10);
    table.record_free(5, 10);
    table.record_free(6, 10);
    assert_eq!(table.get(6), None);
    assert_eq!(table.get(4).unwrap().true_positive, 2);
    assert_eq!(table.get(5).unwrap().false_positive, 1);
    assert_eq!(table.get(5).unwrap().free_bytes, 10);
    assert_eq!(table.true_positives(), 2);
    assert_eq!(table.false_positives(), 1);
    assert_eq!(table.heap_checks(), 3);
}

#[test]
fn new_site_stats_are_zero() {
    let stats = SiteStats::new();
    assert_eq!(
        stats,
        SiteStats {
            alloc_count: 0,
            alloc_bytes: 0,
            free_count: 0,
            free_bytes: 0,
            true_positive: 0,
            false_positive: 0,
        }
    );
}

#[test]
fn room_checks_report_full_counters() {
    let mut oracle = HeapOracle::new();
    assert!(oracle.has_room_for_alloc(usize::MAX, 1));
    assert!(oracle.has_room_for_check());
    oracle.report_alloc(0x1000, usize::MAX, 1);
    assert_eq!(oracle.has_room_for_alloc(1, 1), (usize::MAX as u64) < u64::MAX);
    assert!(oracle.has_room_for_alloc(1, 2));
}
