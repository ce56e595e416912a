use svf_runtime::alias::{AliasOutcome, ThreadContext};
use svf_runtime::guard::ReentrancyGuard;
use svf_runtime::oracle::{
    guarded_check_heap, guarded_report_alloc, guarded_report_dealloc, HeapOracle, HeapOutcome,
};
use svf_runtime::tracker::LiveObject;

const PREDICTED: u32 = 0x8000_0000;

#[test]
fn guarded_heap_callbacks_work_with_a_free_guard() {
    let mut guard = ReentrancyGuard::new();
    let mut oracle = HeapOracle::new();
    guarded_report_alloc(&mut guard, &mut oracle, 0x2000, 32, 3);
    assert!(!guard.is_held());
    assert_eq!(
        oracle.floor(0x2010),
        Some(LiveObject { base_address: 0x2000, size: 32, site_id: 3 })
    );
    assert_eq!(
        guarded_check_heap(&mut guard, &mut oracle, 0x2010, 3),
        Some(HeapOutcome::TruePositive)
    );
    assert_eq!(
        guarded_check_heap(&mut guard, &mut oracle, 0x2020, 3),
        Some(HeapOutcome::FalsePositive)
    );
    assert_eq!(guarded_check_heap(&mut guard, &mut oracle, 0, 3), None);
    assert!(!guard.is_held());
    guarded_report_dealloc(&mut guard, &mut oracle, 0x2000);
    assert!(!guard.is_held());
    assert_eq!(oracle.floor(0x2010), None);
    let stats = oracle.site(3).unwrap();
    assert_eq!((stats.alloc_count, stats.free_count), (1, 1));
    assert_eq!((stats.true_positive, stats.false_positive), (1, 1));
}

#[test]
fn nested_heap_check_is_a_skipped_sample() {
    let mut guard = ReentrancyGuard::new();
    let mut oracle = HeapOracle::new();
    guarded_report_alloc(&mut guard, &mut oracle, 0x2000, 32, 3);
    assert!(guard.enter());
    assert_eq!(guarded_check_heap(&mut guard, &mut oracle, 0x2010, 3), None);
    assert_eq!(guarded_check_heap(&mut guard, &mut oracle, 0x9000, 4), None);
    assert!(guard.is_held());
    assert_eq!(oracle.site(3).unwrap().true_positive, 0);
    assert_eq!(oracle.site(3).unwrap().false_positive, 0);
    assert_eq!(oracle.site(4), None);
    assert_eq!(oracle.site_table().heap_checks(), 0);
    guard.exit();
    assert_eq!(
        guarded_check_heap(&mut guard, &mut oracle, 0x2010, 3),
        Some(HeapOutcome::TruePositive)
    );
}

#[test]
fn nested_alloc_and_release_change_nothing() {
    let mut guard = ReentrancyGuard::new();
    let mut oracle = HeapOracle::new();
    guarded_report_alloc(&mut guard, &mut oracle, 0x2000, 32, 3);
    assert!(guard.enter());
    guarded_report_alloc(&mut guard, &mut oracle, 0x3000, 8, 5);
    guarded_report_alloc(&mut guard, &mut oracle, 0x2000, 64, 3);
    guarded_report_dealloc(&mut guard, &mut oracle, 0x2000);
    assert!(guard.is_held());
    assert_eq!(oracle.site(5), None);
    assert_eq!(oracle.floor(0x3000), Some(LiveObject { base_address: 0x2000, size: 32, site_id: 3 }));
    let stats = oracle.site(3).unwrap();
    assert_eq!((stats.alloc_count, stats.alloc_bytes), (1, 32));
    assert_eq!((stats.free_count, stats.free_bytes), (0, 0));
}

#[test]
fn thread_makes_all_callbacks_behind_one_guard() {
    let mut context = ThreadContext::new();
    let mut oracle = HeapOracle::new();
    context.report_alloc(&mut oracle, 0x1000, 16, 7);
    assert_eq!(context.check_heap(&mut oracle, 0x1004, 7), Some(HeapOutcome::TruePositive));
    assert_eq!(context.check_alias(1, 1, PREDICTED), Some(AliasOutcome::TrueAlias));
    assert!(!context.is_in_flight());

    assert!(context.enter());
    context.report_alloc(&mut oracle, 0x5000, 16, 9);
    context.report_dealloc(&mut oracle, 0x1000);
    assert_eq!(context.check_heap(&mut oracle, 0x1004, 7), None);
    assert_eq!(context.check_alias(1, 1, PREDICTED), None);
    assert!(context.is_in_flight());
    assert_eq!(oracle.site(9), None);
    assert_eq!(oracle.site(7).unwrap().free_count, 0);
    assert_eq!(oracle.site(7).unwrap().true_positive, 1);
    assert_eq!(context.stats().total(), 1);
    context.exit();

    context.report_dealloc(&mut oracle, 0x1000);
    assert_eq!(context.check_heap(&mut oracle, 0x1004, 7), Some(HeapOutcome::FalsePositive));
    assert_eq!(oracle.site(7).unwrap().free_count, 1);
    assert_eq!(context.stats().total(), 1);
}
