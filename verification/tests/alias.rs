use svf_runtime::alias::{
    call_site, classify, predicted_alias, AliasOutcome, GlobalAliasStats, ThreadContext, ThreadStats,
};
use svf_runtime::guard::ReentrancyGuard;

const PREDICTED: u32 = 0x8000_0000;

#[test]
fn equal_addresses_classify_by_prediction_bit() {
    for &p in &[0usize, 1, 0x1000, usize::MAX] {
        for &site in &[0u32, 1, 42, 0x7fff_ffff] {
            assert_eq!(classify(p, p, PREDICTED | site), AliasOutcome::TrueAlias);
            assert_eq!(classify(p, p, site), AliasOutcome::FalseDisjoint);
        }
    }
}

#[test]
fn different_addresses_classify_by_prediction_bit() {
    for &(p, q) in &[(0usize, 1usize), (0x1000, 0x1001), (usize::MAX, 0)] {
        for &site in &[0u32, 1, 42, 0x7fff_ffff] {
            assert_eq!(classify(p, q, PREDICTED | site), AliasOutcome::FalseAlias);
            assert_eq!(classify(p, q, site), AliasOutcome::TrueDisjoint);
        }
    }
}

#[test]
fn packed_id_splits_into_prediction_and_site() {
    assert!(predicted_alias(0x8000_0000));
    assert!(predicted_alias(0xffff_ffff));
    assert!(!predicted_alias(0x7fff_ffff));
    assert!(!predicted_alias(0));
    assert_eq!(call_site(0x8000_002a), 42);
    assert_eq!(call_site(0x0000_002a), 42);
    assert_eq!(call_site(0xffff_ffff), 0x7fff_ffff);
}

#[test]
fn new_thread_stats_are_zero() {
    let stats = ThreadStats::new();
    assert_eq!(stats.total(), 0);
    assert_eq!(stats.true_alias(), 0);
    assert_eq!(stats.true_disjoint(), 0);
    assert_eq!(stats.false_alias(), 0);
    assert_eq!(stats.false_disjoint(), 0);
    assert_eq!(stats.no_info(), 0);
}

#[test]
fn every_check_lands_in_one_bucket() {
    let mut stats = ThreadStats::new();
    stats.record(AliasOutcome::TrueAlias);
    stats.record(AliasOutcome::FalseAlias);
    stats.record(AliasOutcome::FalseAlias);
    stats.record(AliasOutcome::TrueDisjoint);
    stats.record(AliasOutcome::FalseDisjoint);
    assert_eq!(stats.total(), 5);
    assert_eq!(stats.true_alias(), 1);
    assert_eq!(stats.false_alias(), 2);
    assert_eq!(stats.true_disjoint(), 1);
    assert_eq!(stats.false_disjoint(), 1);
    assert_eq!(stats.no_info(), 0);
}

#[test]
fn check_alias_tolerates_null_addresses() {
    let mut context = ThreadContext::new();
    assert_eq!(context.check_alias(0, 0, 0), Some(AliasOutcome::FalseDisjoint));
    assert_eq!(context.check_alias(0, 0, PREDICTED), Some(AliasOutcome::TrueAlias));
    assert_eq!(context.stats().total(), 2);
    assert!(!context.is_in_flight());
}

#[test]
fn total_over_threads_is_number_of_checks() {
    let threads = 7usize;
    let calls = 113usize;
    let mut global = GlobalAliasStats::new();
    for t in 0..threads {
        let mut context = ThreadContext::new();
        for k in 0..calls {
            let id = if k % 2 == 0 { PREDICTED | k as u32 } else { k as u32 };
            let outcome = context.check_alias(t, k % 3, id);
            assert!(outcome.is_some());
        }
        assert_eq!(context.stats().total(), calls);
        let stats = context.retire();
        assert!(global.has_room_for(&stats));
        global.merge(stats);
    }
    assert_eq!(global.total(), threads * calls);
    assert_eq!(
        global.true_alias() + global.true_disjoint() + global.false_alias()
            + global.false_disjoint() + global.no_info(),
        threads * calls
    );
}

#[test]
fn merge_adds_counter_by_counter() {
    let mut first = ThreadStats::new();
    first.record(AliasOutcome::TrueAlias);
    first.record(AliasOutcome::TrueDisjoint);
    let mut second = ThreadStats::new();
    second.record(AliasOutcome::TrueAlias);
    second.record(AliasOutcome::FalseDisjoint);
    second.record(AliasOutcome::FalseAlias);
    let mut global = GlobalAliasStats::new();
    global.merge(first);
    global.merge(second);
    assert_eq!(global.total(), 5);
    assert_eq!(global.true_alias(), 2);
    assert_eq!(global.true_disjoint(), 1);
    assert_eq!(global.false_alias(), 1);
    assert_eq!(global.false_disjoint(), 1);
    assert_eq!(global.no_info(), 0);
}

#[test]
fn reentrant_check_is_a_skipped_sample() {
    let mut context = ThreadContext::new();
    assert_eq!(context.check_alias(1, 1, PREDICTED), Some(AliasOutcome::TrueAlias));
    assert!(context.enter());
    assert!(context.is_in_flight());
    assert_eq!(context.check_alias(1, 2, PREDICTED), None);
    assert_eq!(context.check_alias(3, 3, 0), None);
    assert!(context.is_in_flight());
    assert_eq!(context.stats().total(), 1);
    assert_eq!(context.stats().true_alias(), 1);
    assert_eq!(context.stats().false_alias(), 0);
    assert_eq!(context.stats().false_disjoint(), 0);
    context.exit();
    assert_eq!(context.check_alias(1, 2, PREDICTED), Some(AliasOutcome::FalseAlias));
    assert_eq!(context.stats().total(), 2);
    assert!(!context.is_in_flight());
}

#[test]
fn guard_is_test_and_set() {
    let mut guard = ReentrancyGuard::new();
    assert!(!guard.is_held());
    assert!(guard.enter());
    assert!(guard.is_held());
    assert!(!guard.enter());
    assert!(guard.is_held());
    guard.exit();
    assert!(!guard.is_held());
    assert!(guard.enter());
}

#[test]
fn nested_enter_on_context_fails_until_exit() {
    let mut context = ThreadContext::new();
    assert!(context.enter());
    assert!(!context.enter());
    context.exit();
    assert!(context.enter());
}
