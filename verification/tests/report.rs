use svf_runtime::alias::{GlobalAliasStats, ThreadContext};
use svf_runtime::oracle::HeapOracle;
use svf_runtime::report::{alias_report, heap_report, stats_report, Ratio, Report};
use svf_runtime::text::{append_decimal, append_lower_hex, digit_text};
use svf_runtime::trace::log_line;

const PREDICTED: u32 = 0x8000_0000;

fn global_with(true_alias: usize, true_disjoint: usize, false_alias: usize, false_disjoint: usize) -> GlobalAliasStats {
    let mut context = ThreadContext::new();
    for _ in 0..true_alias {
        context.check_alias(8, 8, PREDICTED);
    }
    for _ in 0..true_disjoint {
        context.check_alias(8, 16, 0);
    }
    for _ in 0..false_alias {
        context.check_alias(8, 16, PREDICTED);
    }
    for _ in 0..false_disjoint {
        context.check_alias(8, 8, 0);
    }
    let mut global = GlobalAliasStats::new();
    global.merge(context.retire());
    global
}

fn printed(report: &Report) -> String {
    let mut text = report.lead.clone();
    if let Some(ratio) = report.rate {
        let percent = (ratio.part as f64 / ratio.whole as f64) * 100.0;
        text.push_str(&format!("{:.2}", percent));
    }
    text.push_str(&report.rest);
    text
}

fn decimal(n: u64) -> String {
    let mut text = String::new();
    append_decimal(&mut text, n);
    text
}

fn hex(n: u64) -> String {
    let mut text = String::new();
    append_lower_hex(&mut text, n);
    text
}

#[test]
fn accuracy_of_eight_in_nine() {
    let global = global_with(3, 5, 1, 0);
    assert_eq!(global.total(), 9);
    let report = alias_report(&global);
    assert_eq!(report.rate, Some(Ratio { part: 8, whole: 9 }));
    assert!(report.lead.ends_with("No Info / Low Confidence: 0\nAccuracy: "));
    assert_eq!(report.rest, "%\n==============================\n\n");
    assert_eq!(
        printed(&report),
        "\n=== SVF Runtime Statistics ===\n\
         Total Checks: 9\n\
         Correct Predictions:\n\
         \x20 True Alias (Predicted Alias & is Alias): 3\n\
         \x20 True Disjoint (Predicted NoAlias & No Alias): 5\n\
         Incorrect Predictions:\n\
         \x20 False Alias (False Positive): 1\n\
         \x20 False Disjoint (False Negative): 0\n\
         No Info / Low Confidence: 0\n\
         Accuracy: 88.89%\n\
         ==============================\n\n"
    );
}

#[test]
fn accuracy_operands_are_correct_checks_and_all_checks() {
    let report = alias_report(&global_with(1, 0, 20, 11));
    assert_eq!(report.rate, Some(Ratio { part: 1, whole: 32 }));
    let report = alias_report(&global_with(0, 0, 2, 3));
    assert_eq!(report.rate, Some(Ratio { part: 0, whole: 5 }));
    assert!(printed(&report).contains("Accuracy: 0.00%\n"));
    let report = alias_report(&global_with(2, 2, 0, 0));
    assert_eq!(report.rate, Some(Ratio { part: 4, whole: 4 }));
    assert!(printed(&report).contains("Accuracy: 100.00%\n"));
}

#[test]
fn no_accuracy_line_without_checks() {
    let report = alias_report(&GlobalAliasStats::new());
    assert_eq!(report.rate, None);
    assert_eq!(report.rest, "==============================\n\n");
    let text = printed(&report);
    assert!(!text.contains("Accuracy"));
    assert!(!text.contains('%'));
    assert!(text.contains("Total Checks: 0\n"));
    assert!(text.ends_with("No Info / Low Confidence: 0\n==============================\n\n"));
}

#[test]
fn heap_report_sums_over_sites() {
    let mut oracle = HeapOracle::new();
    oracle.report_alloc(0x2000, 32, 3);
    oracle.check_heap(0x2010, 3);
    oracle.check_heap(0x2011, 4);
    oracle.check_heap(0x2020, 4);
    let report = heap_report(oracle.site_table());
    assert_eq!(report.rate, Some(Ratio { part: 2, whole: 3 }));
    assert_eq!(
        printed(&report),
        "\n=== Heap Allocation Verification Stats ===\n\
         Total Heap Checks: 3\n\
         True Positives (Correctly Identified Heap): 2\n\
         False Positives ( Identified Heap but not found): 1\n\
         Precision: 66.67%\n\
         ==========================================\n\n"
    );
}

#[test]
fn no_precision_line_without_heap_checks() {
    let mut oracle = HeapOracle::new();
    oracle.report_alloc(0x2000, 32, 3);
    let report = heap_report(oracle.site_table());
    assert_eq!(report.rate, None);
    assert_eq!(
        printed(&report),
        "\n=== Heap Allocation Verification Stats ===\n\
         Total Heap Checks: 0\n\
         True Positives (Correctly Identified Heap): 0\n\
         False Positives ( Identified Heap but not found): 0\n\
         ==========================================\n\n"
    );
}

#[test]
fn whole_report_is_alias_part_then_heap_part() {
    let global = global_with(1, 1, 0, 0);
    let mut oracle = HeapOracle::new();
    oracle.report_alloc(0x2000, 32, 3);
    oracle.check_heap(0x2000, 3);
    let (alias, heap) = stats_report(&global, oracle.site_table());
    assert_eq!(printed(&alias), printed(&alias_report(&global)));
    assert_eq!(printed(&heap), printed(&heap_report(oracle.site_table())));
    assert!(printed(&alias).contains("Accuracy: 100.00%\n"));
    assert!(printed(&heap).contains("Precision: 100.00%\n"));
}

#[test]
fn decimal_matches_standard_formatting() {
    for &n in &[0u64, 1, 9, 10, 11, 99, 100, 12345, 1_000_000, u32::MAX as u64, u64::MAX] {
        assert_eq!(decimal(n), format!("{}", n));
    }
}

#[test]
fn lower_hex_matches_standard_formatting() {
    for &n in &[0u64, 1, 9, 10, 15, 16, 255, 256, 0xdead_beef, 0x7fff_0000_1234, u64::MAX] {
        assert_eq!(hex(n), format!("{:x}", n));
    }
}

#[test]
fn digit_text_covers_sixteen_digits() {
    let all: String = (0u8..16).map(digit_text).collect();
    assert_eq!(all, "0123456789abcdef");
}

#[test]
fn log_line_has_the_fixed_form() {
    assert_eq!(log_line(0x1000, 0x1000, 7), "ID:7 RES:1 (0x1000 vs 0x1000)\n");
    assert_eq!(log_line(0xdead, 0xbeef, 42), "ID:42 RES:0 (0xdead vs 0xbeef)\n");
    assert_eq!(log_line(0, 0, 0), "ID:0 RES:1 (0x0 vs 0x0)\n");
    assert_eq!(
        log_line(10, 255, 0x8000_0001),
        format!("ID:{} RES:{} (0x{:x} vs 0x{:x})\n", 0x8000_0001u32, 0, 10usize, 255usize)
    );
}
