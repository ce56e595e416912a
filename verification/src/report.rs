//! The final report: the alias counters of the process and the heap checks of
//! all sites, as the text that is printed when the process exits.
//!
//! Each of the two parts of the report holds one percentage. The library
//! decides whether the line with the percentage appears and of which two
//! counts the percentage is taken, and writes all the text around it. The
//! percentage itself is not written here: a part comes cut in two where the
//! number goes, with the two counts beside it.

use crate::alias::{AliasCounts, GlobalAliasStats};
use crate::sites::{false_positives_of, true_positives_of, SiteTable};
use crate::text::{append_decimal, decimal};
use vstd::prelude::*;

verus! {

/// The two counts of which a percentage is taken: `part / whole * 100`.
#[derive(Clone, Copy, Debug, PartialEq, Eq, Structural)]
pub struct Ratio {
    /// The count that the percentage is the share of.
    pub part: u64,
    /// The count that the percentage is a share in. It is not zero.
    pub whole: u64,
}

/// One part of the report, cut in two where its percentage goes.
///
/// Where `rate` is `Some`, the part reads `lead`, then the percentage of the
/// ratio with two decimals, then `rest`. Where it is `None` there is no line
/// with a percentage, and the part reads `lead`, then `rest`.
#[derive(Debug)]
pub struct Report {
    /// The text up to the percentage.
    pub lead: String,
    /// The two counts of the percentage, if the part has one.
    pub rate: Option<Ratio>,
    /// The text after the percentage.
    pub rest: String,
}

/// The ratio of `part` in `whole`. There is none of an empty whole.
pub open spec fn ratio_of(part: nat, whole: nat) -> Option<Ratio> {
    if whole > 0 {
        Some(Ratio { part: part as u64, whole: whole as u64 })
    } else {
        None
    }
}

/// A line that ends in a count.
pub open spec fn count_line(label: Seq<char>, n: nat) -> Seq<char> {
    label + decimal(n) + "\n"@
}

/// A piece of text that is only there where the part has a percentage.
pub open spec fn where_rated(text: Seq<char>, whole: nat) -> Seq<char> {
    if whole > 0 {
        text
    } else {
        Seq::empty()
    }
}

/// The report on the alias checks up to its percentage: every counter, and
/// the label of the accuracy line where any check was made.
pub open spec fn alias_report_lead(counts: AliasCounts) -> Seq<char> {
    "\n=== SVF Runtime Statistics ===\n"@ + count_line("Total Checks: "@, counts.total)
        + "Correct Predictions:\n"@ + count_line(
        "  True Alias (Predicted Alias & is Alias): "@,
        counts.true_alias,
    ) + count_line("  True Disjoint (Predicted NoAlias & No Alias): "@, counts.true_disjoint)
        + "Incorrect Predictions:\n"@ + count_line(
        "  False Alias (False Positive): "@,
        counts.false_alias,
    ) + count_line("  False Disjoint (False Negative): "@, counts.false_disjoint) + count_line(
        "No Info / Low Confidence: "@,
        counts.no_info,
    ) + where_rated("Accuracy: "@, counts.total)
}

/// The report on the alias checks after its percentage: the end of the
/// accuracy line where any check was made, and the closing rule.
pub open spec fn alias_report_rest(counts: AliasCounts) -> Seq<char> {
    where_rated("%\n"@, counts.total) + "==============================\n\n"@
}

/// The accuracy: the share of correct predictions in all checks, where any
/// check was made.
pub open spec fn alias_report_rate(counts: AliasCounts) -> Option<Ratio> {
    ratio_of(counts.correct(), counts.total)
}

/// The report on the heap checks up to its percentage: the number of checks
/// of all sites together, the true and the false positives, and the label of
/// the precision line where any check was made.
pub open spec fn heap_report_lead(true_positives: nat, false_positives: nat) -> Seq<char> {
    "\n=== Heap Allocation Verification Stats ===\n"@ + count_line(
        "Total Heap Checks: "@,
        true_positives + false_positives,
    ) + count_line("True Positives (Correctly Identified Heap): "@, true_positives) + count_line(
        "False Positives ( Identified Heap but not found): "@,
        false_positives,
    ) + where_rated("Precision: "@, true_positives + false_positives)
}

/// The report on the heap checks after its percentage: the end of the
/// precision line where any check was made, and the closing rule.
pub open spec fn heap_report_rest(true_positives: nat, false_positives: nat) -> Seq<char> {
    where_rated("%\n"@, true_positives + false_positives)
        + "==========================================\n\n"@
}

/// The precision: the share of true positives in all heap checks, where any
/// check was made.
pub open spec fn heap_report_rate(true_positives: nat, false_positives: nat) -> Option<Ratio> {
    ratio_of(true_positives, true_positives + false_positives)
}

fn append_count_line(text: &mut String, label: &str, n: u64)
    ensures
        final(text)@ == old(text)@ + count_line(label@, n as nat),
{
    text.append(label);
    append_decimal(text, n);
    text.append("\n");
}

/// Appends `piece` where the part has a percentage, nothing where not.
fn append_where_rated(text: &mut String, piece: &str, whole: u64)
    ensures
        final(text)@ == old(text)@ + where_rated(piece@, whole as nat),
{
    if whole > 0 {
        text.append(piece);
    }
}

/// The ratio of `part` in `whole`, if the whole is not empty.
fn ratio(part: u64, whole: u64) -> (rate: Option<Ratio>)
    ensures
        rate == ratio_of(part as nat, whole as nat),
{
    if whole > 0 {
        Some(Ratio { part, whole })
    } else {
        None
    }
}

/// Writes the report on the alias checks.
pub fn alias_report(stats: &GlobalAliasStats) -> (report: Report)
    requires
        stats.wf(),
    ensures
        report.lead@ == alias_report_lead(stats@),
        report.rate == alias_report_rate(stats@),
        report.rest@ == alias_report_rest(stats@),
{
    let total = stats.total() as u64;
    let correct = (stats.true_alias() + stats.true_disjoint()) as u64;
    let mut lead = String::from_str("\n=== SVF Runtime Statistics ===\n");
    append_count_line(&mut lead, "Total Checks: ", total);
    lead.append("Correct Predictions:\n");
    append_count_line(
        &mut lead,
        "  True Alias (Predicted Alias & is Alias): ",
        stats.true_alias() as u64,
    );
    append_count_line(
        &mut lead,
        "  True Disjoint (Predicted NoAlias & No Alias): ",
        stats.true_disjoint() as u64,
    );
    lead.append("Incorrect Predictions:\n");
    append_count_line(&mut lead, "  False Alias (False Positive): ", stats.false_alias() as u64);
    append_count_line(
        &mut lead,
        "  False Disjoint (False Negative): ",
        stats.false_disjoint() as u64,
    );
    append_count_line(&mut lead, "No Info / Low Confidence: ", stats.no_info() as u64);
    append_where_rated(&mut lead, "Accuracy: ", total);
    let mut rest = String::new();
    append_where_rated(&mut rest, "%\n", total);
    rest.append("==============================\n\n");
    Report { lead, rate: ratio(correct, total), rest }
}

/// Writes the report on the heap checks.
pub fn heap_report(table: &SiteTable) -> (report: Report)
    requires
        table.wf(),
    ensures
        report.lead@ == heap_report_lead(true_positives_of(table@), false_positives_of(table@)),
        report.rate == heap_report_rate(true_positives_of(table@), false_positives_of(table@)),
        report.rest@ == heap_report_rest(true_positives_of(table@), false_positives_of(table@)),
{
    let true_positives = table.true_positives();
    let false_positives = table.false_positives();
    let checks = table.heap_checks();
    let mut lead = String::from_str("\n=== Heap Allocation Verification Stats ===\n");
    append_count_line(&mut lead, "Total Heap Checks: ", checks);
    append_count_line(&mut lead, "True Positives (Correctly Identified Heap): ", true_positives);
    append_count_line(
        &mut lead,
        "False Positives ( Identified Heap but not found): ",
        false_positives,
    );
    append_where_rated(&mut lead, "Precision: ", checks);
    let mut rest = String::new();
    append_where_rated(&mut rest, "%\n", checks);
    rest.append("==========================================\n\n");
    Report { lead, rate: ratio(true_positives, checks), rest }
}

/// Writes the whole final report: the part on the alias checks, then the part
/// on the heap checks.
pub fn stats_report(stats: &GlobalAliasStats, table: &SiteTable) -> (parts: (Report, Report))
    requires
        stats.wf(),
        table.wf(),
    ensures
        parts.0.lead@ == alias_report_lead(stats@),
        parts.0.rate == alias_report_rate(stats@),
        parts.0.rest@ == alias_report_rest(stats@),
        parts.1.lead@ == heap_report_lead(true_positives_of(table@), false_positives_of(table@)),
        parts.1.rate == heap_report_rate(true_positives_of(table@), false_positives_of(table@)),
        parts.1.rest@ == heap_report_rest(true_positives_of(table@), false_positives_of(table@)),
{
    (alias_report(stats), heap_report(table))
}

} // verus!
