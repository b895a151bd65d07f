//! From a log to its report: the applicable rules are run, and what they
//! return is resolved, filtered and put in order.

use vstd::prelude::*;
use crate::report::{
    build, discovered, findings, lemma_empty_output_discovers_nothing,
    lemma_sorting_keeps_the_findings, stable_sort_of, Detection, DetectionModel, MetaModel,
    MetaTable, RuleOutput, RuleOutputModel,
};
use crate::rules::{
    contribution, produced_by, selection, DetectionRule, Facts, OutcomeModel, RuleEngine,
    RuleOutcome,
};
use crate::sequences::lemma_flat_map_member;

verus! {

/// What each of `outputs` stands for.
pub open spec fn output_models(outputs: Seq<RuleOutput>) -> Seq<RuleOutputModel> {
    outputs.map_values(|entry: RuleOutput| entry@)
}

/// The report for a log with `lines` and `facts`: every rule of `engine` that
/// applies is run through `execute`, and what the rules return is assembled
/// against `table`. The report is in order of severity; findings of equal
/// severity stand in it as they were discovered.
pub fn get_detections<F: Fn(&DetectionRule, &Vec<String>, &Facts) -> RuleOutcome>(
    engine: &RuleEngine,
    table: &MetaTable,
    lines: &Vec<String>,
    facts: &Facts,
    execute: F,
) -> (report: Vec<Detection>)
    requires
        forall|i: int|
            0 <= i < selection(engine@, *facts).len() ==> call_requires(
                execute,
                (&#[trigger] selection(engine@, *facts)[i], lines, facts),
            ),
    ensures
        exists|outputs: Seq<RuleOutput>|
            {
                &&& #[trigger] produced_by(
                    execute,
                    selection(engine@, *facts),
                    *lines,
                    *facts,
                    outputs,
                )
                &&& stable_sort_of(
                    report.deep_view(),
                    discovered(table@, output_models(outputs)),
                )
            },
{
    let outputs = engine.run(lines, facts, execute);
    assert(outputs.deep_view() =~= output_models(outputs@));
    build(&outputs, table)
}

/// A rule whose run failed, or returned something of no known shape, leaves
/// the report as if the rule had not been there: the report is the report of
/// the other rules.
pub proof fn lemma_failed_rule_is_isolated(
    table: Map<Seq<char>, MetaModel>,
    outputs: Seq<RuleOutputModel>,
    at: int,
    outcome: OutcomeModel,
    report: Seq<DetectionModel>,
)
    requires
        0 <= at < outputs.len(),
        outcome is Failed || outcome is Malformed,
        outputs[at].output == contribution(outcome),
        stable_sort_of(report, discovered(table, outputs)),
    ensures
        stable_sort_of(report, discovered(table, outputs.remove(at))),
{
    lemma_empty_output_discovers_nothing(table, outputs, at);
}

/// Whatever the other rules did, every finding of every rule stands in the
/// report.
pub proof fn lemma_every_finding_is_reported(
    table: Map<Seq<char>, MetaModel>,
    outputs: Seq<RuleOutputModel>,
    report: Seq<DetectionModel>,
    at: int,
    detection: DetectionModel,
)
    requires
        0 <= at < outputs.len(),
        findings(table, outputs[at].output).contains(detection),
        stable_sort_of(report, discovered(table, outputs)),
    ensures
        report.contains(detection),
{
    let per_rule = |entry: RuleOutputModel| findings(table, entry.output);
    lemma_flat_map_member(outputs, per_rule, detection);
    lemma_sorting_keeps_the_findings(report, discovered(table, outputs), detection);
}

} // verus!
