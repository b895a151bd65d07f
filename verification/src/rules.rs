//! The detection rules: which of them apply to a log, and what each of them
//! contributes.
//!
//! Rules are grouped in buckets. One bucket always applies, one belongs to
//! each family of server platforms, and one applies to every server that is
//! not a proxy. Running a rule is the caller's business: the engine hands
//! each applicable rule to an executor and turns what comes back into the
//! rule's contribution. A rule that fails contributes nothing and stops no
//! other rule.

use vstd::prelude::*;
use crate::report::{RawOutputModel, RawRuleOutput, RuleOutput};
use crate::sequences::lemma_flat_map_member;

verus! {

/// The server software that wrote a log.
#[derive(Clone, Copy, Debug, PartialEq, Eq, Structural)]
pub enum Platform {
    Vanilla,
    CraftBukkit,
    Spigot,
    Paper,
    Pufferfish,
    Purpur,
    Fabric,
    Forge,
    BungeeCord,
    Waterfall,
    Velocity,
}

/// A group of rules that apply together.
#[derive(Clone, Copy, Debug, PartialEq, Eq, Structural)]
pub enum RuleBucket {
    /// Rules that apply to every log.
    Global,
    Bukkit,
    Fabric,
    Forge,
    BungeeCord,
    Velocity,
    /// Rules that apply to every server that is not a proxy.
    NoProxy,
}

/// What is known of a log before the rules run.
#[derive(Clone, Copy, Debug, PartialEq, Eq, Structural)]
pub struct Facts {
    pub platform: Platform,
    pub is_proxy: bool,
}

/// The bucket of the platform's own rules. The unmodified server has none.
pub open spec fn platform_bucket(platform: Platform) -> Option<RuleBucket> {
    match platform {
        Platform::Vanilla => None,
        Platform::CraftBukkit
        | Platform::Spigot
        | Platform::Paper
        | Platform::Pufferfish
        | Platform::Purpur => Some(RuleBucket::Bukkit),
        Platform::Fabric => Some(RuleBucket::Fabric),
        Platform::Forge => Some(RuleBucket::Forge),
        Platform::BungeeCord | Platform::Waterfall => Some(RuleBucket::BungeeCord),
        Platform::Velocity => Some(RuleBucket::Velocity),
    }
}

/// The buckets that apply under `facts`, in the order in which their rules
/// run: the global one, then the platform's own, then the one for servers
/// that are no proxy.
pub open spec fn selected_buckets(facts: Facts) -> Seq<RuleBucket> {
    seq![RuleBucket::Global] + (match platform_bucket(facts.platform) {
        Some(bucket) => seq![bucket],
        None => Seq::empty(),
    }) + (if facts.is_proxy {
        Seq::empty()
    } else {
        seq![RuleBucket::NoProxy]
    })
}

impl Platform {
    /// The bucket of this platform's own rules, if it has one.
    pub fn bucket(self) -> (bucket: Option<RuleBucket>)
        ensures
            bucket == platform_bucket(self),
    {
        match self {
            Platform::Vanilla => None,
            Platform::CraftBukkit
            | Platform::Spigot
            | Platform::Paper
            | Platform::Pufferfish
            | Platform::Purpur => Some(RuleBucket::Bukkit),
            Platform::Fabric => Some(RuleBucket::Fabric),
            Platform::Forge => Some(RuleBucket::Forge),
            Platform::BungeeCord | Platform::Waterfall => Some(RuleBucket::BungeeCord),
            Platform::Velocity => Some(RuleBucket::Velocity),
        }
    }
}

impl Facts {
    /// The buckets whose rules run for a log with these facts.
    pub fn buckets(&self) -> (buckets: Vec<RuleBucket>)
        ensures
            buckets@ == selected_buckets(*self),
    {
        let mut buckets: Vec<RuleBucket> = Vec::new();
        buckets.push(RuleBucket::Global);
        match self.platform.bucket() {
            Some(bucket) => {
                buckets.push(bucket);
            },
            None => {},
        }
        if !self.is_proxy {
            buckets.push(RuleBucket::NoProxy);
        }
        buckets
    }
}

/// A detection rule as the engine knows it: a name and the bucket it belongs
/// to. What the rule does is known to the executor alone.
#[derive(Clone, Debug)]
pub struct DetectionRule {
    pub id: String,
    pub bucket: RuleBucket,
}

/// The test for a rule of `bucket`.
pub open spec fn in_bucket(bucket: RuleBucket) -> spec_fn(DetectionRule) -> bool {
    |rule: DetectionRule| rule.bucket == bucket
}

/// The rules among `rules` that run under `facts`, in the order in which
/// they run: bucket by bucket, and within a bucket as they were registered.
pub open spec fn selection(rules: Seq<DetectionRule>, facts: Facts) -> Seq<DetectionRule> {
    selected_buckets(facts).flat_map(|bucket: RuleBucket| rules.filter(in_bucket(bucket)))
}

/// The rules of `bucket` run under `facts`.
pub open spec fn applies(bucket: RuleBucket, facts: Facts) -> bool {
    ||| bucket == RuleBucket::Global
    ||| platform_bucket(facts.platform) == Some(bucket)
    ||| (bucket == RuleBucket::NoProxy && !facts.is_proxy)
}

/// The selected buckets are the ones that apply.
pub proof fn lemma_selected_buckets_apply(facts: Facts, bucket: RuleBucket)
    ensures
        selected_buckets(facts).contains(bucket) <==> applies(bucket, facts),
{
    let buckets = selected_buckets(facts);
    if applies(bucket, facts) {
        if bucket == RuleBucket::Global {
            assert(buckets[0] == bucket);
        } else if platform_bucket(facts.platform) == Some(bucket) {
            assert(buckets[1] == bucket);
        } else {
            assert(buckets[buckets.len() - 1] == bucket);
        }
    }
}

/// A rule runs exactly when it is registered and its bucket applies. So a
/// rule of another platform's bucket never runs.
pub proof fn lemma_selection_holds_the_applicable_rules(
    rules: Seq<DetectionRule>,
    facts: Facts,
    rule: DetectionRule,
)
    ensures
        selection(rules, facts).contains(rule) <==> rules.contains(rule) && applies(
            rule.bucket,
            facts,
        ),
{
    let buckets = selected_buckets(facts);
    let per_bucket = |bucket: RuleBucket| rules.filter(in_bucket(bucket));
    lemma_flat_map_member(buckets, per_bucket, rule);
    lemma_selected_buckets_apply(facts, rule.bucket);
    if selection(rules, facts).contains(rule) {
        let i = choose|i: int| 0 <= i < buckets.len() && per_bucket(buckets[i]).contains(rule);
        let of_bucket = rules.filter(in_bucket(buckets[i]));
        let k = choose|k: int| 0 <= k < of_bucket.len() && of_bucket[k] == rule;
        rules.lemma_filter_pred(in_bucket(buckets[i]), k);
        rules.lemma_filter_contains_rev(in_bucket(buckets[i]), rule);
    }
    if rules.contains(rule) && applies(rule.bucket, facts) {
        let k = choose|k: int| 0 <= k < rules.len() && rules[k] == rule;
        rules.lemma_filter_contains(in_bucket(rule.bucket), k);
    }
}

/// How the run of one rule ended.
#[derive(Clone, Debug)]
pub enum RuleOutcome {
    /// The rule ran and returned something of a known shape.
    Completed(RawRuleOutput),
    /// The rule ran and returned something of no known shape.
    Malformed,
    /// The rule did not run to its end.
    Failed,
}

/// What a [`RuleOutcome`] stands for.
pub enum OutcomeModel {
    Completed(RawOutputModel),
    Malformed,
    Failed,
}

impl View for RuleOutcome {
    type V = OutcomeModel;

    open spec fn view(&self) -> OutcomeModel {
        match self {
            RuleOutcome::Completed(output) => OutcomeModel::Completed(output@),
            RuleOutcome::Malformed => OutcomeModel::Malformed,
            RuleOutcome::Failed => OutcomeModel::Failed,
        }
    }
}

/// What a rule contributes to the report after a run that ended in
/// `outcome`: what it returned, or nothing where the run failed or returned
/// something of no known shape.
pub open spec fn contribution(outcome: OutcomeModel) -> RawOutputModel {
    match outcome {
        OutcomeModel::Completed(output) => output,
        OutcomeModel::Malformed => RawOutputModel::Empty,
        OutcomeModel::Failed => RawOutputModel::Empty,
    }
}

impl RuleOutcome {
    /// The contribution of a rule whose run ended in this outcome.
    pub fn into_output(self) -> (output: RawRuleOutput)
        ensures
            output@ == contribution(self@),
    {
        match self {
            RuleOutcome::Completed(output) => output,
            RuleOutcome::Malformed => RawRuleOutput::Empty,
            RuleOutcome::Failed => RawRuleOutput::Empty,
        }
    }
}

/// `outputs` is what a run of `rules`, one after the other, through `execute`
/// can leave: one entry for each rule, under the rule's name, holding the
/// contribution of an outcome that `execute` gave for that rule.
pub open spec fn produced_by<F: Fn(&DetectionRule, &Vec<String>, &Facts) -> RuleOutcome>(
    execute: F,
    rules: Seq<DetectionRule>,
    lines: Vec<String>,
    facts: Facts,
    outputs: Seq<RuleOutput>,
) -> bool {
    &&& outputs.len() == rules.len()
    &&& forall|i: int|
        0 <= i < rules.len() ==> {
            &&& (#[trigger] outputs[i]).rule@ == rules[i].id@
            &&& exists|outcome: RuleOutcome|
                {
                    &&& #[trigger] call_ensures(execute, (&rules[i], &lines, &facts), outcome)
                    &&& outputs[i].output@ == contribution(outcome@)
                }
        }
}

/// The registry of detection rules.
pub struct RuleEngine {
    rules: Vec<DetectionRule>,
}

impl View for RuleEngine {
    type V = Seq<DetectionRule>;

    closed spec fn view(&self) -> Seq<DetectionRule> {
        self.rules@
    }
}

impl RuleEngine {
    /// An engine without rules.
    pub fn new() -> (engine: RuleEngine)
        ensures
            engine@ == Seq::<DetectionRule>::empty(),
    {
        RuleEngine { rules: Vec::new() }
    }

    /// Adds `rule` behind the rules that are registered already.
    pub fn register(&mut self, rule: DetectionRule)
        ensures
            final(self)@ == old(self)@.push(rule),
    {
        self.rules.push(rule);
    }

    /// The rules of `bucket`, in the order in which they were registered.
    pub fn scripts(&self, bucket: RuleBucket) -> (found: Vec<&DetectionRule>)
        ensures
            found@.unref() == self@.filter(in_bucket(bucket)),
    {
        let mut found: Vec<&DetectionRule> = Vec::new();
        let mut i: usize = 0;
        proof {
            reveal(Seq::filter);
        }
        while i < self.rules.len()
            invariant
                i <= self.rules.len(),
                found@.unref() == self@.take(i as int).filter(in_bucket(bucket)),
            decreases self.rules.len() - i,
        {
            let rule = &self.rules[i];
            if rule.bucket == bucket {
                found.push(rule);
            }
            proof {
                self@.take(i as int).lemma_filter_push(self@[i as int], in_bucket(bucket));
                assert(self@.take(i + 1) =~= self@.take(i as int).push(self@[i as int]));
            }
            i += 1;
        }
        assert(self@.take(self.rules.len() as int) =~= self@);
        found
    }

    /// The rules that run for a log with `facts`, in the order in which they
    /// run.
    pub fn select(&self, facts: &Facts) -> (selected: Vec<&DetectionRule>)
        ensures
            selected@.unref() == selection(self@, *facts),
    {
        let ghost per_bucket = |bucket: RuleBucket| self@.filter(in_bucket(bucket));
        let buckets = facts.buckets();
        let mut selected: Vec<&DetectionRule> = Vec::new();
        let mut i: usize = 0;
        while i < buckets.len()
            invariant
                i <= buckets.len(),
                per_bucket == |bucket: RuleBucket| self@.filter(in_bucket(bucket)),
                selected@.unref() == buckets@.take(i as int).flat_map(per_bucket),
            decreases buckets.len() - i,
        {
            let mut more = self.scripts(buckets[i]);
            selected.append(&mut more);
            proof {
                buckets@.lemma_flat_map_take_append(per_bucket, i as int);
            }
            i += 1;
        }
        assert(buckets@.take(buckets.len() as int) =~= buckets@);
        selected
    }

    /// Runs the rules that apply under `facts`: hands each of them, with
    /// `lines` and `facts`, to `execute`, and collects what they contribute,
    /// each contribution under the name of its rule. A rule whose run failed
    /// or returned something of no known shape contributes nothing, and the
    /// rules behind it run all the same.
    pub fn run<F: Fn(&DetectionRule, &Vec<String>, &Facts) -> RuleOutcome>(
        &self,
        lines: &Vec<String>,
        facts: &Facts,
        execute: F,
    ) -> (outputs: Vec<RuleOutput>)
        requires
            forall|i: int|
                0 <= i < selection(self@, *facts).len() ==> call_requires(
                    execute,
                    (&#[trigger] selection(self@, *facts)[i], lines, facts),
                ),
        ensures
            produced_by(execute, selection(self@, *facts), *lines, *facts, outputs@),
    {
        let selected = self.select(facts);
        let ghost rules = selection(self@, *facts);
        let mut outputs: Vec<RuleOutput> = Vec::new();
        let mut i: usize = 0;
        while i < selected.len()
            invariant
                i <= selected.len(),
                selected@.unref() == rules,
                forall|i: int|
                    0 <= i < rules.len() ==> call_requires(
                        execute,
                        (&#[trigger] rules[i], lines, facts),
                    ),
                produced_by(execute, rules.take(i as int), *lines, *facts, outputs@),
            decreases selected.len() - i,
        {
            let rule = selected[i];
            assert(*rule == rules[i as int]);
            let outcome = execute(rule, lines, facts);
            let entry = RuleOutput { rule: rule.id.clone(), output: outcome.into_output() };
            outputs.push(entry);
            i += 1;
        }
        outputs
    }
}

} // verus!
