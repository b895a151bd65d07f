//! Turning what the rules returned into the ordered report.
//!
//! Each identifier that a rule returns is looked up in the table of detection
//! descriptions. The description's templates are filled with the rule's
//! captures, private descriptions are left out, and what remains is put in
//! order of severity, most severe first, without disturbing the order of
//! discovery among equals.

use vstd::prelude::*;
use crate::template::{fill, filled, Capture, CaptureModel};
use crate::text::same_text;
use crate::sequences::{lemma_flat_map_concat, lemma_flat_map_member};

verus! {

/// The description of one kind of finding: what to show when a rule returns
/// its identifier.
#[derive(Clone, Debug)]
pub struct DetectionMeta {
    pub identifier: String,
    pub header: String,
    pub solutions: Vec<String>,
    pub severity: u32,
    pub private: bool,
}

/// What a [`DetectionMeta`] stands for.
pub struct MetaModel {
    pub identifier: Seq<char>,
    pub header: Seq<char>,
    pub solutions: Seq<Seq<char>>,
    pub severity: u32,
    pub private: bool,
}

impl View for DetectionMeta {
    type V = MetaModel;

    open spec fn view(&self) -> MetaModel {
        MetaModel {
            identifier: self.identifier@,
            header: self.header@,
            solutions: self.solutions.deep_view(),
            severity: self.severity,
            private: self.private,
        }
    }
}

impl DeepView for DetectionMeta {
    type V = MetaModel;

    open spec fn deep_view(&self) -> MetaModel {
        self@
    }
}

/// One entry of the report: the texts to show and how severe the finding is.
/// A lower severity is more severe and is shown earlier.
#[derive(Clone, Debug)]
pub struct Detection {
    pub header: String,
    pub solutions: Vec<String>,
    pub severity: u32,
}

/// What a [`Detection`] stands for.
pub struct DetectionModel {
    pub header: Seq<char>,
    pub solutions: Seq<Seq<char>>,
    pub severity: u32,
}

impl View for Detection {
    type V = DetectionModel;

    open spec fn view(&self) -> DetectionModel {
        DetectionModel {
            header: self.header@,
            solutions: self.solutions.deep_view(),
            severity: self.severity,
        }
    }
}

impl DeepView for Detection {
    type V = DetectionModel;

    open spec fn deep_view(&self) -> DetectionModel {
        self@
    }
}

/// One finding of a rule that reports several: the identifier of its
/// description and the captures that fill the description's templates.
#[derive(Clone, Debug)]
pub struct Captures {
    pub identifier: String,
    pub captures: Vec<Capture>,
}

/// What a [`Captures`] stands for.
pub struct CapturesModel {
    pub identifier: Seq<char>,
    pub captures: Seq<CaptureModel>,
}

impl View for Captures {
    type V = CapturesModel;

    open spec fn view(&self) -> CapturesModel {
        CapturesModel { identifier: self.identifier@, captures: self.captures.deep_view() }
    }
}

impl DeepView for Captures {
    type V = CapturesModel;

    open spec fn deep_view(&self) -> CapturesModel {
        self@
    }
}

/// What one rule contributes to a report.
#[derive(Clone, Debug)]
pub enum RawRuleOutput {
    /// The rule found nothing.
    Empty,
    /// The rule found one thing and names its description.
    SingleIdentifier(String),
    /// The rule found several things, each with captures of its own.
    CaptureSet(Vec<Captures>),
}

/// What a [`RawRuleOutput`] stands for.
pub enum RawOutputModel {
    Empty,
    SingleIdentifier(Seq<char>),
    CaptureSet(Seq<CapturesModel>),
}

impl View for RawRuleOutput {
    type V = RawOutputModel;

    open spec fn view(&self) -> RawOutputModel {
        match self {
            RawRuleOutput::Empty => RawOutputModel::Empty,
            RawRuleOutput::SingleIdentifier(identifier) => RawOutputModel::SingleIdentifier(
                identifier@,
            ),
            RawRuleOutput::CaptureSet(items) => RawOutputModel::CaptureSet(items.deep_view()),
        }
    }
}

impl DeepView for RawRuleOutput {
    type V = RawOutputModel;

    open spec fn deep_view(&self) -> RawOutputModel {
        self@
    }
}

/// The output of one rule together with the rule it came from.
#[derive(Clone, Debug)]
pub struct RuleOutput {
    pub rule: String,
    pub output: RawRuleOutput,
}

/// What a [`RuleOutput`] stands for.
pub struct RuleOutputModel {
    pub rule: Seq<char>,
    pub output: RawOutputModel,
}

impl View for RuleOutput {
    type V = RuleOutputModel;

    open spec fn view(&self) -> RuleOutputModel {
        RuleOutputModel { rule: self.rule@, output: self.output@ }
    }
}

impl DeepView for RuleOutput {
    type V = RuleOutputModel;

    open spec fn deep_view(&self) -> RuleOutputModel {
        self@
    }
}

/// The map that a list of descriptions stands for: each description under
/// its own identifier.
pub open spec fn keyed(entries: Seq<MetaModel>) -> Map<Seq<char>, MetaModel>
    decreases entries.len(),
{
    if entries.len() == 0 {
        Map::empty()
    } else {
        keyed(entries.drop_last()).insert(entries.last().identifier, entries.last())
    }
}

/// No identifier stands twice in `entries`.
pub open spec fn distinct_identifiers(entries: Seq<MetaModel>) -> bool {
    forall|i: int, j: int|
        0 <= i < j < entries.len() ==> entries[i].identifier != entries[j].identifier
}

/// The keys of `keyed(entries)` are the identifiers that stand in `entries`.
proof fn lemma_keyed_domain(entries: Seq<MetaModel>, identifier: Seq<char>)
    ensures
        keyed(entries).dom().contains(identifier) <==> exists|i: int|
            0 <= i < entries.len() && entries[i].identifier == identifier,
    decreases entries.len(),
{
    if entries.len() > 0 {
        let front = entries.drop_last();
        lemma_keyed_domain(front, identifier);
        if exists|i: int| 0 <= i < entries.len() && entries[i].identifier == identifier {
            let i = choose|i: int| 0 <= i < entries.len() && entries[i].identifier == identifier;
            if i < front.len() {
                assert(front[i].identifier == identifier);
            }
        }
    }
}

/// Where identifiers are distinct, each entry is the value under its identifier.
proof fn lemma_keyed_value(entries: Seq<MetaModel>, at: int)
    requires
        distinct_identifiers(entries),
        0 <= at < entries.len(),
    ensures
        keyed(entries).dom().contains(entries[at].identifier),
        keyed(entries)[entries[at].identifier] == entries[at],
    decreases entries.len(),
{
    if at < entries.len() - 1 {
        lemma_keyed_value(entries.drop_last(), at);
    }
}

/// Replacing the entry at `at` by one of the same identifier puts that entry
/// under the identifier and leaves the other keys alone.
proof fn lemma_keyed_update(entries: Seq<MetaModel>, at: int, meta: MetaModel)
    requires
        distinct_identifiers(entries),
        0 <= at < entries.len(),
        entries[at].identifier == meta.identifier,
    ensures
        distinct_identifiers(entries.update(at, meta)),
        keyed(entries.update(at, meta)) == keyed(entries).insert(meta.identifier, meta),
    decreases entries.len(),
{
    let after = entries.update(at, meta);
    let front = entries.drop_last();
    if at == entries.len() - 1 {
        assert(after.drop_last() =~= front);
    } else {
        lemma_keyed_update(front, at, meta);
        assert(after.drop_last() =~= front.update(at, meta));
    }
}

/// The table of detection descriptions, keyed by identifier.
pub struct MetaTable {
    entries: Vec<DetectionMeta>,
}

impl View for MetaTable {
    type V = Map<Seq<char>, MetaModel>;

    closed spec fn view(&self) -> Map<Seq<char>, MetaModel> {
        keyed(self.entries.deep_view())
    }
}

impl MetaTable {
    #[verifier::type_invariant]
    spec fn well_formed(self) -> bool {
        distinct_identifiers(self.entries.deep_view())
    }

    /// A table without descriptions.
    pub fn new() -> (table: MetaTable)
        ensures
            table@ == Map::<Seq<char>, MetaModel>::empty(),
    {
        MetaTable { entries: Vec::new() }
    }

    /// The position of the description called `identifier`, if there is one.
    fn position(&self, identifier: &str) -> (found: Option<usize>)
        ensures
            match found {
                Some(at) => at < self.entries.len() && self.entries[at as int].identifier@
                    == identifier@,
                None => forall|i: int|
                    0 <= i < self.entries.len() ==> self.entries[i].identifier@ != identifier@,
            },
    {
        let mut at: usize = 0;
        while at < self.entries.len()
            invariant
                at <= self.entries.len(),
                forall|i: int| 0 <= i < at ==> self.entries[i].identifier@ != identifier@,
            decreases self.entries.len() - at,
        {
            if same_text(self.entries[at].identifier.as_str(), identifier) {
                return Some(at);
            }
            at += 1;
        }
        None
    }

    /// Puts `meta` under its identifier, in place of the description that
    /// stood there, if any. Returns whether one stood there.
    pub fn insert(&mut self, meta: DetectionMeta) -> (replaced: bool)
        ensures
            final(self)@ == old(self)@.insert(meta@.identifier, meta@),
            replaced == old(self)@.dom().contains(meta@.identifier),
    {
        proof {
            use_type_invariant(&*self);
            lemma_keyed_domain(self.entries.deep_view(), meta@.identifier);
        }
        let ghost before = self.entries.deep_view();
        let position = self.position(meta.identifier.as_str());
        let mut entries: Vec<DetectionMeta> = Vec::new();
        core::mem::swap(&mut self.entries, &mut entries);
        let replaced = match position {
            Some(at) => {
                proof {
                    assert(before[at as int].identifier == meta@.identifier);
                    lemma_keyed_update(before, at as int, meta@);
                }
                entries.set(at, meta);
                assert(entries.deep_view() =~= before.update(at as int, meta@));
                true
            },
            None => {
                entries.push(meta);
                assert(entries.deep_view() =~= before.push(meta@));
                assert(entries.deep_view().drop_last() =~= before);
                false
            },
        };
        self.entries = entries;
        replaced
    }

    /// The description called `identifier`, if the table holds one.
    pub fn get(&self, identifier: &str) -> (found: Option<&DetectionMeta>)
        ensures
            found is Some <==> self@.dom().contains(identifier@),
            found matches Some(meta) ==> meta@ == self@[identifier@] && meta@.identifier
                == identifier@,
    {
        proof {
            use_type_invariant(self);
            lemma_keyed_domain(self.entries.deep_view(), identifier@);
        }
        match self.position(identifier) {
            Some(at) => {
                proof {
                    lemma_keyed_value(self.entries.deep_view(), at as int);
                }
                Some(&self.entries[at])
            },
            None => None,
        }
    }
}

/// What the description `meta` shows once `captures` have filled its templates.
pub open spec fn rendered(meta: MetaModel, captures: Seq<CaptureModel>) -> DetectionModel {
    DetectionModel {
        header: filled(meta.header, captures),
        solutions: meta.solutions.map_values(|template: Seq<char>| filled(template, captures)),
        severity: meta.severity,
    }
}

/// What one returned identifier puts on the report: the rendered description,
/// or nothing where the table has no such description or the description is
/// private.
pub open spec fn finding(
    table: Map<Seq<char>, MetaModel>,
    identifier: Seq<char>,
    captures: Seq<CaptureModel>,
) -> Seq<DetectionModel> {
    if table.dom().contains(identifier) && !table[identifier].private {
        seq![rendered(table[identifier], captures)]
    } else {
        Seq::empty()
    }
}

/// What the output of one rule puts on the report, in order of discovery.
pub open spec fn findings(table: Map<Seq<char>, MetaModel>, output: RawOutputModel) -> Seq<
    DetectionModel,
> {
    match output {
        RawOutputModel::Empty => Seq::empty(),
        RawOutputModel::SingleIdentifier(identifier) => finding(table, identifier, Seq::empty()),
        RawOutputModel::CaptureSet(items) => items.flat_map(
            |item: CapturesModel| finding(table, item.identifier, item.captures),
        ),
    }
}

/// What the outputs of all rules put on the report, in order of discovery.
pub open spec fn discovered(table: Map<Seq<char>, MetaModel>, outputs: Seq<RuleOutputModel>) -> Seq<
    DetectionModel,
> {
    outputs.flat_map(|entry: RuleOutputModel| findings(table, entry.output))
}

/// The description `meta` with `captures` filled in.
fn render(meta: &DetectionMeta, captures: &Vec<Capture>) -> (detection: Detection)
    ensures
        detection@ == rendered(meta@, captures.deep_view()),
{
    let header = fill(meta.header.as_str(), captures);
    let mut solutions: Vec<String> = Vec::new();
    let mut i: usize = 0;
    while i < meta.solutions.len()
        invariant
            i <= meta.solutions.len(),
            solutions.deep_view() == meta.solutions.deep_view().take(i as int).map_values(
                |template: Seq<char>| filled(template, captures.deep_view()),
            ),
        decreases meta.solutions.len() - i,
    {
        let text = fill(meta.solutions[i].as_str(), captures);
        solutions.push(text);
        proof {
            let f = |template: Seq<char>| filled(template, captures.deep_view());
            let all = meta.solutions.deep_view();
            assert(all.take(i + 1).map_values(f) =~= all.take(i as int).map_values(f).push(
                f(all[i as int]),
            ));
        }
        i += 1;
    }
    assert(meta.solutions.deep_view().take(meta.solutions.len() as int)
        =~= meta.solutions.deep_view());
    Detection { header, solutions, severity: meta.severity }
}

/// The description `meta` as it stands, for a finding without captures.
fn render_plain(meta: &DetectionMeta) -> (detection: Detection)
    ensures
        detection@ == rendered(meta@, Seq::empty()),
{
    let solutions = meta.solutions.clone();
    assert(meta.solutions.deep_view().map_values(
        |template: Seq<char>| filled(template, Seq::empty()),
    ) =~= meta.solutions.deep_view());
    Detection { header: meta.header.clone(), solutions, severity: meta.severity }
}

/// What the output of one rule puts on a report: for each identifier that
/// the rule returned, the description found under it in `table`, filled with
/// the captures that came with it. Identifiers without a description and
/// private descriptions give nothing.
pub fn resolve(output: &RawRuleOutput, table: &MetaTable) -> (found: Vec<Detection>)
    ensures
        found.deep_view() == findings(table@, output@),
{
    let mut found: Vec<Detection> = Vec::new();
    match output {
        RawRuleOutput::Empty => {},
        RawRuleOutput::SingleIdentifier(identifier) => {
            match table.get(identifier.as_str()) {
                Some(meta) => {
                    if !meta.private {
                        let detection = render_plain(meta);
                        found.push(detection);
                    }
                },
                None => {},
            }
        },
        RawRuleOutput::CaptureSet(items) => {
            let ghost per_item = |item: CapturesModel|
                finding(table@, item.identifier, item.captures);
            let mut i: usize = 0;
            while i < items.len()
                invariant
                    i <= items.len(),
                    per_item == |item: CapturesModel|
                        finding(table@, item.identifier, item.captures),
                    found.deep_view() == items.deep_view().take(i as int).flat_map(per_item),
                decreases items.len() - i,
            {
                match table.get(items[i].identifier.as_str()) {
                    Some(meta) => {
                        if !meta.private {
                            let detection = render(meta, &items[i].captures);
                            found.push(detection);
                        }
                    },
                    None => {},
                }
                proof {
                    items.deep_view().lemma_flat_map_take_append(per_item, i as int);
                }
                i += 1;
            }
            assert(items.deep_view().take(items.len() as int) =~= items.deep_view());
        },
    }
    found
}

/// The test for a finding of severity `level`.
pub open spec fn of_severity(level: u32) -> spec_fn(DetectionModel) -> bool {
    |detection: DetectionModel| detection.severity == level
}

/// The findings of severity `level` among `items`, in the order in which
/// they stand there.
pub open spec fn severity_class(items: Seq<DetectionModel>, level: u32) -> Seq<DetectionModel> {
    items.filter(of_severity(level))
}

/// No finding stands before a more severe one.
pub open spec fn ordered_by_severity(items: Seq<DetectionModel>) -> bool {
    forall|i: int, j: int| 0 <= i <= j < items.len() ==> items[i].severity <= items[j].severity
}

/// `sorted` holds the findings of `items` in order of severity, and findings
/// of equal severity stand in it as they stood in `items`.
pub open spec fn stable_sort_of(sorted: Seq<DetectionModel>, items: Seq<DetectionModel>) -> bool {
    &&& ordered_by_severity(sorted)
    &&& forall|level: u32| #[trigger]
        severity_class(sorted, level) == severity_class(items, level)
}

/// A class of findings in which `level` does not occur is empty.
proof fn lemma_class_empty(items: Seq<DetectionModel>, level: u32)
    requires
        forall|i: int| 0 <= i < items.len() ==> items[i].severity != level,
    ensures
        severity_class(items, level) == Seq::<DetectionModel>::empty(),
{
    let wanted = of_severity(level);
    items.lemma_all_neg_filter_empty(wanted);
}

/// Putting `next` behind the findings that are at least as severe and before
/// the less severe ones keeps the report sorted and stable.
proof fn lemma_insert_in_order(
    sorted: Seq<DetectionModel>,
    items: Seq<DetectionModel>,
    next: DetectionModel,
    at: int,
)
    requires
        stable_sort_of(sorted, items),
        0 <= at <= sorted.len(),
        forall|i: int| 0 <= i < at ==> sorted[i].severity <= next.severity,
        forall|i: int| at <= i < sorted.len() ==> sorted[i].severity > next.severity,
    ensures
        stable_sort_of(sorted.insert(at, next), items.push(next)),
{
    let after = sorted.insert(at, next);
    let front = sorted.take(at);
    let back = sorted.skip(at);
    assert forall|level: u32| #[trigger]
        severity_class(after, level) == severity_class(items.push(next), level) by {
        let wanted = of_severity(level);
        assert(severity_class(sorted, level) == severity_class(items, level));
        assert(sorted =~= front + back);
        Seq::filter_distributes_over_add(front, back, wanted);
        Seq::filter_distributes_over_add(front + seq![next], back, wanted);
        front.lemma_filter_push(next, wanted);
        items.lemma_filter_push(next, wanted);
        if next.severity == level {
            lemma_class_empty(back, level);
        }
    }
}

/// Where a finding of severity `level` goes in the sorted report: behind
/// every finding that is at least as severe.
fn insertion_point(sorted: &Vec<Detection>, level: u32) -> (at: usize)
    requires
        ordered_by_severity(sorted.deep_view()),
    ensures
        at <= sorted.len(),
        forall|i: int| 0 <= i < at ==> sorted.deep_view()[i].severity <= level,
        forall|i: int| at <= i < sorted.len() ==> sorted.deep_view()[i].severity > level,
{
    let mut at: usize = 0;
    while at < sorted.len() && sorted[at].severity <= level
        invariant
            at <= sorted.len(),
            forall|i: int| 0 <= i < at ==> sorted.deep_view()[i].severity <= level,
        decreases sorted.len() - at,
    {
        at += 1;
    }
    proof {
        if at < sorted.len() {
            assert forall|i: int| at <= i < sorted.len() implies sorted.deep_view()[i].severity
                > level by {
                assert(sorted.deep_view()[at as int].severity <= sorted.deep_view()[i].severity);
            }
        }
    }
    at
}

/// Puts `items` in order of severity, lowest level first. Findings of equal
/// severity keep the order in which they were discovered.
pub fn sort_by_severity(items: Vec<Detection>) -> (sorted: Vec<Detection>)
    ensures
        stable_sort_of(sorted.deep_view(), items.deep_view()),
{
    let ghost given = items.deep_view();
    let ghost mut taken: int = 0;
    let mut rest = items;
    let mut sorted: Vec<Detection> = Vec::new();
    proof {
        assert forall|level: u32| #[trigger]
            severity_class(sorted.deep_view(), level) == severity_class(
                given.take(0),
                level,
            ) by {}
    }
    while rest.len() > 0
        invariant
            0 <= taken <= given.len(),
            rest.deep_view() == given.skip(taken),
            stable_sort_of(sorted.deep_view(), given.take(taken)),
        decreases rest.len(),
    {
        let ghost rest_before = rest.deep_view();
        let ghost sorted_before = sorted.deep_view();
        assert(rest_before.len() == rest@.len());
        let next = rest.remove(0);
        let at = insertion_point(&sorted, next.severity);
        proof {
            lemma_insert_in_order(sorted_before, given.take(taken), next@, at as int);
            assert(next@ == rest_before[0]);
            assert(given.take(taken).push(next@) =~= given.take(taken + 1));
            assert(rest_before.skip(1) =~= given.skip(taken + 1));
        }
        sorted.insert(at, next);
        proof {
            assert(sorted.deep_view() =~= sorted_before.insert(at as int, next@));
            taken = taken + 1;
        }
    }
    assert(given.take(taken) =~= given);
    sorted
}

/// Assembles the report: resolves the output of every rule against `table`,
/// in order of discovery, and sorts what was found by severity.
///
/// An identifier may stand in the report more than once: each finding of a
/// capture set is an entry of its own.
pub fn build(outputs: &Vec<RuleOutput>, table: &MetaTable) -> (report: Vec<Detection>)
    ensures
        stable_sort_of(report.deep_view(), discovered(table@, outputs.deep_view())),
{
    let ghost per_rule = |entry: RuleOutputModel| findings(table@, entry.output);
    let mut found: Vec<Detection> = Vec::new();
    let mut i: usize = 0;
    while i < outputs.len()
        invariant
            i <= outputs.len(),
            per_rule == |entry: RuleOutputModel| findings(table@, entry.output),
            found.deep_view() == outputs.deep_view().take(i as int).flat_map(per_rule),
        decreases outputs.len() - i,
    {
        let mut more = resolve(&outputs[i].output, table);
        found.append(&mut more);
        proof {
            outputs.deep_view().lemma_flat_map_take_append(per_rule, i as int);
        }
        i += 1;
    }
    assert(outputs.deep_view().take(outputs.len() as int) =~= outputs.deep_view());
    sort_by_severity(found)
}

/// A sorted report holds exactly the findings that it was sorted from.
pub proof fn lemma_sorting_keeps_the_findings(
    sorted: Seq<DetectionModel>,
    items: Seq<DetectionModel>,
    detection: DetectionModel,
)
    requires
        stable_sort_of(sorted, items),
    ensures
        sorted.contains(detection) <==> items.contains(detection),
{
    let wanted = of_severity(detection.severity);
    assert(severity_class(sorted, detection.severity) == severity_class(
        items,
        detection.severity,
    ));
    if sorted.contains(detection) {
        let i = choose|i: int| 0 <= i < sorted.len() && sorted[i] == detection;
        sorted.lemma_filter_contains(wanted, i);
        items.lemma_filter_contains_rev(wanted, detection);
    }
    if items.contains(detection) {
        let i = choose|i: int| 0 <= i < items.len() && items[i] == detection;
        items.lemma_filter_contains(wanted, i);
        sorted.lemma_filter_contains_rev(wanted, detection);
    }
}

/// `detection` is what a description of `table` that is not private shows
/// for some captures.
pub open spec fn shown_by(table: Map<Seq<char>, MetaModel>, detection: DetectionModel) -> bool {
    exists|identifier: Seq<char>, captures: Seq<CaptureModel>|
        {
            &&& table.dom().contains(identifier)
            &&& !table[identifier].private
            &&& detection == #[trigger] rendered(table[identifier], captures)
        }
}

/// Whatever the rules returned and however severe it is, every entry of the
/// report is shown by a description that is not private: a private
/// description never reaches the report.
pub proof fn lemma_private_descriptions_are_never_reported(
    table: Map<Seq<char>, MetaModel>,
    outputs: Seq<RuleOutputModel>,
    report: Seq<DetectionModel>,
)
    requires
        stable_sort_of(report, discovered(table, outputs)),
    ensures
        forall|i: int| 0 <= i < report.len() ==> shown_by(table, #[trigger] report[i]),
{
    assert forall|i: int| 0 <= i < report.len() implies shown_by(table, #[trigger] report[i]) by {
        let detection = report[i];
        lemma_sorting_keeps_the_findings(report, discovered(table, outputs), detection);
        let per_rule = |entry: RuleOutputModel| findings(table, entry.output);
        lemma_flat_map_member(outputs, per_rule, detection);
        let j = choose|j: int| 0 <= j < outputs.len() && per_rule(outputs[j]).contains(detection);
        match outputs[j].output {
            RawOutputModel::Empty => {},
            RawOutputModel::SingleIdentifier(identifier) => {
                assert(detection == rendered(table[identifier], Seq::empty()));
            },
            RawOutputModel::CaptureSet(items) => {
                let per_item = |item: CapturesModel|
                    finding(table, item.identifier, item.captures);
                lemma_flat_map_member(items, per_item, detection);
                let m = choose|m: int| 0 <= m < items.len() && per_item(items[m]).contains(
                    detection,
                );
                assert(detection == rendered(table[items[m].identifier], items[m].captures));
            },
        }
    }
}

/// Where every description is private, the report is empty.
pub proof fn lemma_private_table_gives_empty_report(
    table: Map<Seq<char>, MetaModel>,
    outputs: Seq<RuleOutputModel>,
    report: Seq<DetectionModel>,
)
    requires
        stable_sort_of(report, discovered(table, outputs)),
        forall|identifier: Seq<char>|
            table.dom().contains(identifier) ==> (#[trigger] table[identifier]).private,
    ensures
        report.len() == 0,
{
    lemma_private_descriptions_are_never_reported(table, outputs, report);
    if report.len() > 0 {
        assert(shown_by(table, report[0]));
    }
}

/// An output that holds nothing changes nothing in what was discovered.
pub proof fn lemma_empty_output_discovers_nothing(
    table: Map<Seq<char>, MetaModel>,
    outputs: Seq<RuleOutputModel>,
    at: int,
)
    requires
        0 <= at < outputs.len(),
        outputs[at].output == RawOutputModel::Empty,
    ensures
        discovered(table, outputs) == discovered(table, outputs.remove(at)),
{
    let per_rule = |entry: RuleOutputModel| findings(table, entry.output);
    let front = outputs.take(at);
    let back = outputs.skip(at + 1);
    let here = seq![outputs[at]];
    assert(outputs =~= (front + here) + back);
    lemma_flat_map_concat(front + here, back, per_rule);
    lemma_flat_map_concat(front, here, per_rule);
    lemma_flat_map_concat(front, back, per_rule);
    here.lemma_flat_map_singleton(per_rule);
}

/// Two reports in order of severity that agree on the findings of every
/// level, order included, are one and the same.
proof fn lemma_ordered_with_equal_classes(first: Seq<DetectionModel>, second: Seq<DetectionModel>)
    requires
        ordered_by_severity(first),
        ordered_by_severity(second),
        forall|level: u32| #[trigger]
            severity_class(first, level) == severity_class(second, level),
    ensures
        first == second,
    decreases first.len(),
{
    if first.len() == 0 {
        if second.len() > 0 {
            let level = second[0].severity;
            second.lemma_filter_contains(of_severity(level), 0);
            assert(severity_class(first, level) == severity_class(second, level));
            reveal(Seq::filter);
        }
    } else {
        let x = first.last();
        let level = x.severity;
        let wanted = of_severity(level);
        let front = first.drop_last();
        assert(front.push(x) =~= first);
        front.lemma_filter_push(x, wanted);
        assert(severity_class(first, level) == severity_class(second, level));
        second.lemma_filter_len(wanted);
        let y = second.last();
        let other_front = second.drop_last();
        assert(other_front.push(y) =~= second);
        assert(y.severity == level) by {
            let other_level = y.severity;
            let other_wanted = of_severity(other_level);
            assert(severity_class(first, other_level) == severity_class(second, other_level));
            second.lemma_filter_contains(other_wanted, second.len() - 1);
            first.lemma_filter_contains_rev(other_wanted, y);
            first.lemma_filter_contains(wanted, first.len() - 1);
            second.lemma_filter_contains_rev(wanted, x);
        }
        other_front.lemma_filter_push(y, wanted);
        assert(x == y) by {
            assert(other_front.filter(wanted).push(y).last() == y);
        }
        assert forall|other: u32| #[trigger]
            severity_class(front, other) == severity_class(other_front, other) by {
            let other_wanted = of_severity(other);
            front.lemma_filter_push(x, other_wanted);
            other_front.lemma_filter_push(y, other_wanted);
            assert(severity_class(first, other) == severity_class(second, other));
            if other == level {
                assert(other_front.filter(wanted).push(y).drop_last() =~= other_front.filter(
                    wanted,
                ));
            }
        }
        lemma_ordered_with_equal_classes(front, other_front);
    }
}

/// Sorting by severity has one result: what is sorted and stable with
/// respect to the same findings is the same report.
pub proof fn lemma_stable_sort_is_unique(
    first: Seq<DetectionModel>,
    second: Seq<DetectionModel>,
    items: Seq<DetectionModel>,
)
    requires
        stable_sort_of(first, items),
        stable_sort_of(second, items),
    ensures
        first == second,
{
    lemma_ordered_with_equal_classes(first, second);
}

} // verus!
