use copycat::detections::get_detections;
use copycat::report::{Captures, DetectionMeta, MetaTable, RawRuleOutput};
use copycat::rules::{DetectionRule, Facts, Platform, RuleBucket, RuleEngine, RuleOutcome};
use copycat::template::Capture;
use std::cell::RefCell;

fn rule(id: &str, bucket: RuleBucket) -> DetectionRule {
    DetectionRule { id: id.to_string(), bucket }
}

fn describe(identifier: &str, header: &str, solutions: &[&str], severity: u32, private: bool) -> DetectionMeta {
    DetectionMeta {
        identifier: identifier.to_string(),
        header: header.to_string(),
        solutions: solutions.iter().map(|text| text.to_string()).collect(),
        severity,
        private,
    }
}

fn sample_engine() -> RuleEngine {
    let mut engine = RuleEngine::new();
    engine.register(rule("velocity-only", RuleBucket::Velocity));
    engine.register(rule("no-proxy", RuleBucket::NoProxy));
    engine.register(rule("bukkit-plugins", RuleBucket::Bukkit));
    engine.register(rule("global-java", RuleBucket::Global));
    engine.register(rule("fabric-mods", RuleBucket::Fabric));
    engine.register(rule("forge-mods", RuleBucket::Forge));
    engine.register(rule("bungee-forwarding", RuleBucket::BungeeCord));
    engine.register(rule("global-memory", RuleBucket::Global));
    engine.register(rule("bukkit-world", RuleBucket::Bukkit));
    engine
}

fn descriptions() -> MetaTable {
    let mut table = MetaTable::new();
    table.insert(describe(
        "no-proxy-warning",
        "The server is not behind a proxy",
        &["Put the server behind a proxy", "Or enable online mode"],
        2,
        false,
    ));
    table.insert(describe("old-java", "Java is outdated", &["Update Java"], 1, false));
    table.insert(describe("plugin", "Found plugin {name} on {port}", &["Remove {name}"], 3, false));
    table.insert(describe("velocity", "Velocity misconfigured", &[], 0, false));
    table
}

fn selected_ids(engine: &RuleEngine, platform: Platform, is_proxy: bool) -> Vec<String> {
    engine.select(&Facts { platform, is_proxy }).iter().map(|rule| rule.id.clone()).collect()
}

#[test]
fn a_paper_server_that_is_no_proxy_runs_three_buckets() {
    let facts = Facts { platform: Platform::Paper, is_proxy: false };
    assert_eq!(facts.buckets(), vec![RuleBucket::Global, RuleBucket::Bukkit, RuleBucket::NoProxy]);
}

#[test]
fn a_proxy_does_not_run_the_rules_for_servers_that_are_none() {
    let facts = Facts { platform: Platform::Velocity, is_proxy: true };
    assert_eq!(facts.buckets(), vec![RuleBucket::Global, RuleBucket::Velocity]);
    let facts = Facts { platform: Platform::Waterfall, is_proxy: true };
    assert_eq!(facts.buckets(), vec![RuleBucket::Global, RuleBucket::BungeeCord]);
}

#[test]
fn the_unmodified_server_has_no_bucket_of_its_own() {
    assert_eq!(Platform::Vanilla.bucket(), None);
    let facts = Facts { platform: Platform::Vanilla, is_proxy: false };
    assert_eq!(facts.buckets(), vec![RuleBucket::Global, RuleBucket::NoProxy]);
    let facts = Facts { platform: Platform::Vanilla, is_proxy: true };
    assert_eq!(facts.buckets(), vec![RuleBucket::Global]);
}

#[test]
fn each_platform_has_at_most_one_bucket() {
    assert_eq!(Platform::CraftBukkit.bucket(), Some(RuleBucket::Bukkit));
    assert_eq!(Platform::Spigot.bucket(), Some(RuleBucket::Bukkit));
    assert_eq!(Platform::Paper.bucket(), Some(RuleBucket::Bukkit));
    assert_eq!(Platform::Pufferfish.bucket(), Some(RuleBucket::Bukkit));
    assert_eq!(Platform::Purpur.bucket(), Some(RuleBucket::Bukkit));
    assert_eq!(Platform::Fabric.bucket(), Some(RuleBucket::Fabric));
    assert_eq!(Platform::Forge.bucket(), Some(RuleBucket::Forge));
    assert_eq!(Platform::BungeeCord.bucket(), Some(RuleBucket::BungeeCord));
    assert_eq!(Platform::Waterfall.bucket(), Some(RuleBucket::BungeeCord));
    assert_eq!(Platform::Velocity.bucket(), Some(RuleBucket::Velocity));
}

#[test]
fn rules_run_bucket_by_bucket_in_the_order_of_registration() {
    let engine = sample_engine();
    assert_eq!(
        selected_ids(&engine, Platform::Paper, false),
        vec!["global-java", "global-memory", "bukkit-plugins", "bukkit-world", "no-proxy"]
    );
    assert_eq!(selected_ids(&engine, Platform::Velocity, true), vec!["global-java", "global-memory", "velocity-only"]);
    assert_eq!(selected_ids(&engine, Platform::Vanilla, true), vec!["global-java", "global-memory"]);
    assert_eq!(
        selected_ids(&engine, Platform::Forge, false),
        vec!["global-java", "global-memory", "forge-mods", "no-proxy"]
    );
}

#[test]
fn the_rules_of_a_bucket_come_in_the_order_of_registration() {
    let engine = sample_engine();
    let ids: Vec<&str> = engine.scripts(RuleBucket::Bukkit).iter().map(|rule| rule.id.as_str()).collect();
    assert_eq!(ids, vec!["bukkit-plugins", "bukkit-world"]);
    assert!(RuleEngine::new().scripts(RuleBucket::Global).is_empty());
    assert!(RuleEngine::new().select(&Facts { platform: Platform::Paper, is_proxy: false }).is_empty());
}

#[test]
fn a_paper_log_gets_the_warning_of_the_no_proxy_rule() {
    let engine = sample_engine();
    let table = descriptions();
    let lines = vec!["[12:00:00 INFO]: This server is running Paper".to_string()];
    let facts = Facts { platform: Platform::Paper, is_proxy: false };
    let ran: RefCell<Vec<String>> = RefCell::new(Vec::new());
    let report = get_detections(&engine, &table, &lines, &facts, |rule, seen_lines, seen_facts| {
        assert_eq!(seen_lines, &lines);
        assert_eq!(seen_facts, &facts);
        ran.borrow_mut().push(rule.id.clone());
        match rule.id.as_str() {
            "no-proxy" => RuleOutcome::Completed(RawRuleOutput::SingleIdentifier("no-proxy-warning".to_string())),
            "velocity-only" => panic!("a rule of another platform ran"),
            _ => RuleOutcome::Completed(RawRuleOutput::Empty),
        }
    });
    assert_eq!(
        ran.into_inner(),
        vec!["global-java", "global-memory", "bukkit-plugins", "bukkit-world", "no-proxy"]
    );
    assert_eq!(report.len(), 1);
    assert_eq!(report[0].header, "The server is not behind a proxy");
    assert_eq!(report[0].solutions, vec!["Put the server behind a proxy", "Or enable online mode"]);
    assert_eq!(report[0].severity, 2);
}

#[test]
fn a_failing_rule_contributes_nothing_and_stops_no_other() {
    let engine = sample_engine();
    let lines = Vec::new();
    let facts = Facts { platform: Platform::Paper, is_proxy: false };
    let outputs = engine.run(&lines, &facts, |rule, _, _| match rule.id.as_str() {
        "global-java" => RuleOutcome::Completed(RawRuleOutput::SingleIdentifier("old-java".to_string())),
        "global-memory" => RuleOutcome::Failed,
        "bukkit-plugins" => RuleOutcome::Malformed,
        "no-proxy" => RuleOutcome::Completed(RawRuleOutput::SingleIdentifier("no-proxy-warning".to_string())),
        _ => RuleOutcome::Completed(RawRuleOutput::Empty),
    });
    let ids: Vec<&str> = outputs.iter().map(|entry| entry.rule.as_str()).collect();
    assert_eq!(ids, vec!["global-java", "global-memory", "bukkit-plugins", "bukkit-world", "no-proxy"]);
    assert!(matches!(outputs[0].output, RawRuleOutput::SingleIdentifier(_)));
    assert!(matches!(outputs[1].output, RawRuleOutput::Empty));
    assert!(matches!(outputs[2].output, RawRuleOutput::Empty));
    assert!(matches!(outputs[3].output, RawRuleOutput::Empty));
    assert!(matches!(outputs[4].output, RawRuleOutput::SingleIdentifier(_)));

    let report = get_detections(&engine, &descriptions(), &lines, &facts, |rule, _, _| match rule.id.as_str() {
        "global-java" => RuleOutcome::Completed(RawRuleOutput::SingleIdentifier("old-java".to_string())),
        "global-memory" => RuleOutcome::Failed,
        "bukkit-plugins" => RuleOutcome::Malformed,
        "no-proxy" => RuleOutcome::Completed(RawRuleOutput::SingleIdentifier("no-proxy-warning".to_string())),
        _ => RuleOutcome::Completed(RawRuleOutput::Empty),
    });
    let headers: Vec<&str> = report.iter().map(|detection| detection.header.as_str()).collect();
    assert_eq!(headers, vec!["Java is outdated", "The server is not behind a proxy"]);
}

#[test]
fn every_rule_failing_gives_an_empty_report() {
    let engine = sample_engine();
    let facts = Facts { platform: Platform::Fabric, is_proxy: false };
    let report = get_detections(&engine, &descriptions(), &Vec::new(), &facts, |_, _, _| RuleOutcome::Failed);
    assert!(report.is_empty());
}

#[test]
fn outcomes_turn_into_contributions() {
    assert!(matches!(RuleOutcome::Failed.into_output(), RawRuleOutput::Empty));
    assert!(matches!(RuleOutcome::Malformed.into_output(), RawRuleOutput::Empty));
    assert!(matches!(RuleOutcome::Completed(RawRuleOutput::Empty).into_output(), RawRuleOutput::Empty));
    match RuleOutcome::Completed(RawRuleOutput::SingleIdentifier("x".to_string())).into_output() {
        RawRuleOutput::SingleIdentifier(identifier) => assert_eq!(identifier, "x"),
        other => panic!("unexpected contribution {:?}", other),
    }
    let set = vec![Captures { identifier: "plugin".to_string(), captures: Vec::new() }];
    match RuleOutcome::Completed(RawRuleOutput::CaptureSet(set)).into_output() {
        RawRuleOutput::CaptureSet(items) => {
            assert_eq!(items.len(), 1);
            assert_eq!(items[0].identifier, "plugin");
        }
        other => panic!("unexpected contribution {:?}", other),
    }
}

#[test]
fn findings_of_all_rules_are_sorted_together() {
    let engine = sample_engine();
    let facts = Facts { platform: Platform::Spigot, is_proxy: false };
    let report = get_detections(&engine, &descriptions(), &Vec::new(), &facts, |rule, _, _| match rule.id.as_str() {
        "global-java" => RuleOutcome::Completed(RawRuleOutput::CaptureSet(vec![
            Captures {
                identifier: "plugin".to_string(),
                captures: vec![
                    Capture { name: "name".to_string(), value: "Foo".to_string() },
                    Capture { name: "port".to_string(), value: "25565".to_string() },
                ],
            },
            Captures { identifier: "unknown".to_string(), captures: Vec::new() },
        ])),
        "bukkit-world" => RuleOutcome::Completed(RawRuleOutput::SingleIdentifier("old-java".to_string())),
        "no-proxy" => RuleOutcome::Completed(RawRuleOutput::SingleIdentifier("no-proxy-warning".to_string())),
        _ => RuleOutcome::Completed(RawRuleOutput::Empty),
    });
    let shown: Vec<(u32, &str)> = report.iter().map(|detection| (detection.severity, detection.header.as_str())).collect();
    assert_eq!(
        shown,
        vec![(1, "Java is outdated"), (2, "The server is not behind a proxy"), (3, "Found plugin Foo on 25565")]
    );
    assert_eq!(report[2].solutions, vec!["Remove Foo"]);
}
