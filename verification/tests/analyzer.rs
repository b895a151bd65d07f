use copycat::paste::analyzer::{PasteAnalyzer, PasteType, STRUCTURED_LIMIT};

fn classify(content: &[u8]) -> PasteType {
    PasteAnalyzer::new().paste_type(content)
}

/// A JSON array of more than a million bytes: `[1,1,1,...,1]`.
fn oversized_json(marker: &str) -> Vec<u8> {
    let mut text = String::from("[");
    text.push_str(&format!("\"{}\"", marker));
    while text.len() <= STRUCTURED_LIMIT {
        text.push_str(",1");
    }
    text.push(']');
    text.into_bytes()
}

#[test]
fn json_document_is_json() {
    assert_eq!(classify(b"{\"a\": 1, \"b\": [true, null]}"), PasteType::Json);
    assert_eq!(classify(b"[1, 2, 3]"), PasteType::Json);
    assert_eq!(classify(b"\"just a string\""), PasteType::Json);
    assert_eq!(classify(b"42"), PasteType::Json);
}

#[test]
fn json_with_a_log_marker_is_still_json() {
    assert_eq!(classify(b"{\"level\": \"ERROR\"}"), PasteType::Json);
}

#[test]
fn yaml_document_that_is_no_json_is_yaml() {
    assert_eq!(classify(b"name: server\nports:\n  - 25565\n  - 25566\n"), PasteType::Yaml);
    assert_eq!(classify(b"- a\n- b\n"), PasteType::Yaml);
}

#[test]
fn yaml_with_a_log_marker_is_still_yaml() {
    assert_eq!(classify(b"level: WARN\n"), PasteType::Yaml);
}

#[test]
fn log_lines_are_a_log() {
    let log = b"[12:00:00] [Server thread/INFO]: Starting minecraft server\n[12:00:01] [Server thread/WARN]: Something is odd\n";
    assert!(serde_json::from_slice::<serde_json::Value>(log).is_err());
    assert!(serde_yaml::from_slice::<serde_yaml::Value>(log).is_err());
    assert_eq!(classify(log), PasteType::Log);
}

#[test]
fn text_that_is_nothing_else_is_other() {
    let text = b"@ this is neither a document nor a log: {";
    assert!(serde_json::from_slice::<serde_json::Value>(text).is_err());
    assert!(serde_yaml::from_slice::<serde_yaml::Value>(text).is_err());
    assert_eq!(classify(text), PasteType::Other);
}

#[test]
fn the_parsers_decide_for_small_content() {
    let samples: Vec<&[u8]> = vec![
        b"",
        b"{}",
        b"a: b",
        b"{ unclosed",
        b"\tINFO tab first",
        b"plain words",
        b"[1, 2",
        b"key: [ERROR",
    ];
    for sample in samples {
        let json = serde_json::from_slice::<serde_json::Value>(sample).is_ok();
        let yaml = serde_yaml::from_slice::<serde_yaml::Value>(sample).is_ok();
        let analyzer = PasteAnalyzer::new();
        let expected = if json {
            PasteType::Json
        } else if yaml {
            PasteType::Yaml
        } else if analyzer.is_log(sample) {
            PasteType::Log
        } else {
            PasteType::Other
        };
        assert_eq!(analyzer.paste_type(sample), expected);
        assert_eq!(analyzer.decide(sample, json, yaml), expected);
    }
}

#[test]
fn oversized_json_is_not_parsed() {
    let content = oversized_json("quiet");
    assert!(content.len() > STRUCTURED_LIMIT);
    assert!(serde_json::from_slice::<serde_json::Value>(&content).is_ok());
    assert_eq!(classify(&content), PasteType::Other);
}

#[test]
fn oversized_json_with_a_marker_is_a_log() {
    let content = oversized_json("SEVERE");
    assert!(content.len() > STRUCTURED_LIMIT);
    assert!(serde_json::from_slice::<serde_json::Value>(&content).is_ok());
    assert_eq!(classify(&content), PasteType::Log);
}

#[test]
fn content_at_the_limit_is_still_parsed() {
    let mut content = b"[1, 2, 3]".to_vec();
    while content.len() < STRUCTURED_LIMIT {
        content.push(b' ');
    }
    assert_eq!(content.len(), 1_000_000);
    assert_eq!(classify(&content), PasteType::Json);
    content.push(b' ');
    assert_eq!(classify(&content), PasteType::Other);
}

#[test]
fn classifying_twice_gives_the_same_kind() {
    let samples: Vec<&[u8]> = vec![b"{\"a\": 1}", b"a: 1", b"x ERROR y {", b"@ {", b""];
    for sample in samples {
        assert_eq!(classify(sample), classify(sample));
        let copy = sample.to_vec();
        assert_eq!(classify(sample), classify(&copy));
    }
}

#[test]
fn each_marker_makes_a_log() {
    let analyzer = PasteAnalyzer::new();
    assert!(analyzer.is_log(b"xx INFO xx"));
    assert!(analyzer.is_log(b"WARN"));
    assert!(analyzer.is_log(b"an ERROR"));
    assert!(analyzer.is_log(b"SEVERE trouble"));
    assert!(!analyzer.is_log(b""));
    assert!(!analyzer.is_log(b"nothing to see"));
    assert!(!analyzer.is_log(b"INF"));
    assert!(!analyzer.is_log(b"SEVER"));
    assert!(!analyzer.is_log(b"ERRO R"));
}

#[test]
fn markers_are_case_sensitive_and_need_no_word_boundary() {
    let analyzer = PasteAnalyzer::new();
    assert!(!analyzer.is_log(b"info warn error severe"));
    assert!(!analyzer.is_log(b"Info Warn Error Severe"));
    assert!(analyzer.is_log(b"INFORMATION"));
    assert!(analyzer.is_log(b"FOREWARNED"));
    assert!(analyzer.is_log(b"PERSEVERED? no: XSEVEREX"));
}

#[test]
fn markers_are_found_among_bytes_that_are_no_text() {
    let analyzer = PasteAnalyzer::new();
    assert!(analyzer.is_log(b"\xff\xfeERROR\xff"));
    assert!(analyzer.is_log(&[0xc3, b'W', b'A', b'R', b'N']));
    assert!(!analyzer.is_log(&[b'W', b'A', 0xff, b'R', b'N']));
    assert_eq!(classify(b"\xff\xfeERROR\xff"), PasteType::Log);
    assert_eq!(classify(b"\xff\xfe\xff"), PasteType::Other);
}

#[test]
fn decide_follows_the_parsers_up_to_the_limit() {
    let analyzer = PasteAnalyzer::new();
    assert_eq!(analyzer.decide(b"x", true, false), PasteType::Json);
    assert_eq!(analyzer.decide(b"x", true, true), PasteType::Json);
    assert_eq!(analyzer.decide(b"x", false, true), PasteType::Yaml);
    assert_eq!(analyzer.decide(b"x", false, false), PasteType::Other);
    assert_eq!(analyzer.decide(b"INFO", false, false), PasteType::Log);
    assert_eq!(analyzer.decide(b"INFO", false, true), PasteType::Yaml);
    let big = vec![b'a'; STRUCTURED_LIMIT + 1];
    assert_eq!(analyzer.decide(&big, true, true), PasteType::Other);
    let mut big_log = vec![b'a'; STRUCTURED_LIMIT + 1];
    big_log.extend_from_slice(b"WARN");
    assert_eq!(analyzer.decide(&big_log, true, true), PasteType::Log);
}

#[test]
fn kinds_are_kept_under_their_lowercase_names() {
    assert_eq!(PasteType::Log.as_str(), "log");
    assert_eq!(PasteType::Json.as_str(), "json");
    assert_eq!(PasteType::Yaml.as_str(), "yaml");
    assert_eq!(PasteType::Other.as_str(), "other");
}

#[test]
fn names_read_back_as_their_kinds() {
    assert_eq!(PasteType::from("log".to_string()), PasteType::Log);
    assert_eq!(PasteType::from("json".to_string()), PasteType::Json);
    assert_eq!(PasteType::from("yaml".to_string()), PasteType::Yaml);
    assert_eq!(PasteType::from("other".to_string()), PasteType::Other);
    for kind in [PasteType::Log, PasteType::Json, PasteType::Yaml, PasteType::Other] {
        assert_eq!(PasteType::from(kind.as_str().to_string()), kind);
        assert_eq!(PasteType::from_name(kind.as_str()), Some(kind));
    }
}

#[test]
fn unknown_names_read_back_as_other() {
    assert_eq!(PasteType::from("".to_string()), PasteType::Other);
    assert_eq!(PasteType::from("LOG".to_string()), PasteType::Other);
    assert_eq!(PasteType::from("logs".to_string()), PasteType::Other);
    assert_eq!(PasteType::from("toml".to_string()), PasteType::Other);
    assert_eq!(PasteType::from_name(""), None);
    assert_eq!(PasteType::from_name("LOG"), None);
    assert_eq!(PasteType::from_name("toml"), None);
}
