//! Sniffing the kind of a paste from its bytes.
//!
//! Content of at most [`STRUCTURED_LIMIT`] bytes is first offered to a JSON
//! parser and then to a YAML parser; JSON goes first because a JSON document
//! is a YAML document too. What neither accepts, and everything larger, is a
//! log if it holds one of the level markers of a log line, and other text if
//! not.

use vstd::prelude::*;
use vstd::std_specs::convert::FromSpecImpl;
use crate::text::{contains, occurs, same_text};

verus! {

/// The kind of content that a paste holds.
#[derive(Clone, Copy, Debug, PartialEq, Eq, Structural)]
pub enum PasteType {
    Log,
    Json,
    Yaml,
    Other,
}

/// Content above this size is not offered to the JSON and YAML parsers.
pub const STRUCTURED_LIMIT: usize = 1_000_000;

/// Whether `serde_json` reads `content` as one JSON document.
pub uninterp spec fn json_document(content: Seq<u8>) -> bool;

/// Whether `serde_yaml` reads `content` as one YAML document.
pub uninterp spec fn yaml_document(content: Seq<u8>) -> bool;

/// The bytes of `INFO`.
pub open spec fn marker_info() -> Seq<u8> {
    seq![73u8, 78u8, 70u8, 79u8]
}

/// The bytes of `WARN`.
pub open spec fn marker_warn() -> Seq<u8> {
    seq![87u8, 65u8, 82u8, 78u8]
}

/// The bytes of `ERROR`.
pub open spec fn marker_error() -> Seq<u8> {
    seq![69u8, 82u8, 82u8, 79u8, 82u8]
}

/// The bytes of `SEVERE`.
pub open spec fn marker_severe() -> Seq<u8> {
    seq![83u8, 69u8, 86u8, 69u8, 82u8, 69u8]
}

/// `content` holds the name of a log level, in capitals, anywhere, whether it
/// stands there as a word of its own or not.
pub open spec fn has_log_marker(content: Seq<u8>) -> bool {
    ||| occurs(content, marker_info())
    ||| occurs(content, marker_warn())
    ||| occurs(content, marker_error())
    ||| occurs(content, marker_severe())
}

/// The kind of `content` by its log markers alone.
pub open spec fn kind_by_markers(content: Seq<u8>) -> PasteType {
    if has_log_marker(content) {
        PasteType::Log
    } else {
        PasteType::Other
    }
}

/// The kind of `content`, given what the two parsers say of it.
pub open spec fn kind_given(content: Seq<u8>, json: bool, yaml: bool) -> PasteType {
    if content.len() > STRUCTURED_LIMIT {
        kind_by_markers(content)
    } else if json {
        PasteType::Json
    } else if yaml {
        PasteType::Yaml
    } else {
        kind_by_markers(content)
    }
}

/// The kind of `content`.
pub open spec fn kind_of(content: Seq<u8>) -> PasteType {
    kind_given(content, json_document(content), yaml_document(content))
}

/// Calls `serde_json::from_slice` for a `serde_json::Value` and tells whether
/// it returned `Ok`. The parser reads nothing but the bytes it is given, so
/// the answer is a function of these bytes; the contract gives that function
/// its name and claims nothing else of it. To keep the cost of sniffing
/// bounded, the parser is never offered more than [`STRUCTURED_LIMIT`] bytes.
#[verifier::external_body]
fn parses_as_json(content: &[u8]) -> (accepted: bool)
    requires
        content@.len() <= STRUCTURED_LIMIT,
    ensures
        accepted == json_document(content@),
{
    serde_json::from_slice::<serde_json::Value>(content).is_ok()
}

/// Calls `serde_yaml::from_slice` for a `serde_yaml::Value` and tells whether
/// it returned `Ok`. The parser reads nothing but the bytes it is given, so
/// the answer is a function of these bytes; the contract gives that function
/// its name and claims nothing else of it. The parser is never offered more
/// than [`STRUCTURED_LIMIT`] bytes, and never a JSON document: a JSON
/// document is a YAML document too, and has its kind already.
#[verifier::external_body]
fn parses_as_yaml(content: &[u8]) -> (accepted: bool)
    requires
        content@.len() <= STRUCTURED_LIMIT,
        !json_document(content@),
    ensures
        accepted == yaml_document(content@),
{
    serde_yaml::from_slice::<serde_yaml::Value>(content).is_ok()
}

/// Sniffs the kind of a paste.
pub struct PasteAnalyzer;

impl PasteAnalyzer {
    /// An analyzer. It holds nothing: the kind of a paste depends on the
    /// paste alone.
    pub fn new() -> (analyzer: PasteAnalyzer) {
        PasteAnalyzer
    }

    /// Whether the content looks like a log: it holds `INFO`, `WARN`, `ERROR`
    /// or `SEVERE` somewhere. The markers are looked for among the bytes as
    /// they are, whether the bytes around them are text or not.
    pub fn is_log(&self, paste_content: &[u8]) -> (log: bool)
        ensures
            log == has_log_marker(paste_content@),
    {
        let info: [u8; 4] = [73, 78, 70, 79];
        let warn: [u8; 4] = [87, 65, 82, 78];
        let error: [u8; 5] = [69, 82, 82, 79, 82];
        let severe: [u8; 6] = [83, 69, 86, 69, 82, 69];
        contains(paste_content, info.as_slice()) || contains(paste_content, warn.as_slice())
            || contains(paste_content, error.as_slice()) || contains(
            paste_content,
            severe.as_slice(),
        )
    }

    /// The kind of the content once the parsers have spoken: `json` and `yaml`
    /// say whether the JSON parser and the YAML parser accepted it. Neither
    /// answer counts for content above [`STRUCTURED_LIMIT`].
    pub fn decide(&self, paste_content: &[u8], json: bool, yaml: bool) -> (kind: PasteType)
        ensures
            kind == kind_given(paste_content@, json, yaml),
    {
        if paste_content.len() <= STRUCTURED_LIMIT && json {
            PasteType::Json
        } else if paste_content.len() <= STRUCTURED_LIMIT && yaml {
            PasteType::Yaml
        } else if self.is_log(paste_content) {
            PasteType::Log
        } else {
            PasteType::Other
        }
    }

    /// The kind of the content. The parsers are asked only about content of
    /// at most [`STRUCTURED_LIMIT`] bytes, and the YAML parser only about what
    /// the JSON parser refused.
    pub fn paste_type(&self, paste_content: &[u8]) -> (kind: PasteType)
        ensures
            kind == kind_of(paste_content@),
    {
        let small = paste_content.len() <= STRUCTURED_LIMIT;
        let json = small && parses_as_json(paste_content);
        let yaml = small && !json && parses_as_yaml(paste_content);
        self.decide(paste_content, json, yaml)
    }
}

/// Content above the limit is classified by its log markers alone, whatever
/// the parsers would say of it.
pub proof fn lemma_oversized_content_is_never_parsed(content: Seq<u8>, json: bool, yaml: bool)
    requires
        content.len() > STRUCTURED_LIMIT,
    ensures
        kind_given(content, json, yaml) == kind_by_markers(content),
        kind_of(content) == kind_by_markers(content),
        kind_of(content) != PasteType::Json,
        kind_of(content) != PasteType::Yaml,
{
}

/// A JSON document within the limit is classified as JSON, and so never as
/// YAML, although it is a YAML document too.
pub proof fn lemma_json_document_is_json(content: Seq<u8>)
    requires
        content.len() <= STRUCTURED_LIMIT,
        json_document(content),
    ensures
        kind_of(content) == PasteType::Json,
{
}

/// A YAML document within the limit that is no JSON document is classified
/// as YAML.
pub proof fn lemma_yaml_document_is_yaml(content: Seq<u8>)
    requires
        content.len() <= STRUCTURED_LIMIT,
        yaml_document(content),
        !json_document(content),
    ensures
        kind_of(content) == PasteType::Yaml,
{
}

/// The kind depends on the bytes alone: the same bytes are classified alike,
/// however often and wherever they are classified.
pub proof fn lemma_kind_is_a_function_of_the_bytes(first: Seq<u8>, second: Seq<u8>)
    requires
        first.len() == second.len(),
        forall|i: int| 0 <= i < first.len() ==> first[i] == second[i],
    ensures
        kind_of(first) == kind_of(second),
{
    assert(first =~= second);
}

impl PasteType {
    /// The text under which this kind is kept in the classification cache.
    pub open spec fn cache_text(self) -> Seq<char> {
        match self {
            PasteType::Log => seq!['l', 'o', 'g'],
            PasteType::Json => seq!['j', 's', 'o', 'n'],
            PasteType::Yaml => seq!['y', 'a', 'm', 'l'],
            PasteType::Other => seq!['o', 't', 'h', 'e', 'r'],
        }
    }

    /// The text under which this kind is kept in the classification cache.
    pub fn as_str(self) -> (text: &'static str)
        ensures
            text@ == self.cache_text(),
    {
        proof {
            reveal_strlit("log");
            reveal_strlit("json");
            reveal_strlit("yaml");
            reveal_strlit("other");
        }
        match self {
            PasteType::Log => "log",
            PasteType::Json => "json",
            PasteType::Yaml => "yaml",
            PasteType::Other => "other",
        }
    }
}

/// The kind whose name `text` is, if it is the name of one.
pub open spec fn named_kind(text: Seq<char>) -> Option<PasteType> {
    if text == PasteType::Log.cache_text() {
        Some(PasteType::Log)
    } else if text == PasteType::Json.cache_text() {
        Some(PasteType::Json)
    } else if text == PasteType::Yaml.cache_text() {
        Some(PasteType::Yaml)
    } else if text == PasteType::Other.cache_text() {
        Some(PasteType::Other)
    } else {
        None
    }
}

/// The kind that a text from the classification cache stands for. A text
/// that is none of the four names stands for other content.
pub open spec fn kind_from_text(text: Seq<char>) -> PasteType {
    match named_kind(text) {
        Some(kind) => kind,
        None => PasteType::Other,
    }
}

/// Reading back the text of a kind gives that kind.
pub proof fn lemma_cache_text_round_trip(kind: PasteType)
    ensures
        kind_from_text(kind.cache_text()) == kind,
{
}

impl PasteType {
    /// The kind called `text`, or `None` where `text` is no name of a kind.
    pub fn from_name(text: &str) -> (kind: Option<PasteType>)
        ensures
            kind == named_kind(text@),
    {
        proof {
            reveal_strlit("log");
            reveal_strlit("json");
            reveal_strlit("yaml");
            reveal_strlit("other");
            assert("log"@ =~= PasteType::Log.cache_text());
            assert("json"@ =~= PasteType::Json.cache_text());
            assert("yaml"@ =~= PasteType::Yaml.cache_text());
            assert("other"@ =~= PasteType::Other.cache_text());
        }
        if same_text(text, "log") {
            Some(PasteType::Log)
        } else if same_text(text, "json") {
            Some(PasteType::Json)
        } else if same_text(text, "yaml") {
            Some(PasteType::Yaml)
        } else if same_text(text, "other") {
            Some(PasteType::Other)
        } else {
            None
        }
    }
}

impl From<String> for PasteType {
    /// Reads a kind back from the classification cache. An unknown text
    /// reads as other content.
    fn from(paste_type: String) -> (kind: PasteType) {
        match PasteType::from_name(paste_type.as_str()) {
            Some(kind) => kind,
            None => PasteType::Other,
        }
    }
}

impl FromSpecImpl<String> for PasteType {
    open spec fn obeys_from_spec() -> bool {
        true
    }

    open spec fn from_spec(paste_type: String) -> PasteType {
        kind_from_text(paste_type@)
    }
}

} // verus!
