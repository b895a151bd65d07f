//! What is sent back for a paste, short of the transport.

use vstd::prelude::*;
use vstd::string::StringExecFns;
use crate::paste::analyzer::PasteType;
use crate::report::Detection;
use crate::rules::Platform;

verus! {

/// An error of the API, with the words for the caller: one that the caller
/// brought about, or one of the service itself.
#[derive(Clone, Debug)]
pub enum ApiError {
    Client(&'static str),
    Server(&'static str),
}

/// The body that reports an error of the API.
#[derive(Clone, Debug)]
pub struct ApiResponse {
    pub error: bool,
    pub message: Option<&'static str>,
}

impl ApiError {
    /// The words for the caller.
    pub open spec fn text(self) -> Seq<char> {
        match self {
            ApiError::Client(message) => message@,
            ApiError::Server(message) => message@,
        }
    }

    /// The words for the caller.
    pub fn message(&self) -> (message: &'static str)
        ensures
            message@ == self.text(),
    {
        match self {
            ApiError::Client(message) => message,
            ApiError::Server(message) => message,
        }
    }

    /// The body that reports this error: marked as an error, with the words
    /// for the caller.
    pub fn into_response(self) -> (response: ApiResponse)
        ensures
            response.error,
            response.message matches Some(message) && message@ == self.text(),
    {
        let message = self.message();
        ApiResponse { error: true, message: Some(message) }
    }
}

/// What stands for `c` in HTML text.
pub open spec fn escaped_char(c: char) -> Seq<char> {
    if c == '&' {
        seq!['&', 'a', 'm', 'p', ';']
    } else if c == '<' {
        seq!['&', 'l', 't', ';']
    } else if c == '>' {
        seq!['&', 'g', 't', ';']
    } else {
        seq![c]
    }
}

/// `text` as HTML text: `&`, `<` and `>` are written as entities, and every
/// other character stands for itself.
pub open spec fn escaped_text(text: Seq<char>) -> Seq<char> {
    text.flat_map(|c: char| escaped_char(c))
}

/// Calls `html_escape::encode_text`, which copies its argument and writes
/// `&amp;` for each `&`, `&lt;` for each `<` and `&gt;` for each `>`.
#[verifier::external_body]
fn encode_text(text: &str) -> (encoded: String)
    ensures
        encoded@ == escaped_text(text@),
{
    html_escape::encode_text(text).into_owned()
}

/// The answer for a paste that is no log: its content, made safe to show as
/// HTML text, and its kind.
#[derive(Clone, Debug)]
pub struct NoLogResponse {
    pub content: String,
    pub paste_type: PasteType,
}

impl NoLogResponse {
    pub fn new(content: &str, paste_type: PasteType) -> (response: NoLogResponse)
        ensures
            response.content@ == escaped_text(content@),
            response.paste_type == paste_type,
    {
        NoLogResponse { content: encode_text(content), paste_type }
    }
}

/// The name shown for a server whose version the log does not tell.
pub open spec fn unknown_version() -> Seq<char> {
    "Unknown"@
}

/// The answer for a log: the log as HTML, what is known of the server that
/// wrote it, and the report.
#[derive(Clone, Debug)]
pub struct LogResponse {
    pub content: String,
    pub paste_type: PasteType,
    pub version: String,
    pub platform: Platform,
    pub detections: Vec<Detection>,
}

/// The pieces of `parts`, one behind the other.
fn concat(parts: &Vec<String>) -> (whole: String)
    ensures
        whole@ == parts.deep_view().flatten(),
{
    let mut whole = String::new();
    let mut i: usize = 0;
    while i < parts.len()
        invariant
            i <= parts.len(),
            whole@ == parts.deep_view().take(i as int).flatten(),
        decreases parts.len() - i,
    {
        whole.append(parts[i].as_str());
        proof {
            let all = parts.deep_view();
            all.take(i as int).lemma_flatten_push(all[i as int]);
            assert(all.take(i + 1) =~= all.take(i as int).push(all[i as int]));
        }
        i += 1;
    }
    assert(parts.deep_view().take(parts.len() as int) =~= parts.deep_view());
    whole
}

impl LogResponse {
    /// The answer for a log whose lines were rendered as the pieces `html`.
    /// Where the log tells no version, the version reads `Unknown`.
    pub fn new(
        html: &Vec<String>,
        version: Option<String>,
        platform: Platform,
        detections: Vec<Detection>,
    ) -> (response: LogResponse)
        ensures
            response.content@ == html.deep_view().flatten(),
            response.paste_type == PasteType::Log,
            response.version@ == match version {
                Some(text) => text@,
                None => unknown_version(),
            },
            response.platform == platform,
            response.detections == detections,
    {
        let version = match version {
            Some(text) => text,
            None => String::from_str("Unknown"),
        };
        LogResponse {
            content: concat(html),
            paste_type: PasteType::Log,
            version,
            platform,
            detections,
        }
    }
}

/// How many lines of a log are sent back when the log is asked for as it is.
pub const RAW_LINES_LIMIT: usize = 40_000;

/// `lines` with a line feed between each two of them.
pub open spec fn joined(lines: Seq<Seq<char>>) -> Seq<char>
    decreases lines.len(),
{
    if lines.len() == 0 {
        Seq::empty()
    } else if lines.len() == 1 {
        lines[0]
    } else {
        joined(lines.drop_last()) + seq!['\n'] + lines.last()
    }
}

/// The body for a log that is asked for as it is: its lines, each on a line
/// of its own.
pub fn join_lines(lines: &Vec<String>) -> (body: String)
    ensures
        body@ == joined(lines.deep_view()),
{
    let mut body = String::new();
    let mut i: usize = 0;
    while i < lines.len()
        invariant
            i <= lines.len(),
            body@ == joined(lines.deep_view().take(i as int)),
        decreases lines.len() - i,
    {
        if i > 0 {
            body.push('\n');
        }
        body.append(lines[i].as_str());
        proof {
            let all = lines.deep_view();
            assert(all.take(i + 1).drop_last() =~= all.take(i as int));
        }
        i += 1;
    }
    assert(lines.deep_view().take(lines.len() as int) =~= lines.deep_view());
    body
}

} // verus!
