//! Taking in a new paste: its name and what becomes of it.

use vstd::prelude::*;
use vstd::string::StringExecFns;
use crate::paste::analyzer::{kind_of, PasteAnalyzer, PasteType};

verus! {

/// A letter of the English alphabet, in either case, or a digit.
pub open spec fn is_alphanumeric(c: char) -> bool {
    ||| 'a' <= c <= 'z'
    ||| 'A' <= c <= 'Z'
    ||| '0' <= c <= '9'
}

/// Samples `rand::distributions::Alphanumeric` with the generator of the
/// current thread. Which character comes is left open; the distribution
/// yields the ASCII letters and digits and nothing else.
#[verifier::external_body]
fn random_alphanumeric() -> (c: char)
    ensures
        is_alphanumeric(c),
{
    char::from(rand::Rng::sample(&mut rand::thread_rng(), rand::distributions::Alphanumeric))
}

/// A fresh name for a paste: `length` letters and digits, drawn at random.
pub fn gen_id(length: u16) -> (id: String)
    ensures
        id@.len() == length,
        forall|i: int| 0 <= i < id@.len() ==> is_alphanumeric(#[trigger] id@[i]),
{
    let mut id = String::new();
    let mut n: u16 = 0;
    while n < length
        invariant
            n <= length,
            id@.len() == n,
            forall|i: int| 0 <= i < id@.len() ==> is_alphanumeric(#[trigger] id@[i]),
        decreases length - n,
    {
        let c = random_alphanumeric();
        id.push(c);
        n += 1;
    }
    id
}

/// What becomes of an upload.
#[derive(Clone, Debug)]
pub enum UploadPlan {
    /// Nothing was uploaded: what was stored is to be removed, and the
    /// request is refused.
    Refuse,
    /// The paste stays: its kind goes to the classification cache, and the
    /// caller is sent to `location`.
    Keep { kind: PasteType, location: String },
}

/// Where a paste is found once it is stored.
pub open spec fn location_of(id: Seq<char>) -> Seq<char> {
    seq!['/'] + id
}

/// Decides what becomes of the upload that was stored as `id` with
/// `content`: an empty upload is refused, and every other is kept under the
/// kind of its content.
pub fn plan_upload(id: &str, content: &[u8]) -> (plan: UploadPlan)
    ensures
        match plan {
            UploadPlan::Refuse => content@.len() == 0,
            UploadPlan::Keep { kind, location } => {
                &&& content@.len() > 0
                &&& kind == kind_of(content@)
                &&& location@ == location_of(id@)
            },
        },
{
    if content.len() == 0 {
        UploadPlan::Refuse
    } else {
        let kind = PasteAnalyzer::new().paste_type(content);
        let mut location = String::new();
        location.push('/');
        location.append(id);
        UploadPlan::Keep { kind, location }
    }
}

} // verus!
