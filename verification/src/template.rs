//! Message templates and the named captures that fill them.
//!
//! A template marks the place of a capture by its name between braces. Captures
//! are applied one after another, in the order in which they are listed.

use vstd::prelude::*;
use crate::text::{
    chars_of, lemma_replaced_without_occurrence, occurs, replace_all, replaced, string_of,
};

verus! {

/// A named value that a rule extracted from a log.
#[derive(Clone, Debug)]
pub struct Capture {
    pub name: String,
    pub value: String,
}

/// What a [`Capture`] stands for.
pub struct CaptureModel {
    pub name: Seq<char>,
    pub value: Seq<char>,
}

impl View for Capture {
    type V = CaptureModel;

    open spec fn view(&self) -> CaptureModel {
        CaptureModel { name: self.name@, value: self.value@ }
    }
}

impl DeepView for Capture {
    type V = CaptureModel;

    open spec fn deep_view(&self) -> CaptureModel {
        self@
    }
}

/// The text that marks the place of the capture called `name`.
pub open spec fn placeholder(name: Seq<char>) -> Seq<char> {
    seq!['{'] + name + seq!['}']
}

/// `template` after each capture, in order, has replaced its placeholder.
pub open spec fn filled(template: Seq<char>, captures: Seq<CaptureModel>) -> Seq<char>
    decreases captures.len(),
{
    if captures.len() == 0 {
        template
    } else {
        replaced(
            filled(template, captures.drop_last()),
            placeholder(captures.last().name),
            captures.last().value,
        )
    }
}

/// The placeholder of `name`, as characters.
fn placeholder_of(name: &str) -> (pattern: Vec<char>)
    ensures
        pattern@ == placeholder(name@),
{
    let mut pattern: Vec<char> = Vec::new();
    pattern.push('{');
    let mut inner = chars_of(name);
    pattern.append(&mut inner);
    pattern.push('}');
    pattern
}

/// Fills `template` with `captures`: every `{name}` becomes the value of the
/// capture called `name`. A placeholder that no capture names stays as it is.
pub fn fill(template: &str, captures: &Vec<Capture>) -> (text: String)
    ensures
        text@ == filled(template@, captures.deep_view()),
{
    let mut current = chars_of(template);
    let mut i: usize = 0;
    while i < captures.len()
        invariant
            i <= captures.len(),
            current@ == filled(template@, captures.deep_view().take(i as int)),
        decreases captures.len() - i,
    {
        let pattern = placeholder_of(captures[i].name.as_str());
        let value = chars_of(captures[i].value.as_str());
        current = replace_all(current.as_slice(), pattern.as_slice(), value.as_slice());
        proof {
            let all = captures.deep_view();
            assert(all.take(i + 1).drop_last() =~= all.take(i as int));
        }
        i += 1;
    }
    assert(captures.deep_view().take(captures.len() as int) =~= captures.deep_view());
    string_of(current.as_slice())
}

/// Captures whose placeholders do not stand in a template leave the
/// template as it is; so does the absence of captures. Whatever else stands
/// between braces in the template stays there, letter for letter.
pub proof fn lemma_unused_captures_change_nothing(
    template: Seq<char>,
    captures: Seq<CaptureModel>,
)
    requires
        forall|i: int|
            0 <= i < captures.len() ==> !occurs(template, placeholder(#[trigger] captures[i].name)),
    ensures
        filled(template, captures) == template,
    decreases captures.len(),
{
    if captures.len() > 0 {
        let front = captures.drop_last();
        lemma_unused_captures_change_nothing(template, front);
        let last = captures[captures.len() - 1];
        lemma_replaced_without_occurrence(template, placeholder(last.name), last.value);
    }
}

/// A capture fills its placeholder wherever the template holds nothing but
/// that placeholder.
pub proof fn lemma_placeholder_alone_becomes_the_value(name: Seq<char>, value: Seq<char>)
    ensures
        filled(placeholder(name), seq![CaptureModel { name, value }]) == value,
{
    let captures = seq![CaptureModel { name, value }];
    let pattern = placeholder(name);
    assert(filled(pattern, captures.drop_last()) == pattern);
    assert(pattern.subrange(0, pattern.len() as int) =~= pattern);
    assert(pattern.skip(pattern.len() as int) =~= Seq::<char>::empty());
    assert(replaced(Seq::<char>::empty(), pattern, value) == Seq::<char>::empty());
}

} // verus!
