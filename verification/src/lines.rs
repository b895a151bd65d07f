//! The first lines of a paste.
//!
//! A paste may be large, and its consumers look at its beginning only. The
//! extractor is fed the lines of a paste one by one, as they are read, keeps
//! the first of them up to its limit, and tells the reader when to stop.
//! Every line that it keeps has gone through the redaction of the caller's
//! choice.

use vstd::prelude::*;

verus! {

/// Collects the first lines of a paste, redacted, up to a limit.
pub struct LineExtractor {
    limit: usize,
    lines: Vec<String>,
}

impl View for LineExtractor {
    type V = Seq<Seq<char>>;

    closed spec fn view(&self) -> Seq<Seq<char>> {
        self.lines.deep_view()
    }
}

impl LineExtractor {
    #[verifier::type_invariant]
    spec fn within_limit(self) -> bool {
        self.lines@.len() <= self.limit
    }

    /// The number of lines that the extractor keeps at most.
    pub closed spec fn limit(&self) -> nat {
        self.limit as nat
    }

    /// An extractor that keeps `limit` lines and holds none yet.
    pub fn new(limit: usize) -> (extractor: LineExtractor)
        ensures
            extractor@ == Seq::<Seq<char>>::empty(),
            extractor.limit() == limit,
    {
        let extractor = LineExtractor { limit, lines: Vec::new() };
        extractor
    }

    /// Whether another line would be kept. Once this is false the rest of the
    /// paste need not be read.
    pub fn wants_more(&self) -> (more: bool)
        ensures
            more == (self@.len() < self.limit()),
    {
        self.lines.len() < self.limit
    }

    /// Hands the extractor the next line of the paste. Below the limit the
    /// line is redacted and kept; at the limit it is dropped unread. Returns
    /// whether another line would be kept.
    pub fn feed<R: Fn(&str) -> String>(&mut self, line: &str, redact: R) -> (more: bool)
        requires
            old(self)@.len() < old(self).limit() ==> call_requires(redact, (line,)),
        ensures
            final(self).limit() == old(self).limit(),
            final(self)@.len() <= final(self).limit(),
            more == (final(self)@.len() < final(self).limit()),
            old(self)@.len() >= old(self).limit() ==> final(self)@ == old(self)@,
            old(self)@.len() < old(self).limit() ==> exists|shown: String|
                {
                    &&& #[trigger] call_ensures(redact, (line,), shown)
                    &&& final(self)@ == old(self)@.push(shown@)
                },
    {
        proof {
            use_type_invariant(&*self);
        }
        if self.lines.len() < self.limit {
            let shown = redact(line);
            let mut lines: Vec<String> = Vec::new();
            core::mem::swap(&mut self.lines, &mut lines);
            lines.push(shown);
            self.lines = lines;
        }
        self.lines.len() < self.limit
    }

    /// The lines that were kept, in the order in which they were fed.
    pub fn into_lines(self) -> (lines: Vec<String>)
        ensures
            lines.deep_view() == self@,
            lines.len() <= self.limit(),
    {
        proof {
            use_type_invariant(&self);
        }
        self.lines
    }
}

/// The lines that an extractor with `limit` holds after it was fed all of
/// `lines`, where the redaction is the function `shown`.
pub open spec fn first_lines(
    lines: Seq<Seq<char>>,
    limit: nat,
    shown: spec_fn(Seq<char>) -> Seq<char>,
) -> Seq<Seq<char>> {
    if lines.len() <= limit {
        lines.map_values(shown)
    } else {
        lines.take(limit as int).map_values(shown)
    }
}

/// Feeding one more line to an extractor that has seen `lines` gives what an
/// extractor holds that has seen `lines` and the new line: the extractor
/// keeps the first lines up to its limit, and no line beyond.
pub proof fn lemma_feeding_keeps_the_first_lines(
    lines: Seq<Seq<char>>,
    next: Seq<char>,
    limit: nat,
    shown: spec_fn(Seq<char>) -> Seq<char>,
)
    ensures
        first_lines(lines.push(next), limit, shown) == if lines.len() < limit {
            first_lines(lines, limit, shown).push(shown(next))
        } else {
            first_lines(lines, limit, shown)
        },
        first_lines(lines, limit, shown).len() <= limit,
{
}

} // verus!
