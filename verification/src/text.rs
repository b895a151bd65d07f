//! Sequences of symbols: finding a pattern and replacing it.
//!
//! The same scan serves bytes (log markers in raw content) and characters
//! (placeholders in message templates).

use vstd::prelude::*;

verus! {

/// A symbol that can be compared in executable code, with the comparison
/// meaning equality of values.
pub trait Symbol: Copy {
    fn same(self, other: Self) -> (r: bool)
        ensures
            r == (self == other),
    ;
}

impl Symbol for u8 {
    fn same(self, other: u8) -> (r: bool) {
        self == other
    }
}

impl Symbol for char {
    fn same(self, other: char) -> (r: bool) {
        self == other
    }
}

/// `needle` stands in `hay` starting at index `at`.
pub open spec fn occurs_at<T>(hay: Seq<T>, needle: Seq<T>, at: int) -> bool {
    &&& 0 <= at
    &&& at + needle.len() <= hay.len()
    &&& hay.subrange(at, at + needle.len()) == needle
}

/// `needle` stands somewhere in `hay`.
pub open spec fn occurs<T>(hay: Seq<T>, needle: Seq<T>) -> bool {
    exists|at: int| occurs_at(hay, needle, at)
}

/// Whether `needle` stands in `hay` at index `at`.
pub fn matches_at<T: Symbol>(hay: &[T], needle: &[T], at: usize) -> (found: bool)
    ensures
        found == occurs_at(hay@, needle@, at as int),
{
    if needle.len() > hay.len() || at > hay.len() - needle.len() {
        return false;
    }
    let mut k: usize = 0;
    while k < needle.len()
        invariant
            k <= needle.len(),
            at + needle.len() <= hay.len(),
            forall|j: int| 0 <= j < k ==> hay@[at + j] == needle@[j],
        decreases needle.len() - k,
    {
        if !hay[at + k].same(needle[k]) {
            return false;
        }
        k += 1;
    }
    assert(hay@.subrange(at as int, at + needle.len()) =~= needle@);
    true
}

/// Whether `needle` stands anywhere in `hay`.
pub fn contains<T: Symbol>(hay: &[T], needle: &[T]) -> (found: bool)
    ensures
        found == occurs(hay@, needle@),
{
    if needle.len() > hay.len() {
        return false;
    }
    let last: usize = hay.len() - needle.len();
    let mut at: usize = 0;
    loop
        invariant
            last == hay.len() - needle.len(),
            at <= last,
            forall|j: int| 0 <= j < at ==> !occurs_at(hay@, needle@, j),
        decreases last - at,
    {
        if matches_at(hay, needle, at) {
            return true;
        }
        if at == last {
            return false;
        }
        at += 1;
    }
}

/// The characters of `s`, one by one.
pub fn chars_of(s: &str) -> (chars: Vec<char>)
    ensures
        chars@ == s@,
{
    let mut chars: Vec<char> = Vec::new();
    for c in it: s.chars()
        invariant
            it.seq() == s@,
            chars@ == it.seq().take(it.index() as int),
    {
        chars.push(c);
    }
    chars
}

/// Two string slices compare equal exactly when they hold the same characters.
pub assume_specification[ <str as PartialEq>::eq ](a: &str, b: &str) -> (equal: bool)
    ensures
        equal == (a@ == b@),
;

/// Whether `a` and `b` hold the same characters.
pub fn same_text(a: &str, b: &str) -> (equal: bool)
    ensures
        equal == (a@ == b@),
{
    a.eq(b)
}

/// `String::push` appends one character at the end and changes nothing else.
pub assume_specification[ String::push ](s: &mut String, c: char)
    ensures
        final(s)@ == old(s)@.push(c),
;

/// A string made of the characters of `chars`, in order.
pub fn string_of(chars: &[char]) -> (s: String)
    ensures
        s@ == chars@,
{
    let mut s = String::new();
    let mut i: usize = 0;
    while i < chars.len()
        invariant
            i <= chars.len(),
            s@ == chars@.take(i as int),
        decreases chars.len() - i,
    {
        s.push(chars[i]);
        i += 1;
    }
    s
}

/// `text` with every occurrence of `pattern` replaced by `with`, scanning
/// from the left; a replaced occurrence is not scanned again, and the scan
/// resumes right behind it. The empty pattern is never replaced.
pub open spec fn replaced<T>(text: Seq<T>, pattern: Seq<T>, with: Seq<T>) -> Seq<T>
    decreases text.len(),
{
    if pattern.len() == 0 || text.len() < pattern.len() {
        text
    } else if occurs_at(text, pattern, 0) {
        with + replaced(text.skip(pattern.len() as int), pattern, with)
    } else {
        seq![text[0]] + replaced(text.skip(1), pattern, with)
    }
}

/// One step of the scan, seen from index `at` of the whole text.
proof fn lemma_replaced_step<T>(text: Seq<T>, pattern: Seq<T>, with: Seq<T>, at: int)
    requires
        pattern.len() > 0,
        0 <= at < text.len(),
    ensures
        occurs_at(text, pattern, at) ==> replaced(text.skip(at), pattern, with) == with
            + replaced(text.skip(at + pattern.len()), pattern, with),
        !occurs_at(text, pattern, at) ==> replaced(text.skip(at), pattern, with) == seq![text[at]]
            + replaced(text.skip(at + 1), pattern, with),
{
    let rest = text.skip(at);
    let n = pattern.len() as int;
    if at + n <= text.len() {
        assert(rest.subrange(0, n) =~= text.subrange(at, at + n));
        assert(rest.skip(n) =~= text.skip(at + n));
    }
    assert(rest.skip(1) =~= text.skip(at + 1));
    if rest.len() < n {
        lemma_replaced_short(rest.skip(1), pattern, with);
    }
}

/// A text shorter than the pattern is left as it is.
proof fn lemma_replaced_short<T>(text: Seq<T>, pattern: Seq<T>, with: Seq<T>)
    requires
        text.len() < pattern.len(),
    ensures
        replaced(text, pattern, with) == text,
{
}

/// `text` with every occurrence of `pattern` replaced by `with`.
pub fn replace_all<T: Symbol>(text: &[T], pattern: &[T], with: &[T]) -> (out: Vec<T>)
    ensures
        out@ == replaced(text@, pattern@, with@),
{
    let mut out: Vec<T> = Vec::new();
    let mut at: usize = 0;
    assert(text@.skip(0) =~= text@);
    while at < text.len()
        invariant
            at <= text.len(),
            out@ + replaced(text@.skip(at as int), pattern@, with@) == replaced(
                text@,
                pattern@,
                with@,
            ),
        decreases text.len() - at,
    {
        let ghost before = out@;
        if pattern.len() > 0 && matches_at(text, pattern, at) {
            let mut k: usize = 0;
            while k < with.len()
                invariant
                    k <= with.len(),
                    out@ == before + with@.take(k as int),
                decreases with.len() - k,
            {
                out.push(with[k]);
                k += 1;
            }
            proof {
                lemma_replaced_step(text@, pattern@, with@, at as int);
            }
            at += pattern.len();
        } else {
            out.push(text[at]);
            proof {
                if pattern.len() > 0 {
                    lemma_replaced_step(text@, pattern@, with@, at as int);
                }
            }
            at += 1;
        }
    }
    out
}

/// A text in which the pattern does not stand is left as it is.
pub proof fn lemma_replaced_without_occurrence<T>(text: Seq<T>, pattern: Seq<T>, with: Seq<T>)
    requires
        !occurs(text, pattern),
    ensures
        replaced(text, pattern, with) == text,
    decreases text.len(),
{
    if pattern.len() > 0 && text.len() >= pattern.len() {
        let rest = text.skip(1);
        assert(!occurs(rest, pattern)) by {
            if occurs(rest, pattern) {
                let at = choose|at: int| occurs_at(rest, pattern, at);
                assert(rest.subrange(at, at + pattern.len()) =~= text.subrange(
                    at + 1,
                    at + 1 + pattern.len(),
                ));
                assert(occurs_at(text, pattern, at + 1));
            }
        }
        lemma_replaced_without_occurrence(rest, pattern, with);
    }
}

/// Up to its first occurrence a text is copied, the occurrence becomes the
/// replacement, and the scan goes on behind it.
pub proof fn lemma_replaced_at_first_occurrence<T>(
    before: Seq<T>,
    pattern: Seq<T>,
    after: Seq<T>,
    with: Seq<T>,
)
    requires
        pattern.len() > 0,
        forall|at: int| 0 <= at < before.len() ==> !occurs_at(before + pattern + after, pattern, at),
    ensures
        replaced(before + pattern + after, pattern, with) == before + with + replaced(
            after,
            pattern,
            with,
        ),
    decreases before.len(),
{
    let text = before + pattern + after;
    if before.len() == 0 {
        assert(text.subrange(0, pattern.len() as int) =~= pattern);
        assert(text.skip(pattern.len() as int) =~= after);
    } else {
        let shorter = before.skip(1);
        let rest = shorter + pattern + after;
        assert(text.skip(1) =~= rest);
        assert forall|at: int| 0 <= at < shorter.len() implies !occurs_at(rest, pattern, at) by {
            if occurs_at(rest, pattern, at) {
                assert(rest.subrange(at, at + pattern.len()) =~= text.subrange(
                    at + 1,
                    at + 1 + pattern.len(),
                ));
                assert(occurs_at(text, pattern, at + 1));
            }
        }
        lemma_replaced_at_first_occurrence(shorter, pattern, after, with);
    }
}

} // verus!
