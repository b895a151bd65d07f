//! Facts about sequences that the proofs of this library share.

use vstd::prelude::*;

verus! {

/// An element of a concatenation stands in one of its two parts.
pub proof fn lemma_concat_member<A>(front: Seq<A>, back: Seq<A>, x: A)
    ensures
        (front + back).contains(x) <==> front.contains(x) || back.contains(x),
{
    let whole = front + back;
    if front.contains(x) {
        let i = choose|i: int| 0 <= i < front.len() && front[i] == x;
        assert(whole[i] == x);
    }
    if back.contains(x) {
        let i = choose|i: int| 0 <= i < back.len() && back[i] == x;
        assert(whole[front.len() + i] == x);
    }
}

/// Mapping each element to a sequence and joining the results goes through
/// concatenation.
pub proof fn lemma_flat_map_concat<A, B>(front: Seq<A>, back: Seq<A>, f: spec_fn(A) -> Seq<B>)
    ensures
        (front + back).flat_map(f) == front.flat_map(f) + back.flat_map(f),
    decreases back.len(),
{
    if back.len() > 0 {
        let shorter = back.drop_last();
        lemma_flat_map_concat(front, shorter, f);
        (front + shorter).lemma_flat_map_push(f, back.last());
        shorter.lemma_flat_map_push(f, back.last());
        assert(shorter.push(back.last()) =~= back);
    }
}

/// What stands in the joined results came from one of the elements.
pub proof fn lemma_flat_map_member<A, B>(s: Seq<A>, f: spec_fn(A) -> Seq<B>, x: B)
    ensures
        s.flat_map(f).contains(x) <==> exists|i: int| 0 <= i < s.len() && f(s[i]).contains(x),
    decreases s.len(),
{
    if s.len() > 0 {
        let shorter = s.drop_last();
        lemma_flat_map_member(shorter, f, x);
        shorter.lemma_flat_map_push(f, s.last());
        assert(shorter.push(s.last()) =~= s);
        lemma_concat_member(shorter.flat_map(f), f(s.last()), x);
    }
}

} // verus!
