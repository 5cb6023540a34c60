//! Where an element first stands in a list.

use vstd::prelude::*;

verus! {

/// The first position of `x` in `s`, or the length of `s` where `x` does
/// not occur.
pub open spec fn position<T>(s: Seq<T>, x: T) -> int
    decreases s.len(),
{
    if s.len() == 0 {
        0
    } else if s[0] == x {
        0
    } else {
        1 + position(s.drop_first(), x)
    }
}

/// The position of `x` is where `x` first stands.
pub proof fn lemma_position<T>(s: Seq<T>, x: T)
    ensures
        0 <= position(s, x) <= s.len(),
        position(s, x) < s.len() <==> s.contains(x),
        position(s, x) < s.len() ==> s[position(s, x)] == x,
        forall|j: int| 0 <= j < position(s, x) ==> s[j] != x,
    decreases s.len(),
{
    if s.len() > 0 && s[0] != x {
        let rest = s.drop_first();
        lemma_position(rest, x);
        assert forall|j: int| 0 <= j < position(s, x) implies s[j] != x by {
            if j > 0 {
                assert(rest[j - 1] != x);
            }
        }
    }
}

/// In a sequence without duplicates, an element stands at its position and
/// nowhere else.
pub proof fn lemma_position_unique<T>(s: Seq<T>, i: int)
    requires
        s.no_duplicates(),
        0 <= i < s.len(),
    ensures
        position(s, s[i]) == i,
{
    lemma_position(s, s[i]);
}

/// Where `x` stands at `i` and nowhere before, `i` is its position.
pub proof fn lemma_position_is<T>(s: Seq<T>, x: T, i: int)
    requires
        0 <= i < s.len(),
        s[i] == x,
        forall|j: int| 0 <= j < i ==> s[j] != x,
    ensures
        position(s, x) == i,
{
    lemma_position(s, x);
}

/// In two lists one after the other, an element of the first stands where
/// it stands there, and any other as far behind the first as it stands in
/// the second.
pub proof fn lemma_position_parts<T>(first: Seq<T>, second: Seq<T>, x: T)
    ensures
        first.contains(x) ==> position(first + second, x) == position(first, x),
        !first.contains(x) ==> position(first + second, x) == first.len() + position(second, x),
        (first + second).contains(x) <==> first.contains(x) || second.contains(x),
{
    let both = first + second;
    lemma_position(first, x);
    lemma_position(second, x);
    lemma_position(both, x);
    if first.contains(x) {
        let at = position(first, x);
        assert(both[at] == x);
        assert forall|j: int| 0 <= j < at implies both[j] != x by {
            assert(both[j] == first[j]);
        }
        lemma_position_is(both, x, at);
    } else if second.contains(x) {
        let at = position(second, x);
        assert(both[first.len() + at] == x);
        assert forall|j: int| 0 <= j < first.len() + at implies both[j] != x by {
            if j < first.len() {
                assert(both[j] == first[j]);
            } else {
                assert(both[j] == second[j - first.len()]);
            }
        }
        lemma_position_is(both, x, first.len() + at);
    } else {
        if both.contains(x) {
            let j = choose|j: int| 0 <= j < both.len() && both[j] == x;
            if j < first.len() {
                assert(first[j] == x);
            } else {
                assert(second[j - first.len()] == x);
            }
        }
    }
}

} // verus!
