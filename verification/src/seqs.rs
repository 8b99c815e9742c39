//! Facts about finite sequences that several modules need.

use vstd::prelude::*;

verus! {

/// A sequence with one more element holds what it held, and that element; it stays free of
/// duplicates when the element is new.
pub proof fn push_contains<A>(s: Seq<A>, x: A)
    ensures
        forall|y: A| #[trigger] s.push(x).contains(y) == (s.contains(y) || y == x),
        s.no_duplicates() && !s.contains(x) ==> s.push(x).no_duplicates(),
{
    let t = s.push(x);
    assert forall|y: A| #[trigger] t.contains(y) == (s.contains(y) || y == x) by {
        if y == x {
            assert(t[s.len() as int] == x);
        }
        if s.contains(y) {
            let j = choose|j: int| 0 <= j < s.len() && s[j] == y;
            assert(t[j] == y);
        }
    }
    if s.no_duplicates() && !s.contains(x) {
        assert forall|i: int, j: int|
            0 <= i < t.len() && 0 <= j < t.len() && i != j implies t[i] != t[j] by {
            if i < s.len() {
                assert(s.contains(s[i]));
            }
            if j < s.len() {
                assert(s.contains(s[j]));
            }
        }
    }
}

/// The first `i + 1` elements are the first `i` and element `i`.
pub proof fn take_contains<A>(s: Seq<A>, i: int)
    requires
        0 <= i < s.len(),
    ensures
        s.take(i + 1) == s.take(i).push(s[i]),
        forall|y: A| #[trigger] s.take(i + 1).contains(y) == (s.take(i).contains(y) || y == s[i]),
        s.no_duplicates() ==> !s.take(i).contains(s[i]),
{
    assert(s.take(i + 1) =~= s.take(i).push(s[i]));
    push_contains(s.take(i), s[i]);
}

} // verus!
