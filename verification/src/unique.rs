//! Sequences that hold each item once, in the order of first arrival.

use vstd::prelude::*;

verus! {

/// `s` with `x` behind it, unless `s` holds `x` already.
pub open spec fn add_unique<T>(s: Seq<T>, x: T) -> Seq<T> {
    if s.contains(x) {
        s
    } else {
        s.push(x)
    }
}

/// After `x` is added, the sequence holds what it held and `x`, and nothing else.
pub proof fn lemma_add_unique_contains<T>(s: Seq<T>, x: T, y: T)
    ensures
        add_unique(s, x).contains(y) <==> s.contains(y) || y == x,
{
    if !s.contains(x) {
        let t = s.push(x);
        if s.contains(y) {
            let i = choose|i: int| 0 <= i < s.len() && s[i] == y;
            assert(t[i] == y);
        }
        if y == x {
            assert(t[s.len() as int] == y);
        }
        if t.contains(y) {
            let i = choose|i: int| 0 <= i < t.len() && t[i] == y;
            if i < s.len() {
                assert(s[i] == y);
            }
        }
    }
}

/// Adding to a sequence without repetition leaves it without repetition.
pub proof fn lemma_add_unique_no_duplicates<T>(s: Seq<T>, x: T)
    requires
        s.no_duplicates(),
    ensures
        add_unique(s, x).no_duplicates(),
{
    if !s.contains(x) {
        let t = s.push(x);
        assert forall|i: int, j: int| 0 <= i < t.len() && 0 <= j < t.len() && i != j implies t[i]
            != t[j] by {
            if i < s.len() && j < s.len() {
                assert(s[i] != s[j]);
            } else if i < s.len() {
                assert(s.contains(s[i]));
            } else {
                assert(s.contains(s[j]));
            }
        }
    }
}

/// Adding keeps what was there in its place.
pub proof fn lemma_add_unique_prefix<T>(s: Seq<T>, x: T)
    ensures
        s.len() <= add_unique(s, x).len() <= s.len() + 1,
        add_unique(s, x).take(s.len() as int) == s,
{
    assert(add_unique(s, x).take(s.len() as int) =~= s);
}

} // verus!
