//! Counting facts about sequences without duplicates.

use vstd::prelude::*;
use vstd::set_lib::*;

verus! {

/// A duplicate-free sequence whose elements all occur in the duplicate-free
/// sequence `b`, and that is as long as `b`, holds every element of `b`.
pub proof fn lemma_unique_covers<A>(a: Seq<A>, b: Seq<A>)
    requires
        a.no_duplicates(),
        b.no_duplicates(),
        forall|x: A| a.contains(x) ==> b.contains(x),
        a.len() == b.len(),
    ensures
        forall|x: A| b.contains(x) ==> a.contains(x),
{
    a.unique_seq_to_set();
    b.unique_seq_to_set();
    assert(a.to_set().subset_of(b.to_set()));
    lemma_subset_equality(a.to_set(), b.to_set());
    assert forall|x: A| b.contains(x) implies a.contains(x) by {
        assert(b.to_set().contains(x));
    }
}

/// A duplicate-free sequence shorter than `b` misses some element of `b`.
pub proof fn lemma_unique_shorter_misses<A>(a: Seq<A>, b: Seq<A>) -> (x: A)
    requires
        a.no_duplicates(),
        b.no_duplicates(),
        a.len() < b.len(),
    ensures
        b.contains(x),
        !a.contains(x),
{
    a.unique_seq_to_set();
    b.unique_seq_to_set();
    if forall|y: A| b.contains(y) ==> a.contains(y) {
        assert(b.to_set().subset_of(a.to_set()));
        lemma_len_subset(b.to_set(), a.to_set());
        assert(false);
        arbitrary()
    } else {
        choose|y: A| b.contains(y) && !a.contains(y)
    }
}

/// Membership in a sequence extended by one element.
pub proof fn lemma_push_contains<A>(s: Seq<A>, x: A, y: A)
    ensures
        s.push(x).contains(y) <==> (s.contains(y) || y == x),
{
    if s.contains(y) {
        let k = choose|k: int| 0 <= k < s.len() && s[k] == y;
        assert(s.push(x)[k] == y);
    }
    if y == x {
        assert(s.push(x)[s.len() as int] == y);
    }
    if s.push(x).contains(y) {
        let k = choose|k: int| 0 <= k < s.push(x).len() && s.push(x)[k] == y;
        if k < s.len() {
            assert(s[k] == y);
        }
    }
}

} // verus!
