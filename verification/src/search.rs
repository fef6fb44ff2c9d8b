//! The first place of a value in a sequence.
use vstd::prelude::*;

verus! {

/// The index of the first `x` in `s`, or the length of `s` when there is none.
pub open spec fn first_index<A>(s: Seq<A>, x: A) -> int
    decreases s.len(),
{
    if s.len() == 0 {
        0
    } else if s[0] == x {
        0
    } else {
        1 + first_index(s.drop_first(), x)
    }
}

pub proof fn lemma_first_index_bounds<A>(s: Seq<A>, x: A)
    ensures
        0 <= first_index(s, x) <= s.len(),
        first_index(s, x) < s.len() <==> s.contains(x),
        first_index(s, x) < s.len() ==> s[first_index(s, x)] == x,
        forall|k: int| 0 <= k < first_index(s, x) ==> s[k] != x,
    decreases s.len(),
{
    if s.len() > 0 && s[0] != x {
        lemma_first_index_bounds(s.drop_first(), x);
        if s.contains(x) {
            let k = choose|k: int| 0 <= k < s.len() && s[k] == x;
            assert(s.drop_first()[k - 1] == x);
        }
        if s.drop_first().contains(x) {
            let k = choose|k: int| 0 <= k < s.drop_first().len() && s.drop_first()[k] == x;
            assert(s[k + 1] == x);
        }
        assert forall|k: int| 0 <= k < first_index(s, x) implies s[k] != x by {
            if k > 0 {
                assert(s[k] == s.drop_first()[k - 1]);
            }
        }
    } else if s.len() > 0 {
        assert(s.contains(x)) by {
            assert(s[0] == x);
        }
    }
}

/// A first index is not moved by anything appended after it.
pub proof fn lemma_first_index_append<A>(s: Seq<A>, t: Seq<A>, x: A)
    requires
        s.contains(x),
    ensures
        first_index(s + t, x) == first_index(s, x),
    decreases s.len(),
{
    if s[0] != x {
        let k = choose|k: int| 0 <= k < s.len() && s[k] == x;
        assert(s.drop_first()[k - 1] == x);
        assert((s + t).drop_first() =~= s.drop_first() + t);
        lemma_first_index_append(s.drop_first(), t, x);
    }
}

pub proof fn lemma_first_index_at<A>(s: Seq<A>, x: A, k: int)
    requires
        0 <= k < s.len(),
        s[k] == x,
        forall|j: int| 0 <= j < k ==> s[j] != x,
    ensures
        first_index(s, x) == k,
{
    lemma_first_index_bounds(s, x);
    assert(s.contains(x));
}

} // verus!
