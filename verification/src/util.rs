//! Small general-purpose sequence lemmas, spelled out elementwise so that
//! callers can instantiate them at any element type and read every
//! consequence off directly.

use vstd::prelude::*;

verus! {

/// What pushing one element does, elementwise.
pub proof fn seq_push_facts<A>(s: Seq<A>, x: A)
    ensures
        s.push(x).len() == s.len() + 1,
        forall|i: int| 0 <= i < s.len() ==> #[trigger] s.push(x)[i] == s[i],
        s.push(x)[s.len() as int] == x,
        s.push(x).drop_last() == s,
        s.push(x).last() == x,
{
    assert(s.push(x).drop_last() =~= s);
}

/// What removing the element at `i` does, elementwise.
pub proof fn seq_remove_facts<A>(s: Seq<A>, i: int)
    requires
        0 <= i < s.len(),
    ensures
        s.remove(i).len() == s.len() - 1,
        forall|j: int| 0 <= j < i ==> #[trigger] s.remove(i)[j] == s[j],
        forall|j: int| i <= j < s.len() - 1 ==> #[trigger] s.remove(i)[j] == s[j + 1],
{
}

/// What taking the subrange `[i, j)` leaves, elementwise.
pub proof fn seq_subrange_facts<A>(s: Seq<A>, i: int, j: int)
    requires
        0 <= i <= j <= s.len(),
    ensures
        s.subrange(i, j).len() == j - i,
        forall|k: int| 0 <= k < j - i ==> #[trigger] s.subrange(i, j)[k] == s[i + k],
{
}

/// The empty sequence has no elements.
pub proof fn seq_empty_facts<A>()
    ensures
        Seq::<A>::empty().len() == 0,
{
}

} // verus!
