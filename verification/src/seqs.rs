//! Facts about duplicate-free sequences under the two mutations the room
//! and registry models use: appending a fresh element and removing one
//! element by position.

use vstd::prelude::*;

verus! {

/// Appending a fresh element keeps a sequence duplicate-free.
pub proof fn lemma_push_keeps_distinct<A>(s: Seq<A>, x: A)
    requires
        s.no_duplicates(),
        !s.contains(x),
    ensures
        s.push(x).no_duplicates(),
{
    assert forall|i: int, j: int|
        0 <= i < j < s.push(x).len() implies s.push(x)[i] != s.push(x)[j] by {
        if j == s.len() {
            assert(s.contains(s[i]));
        }
    }
}

/// Removing one position from a duplicate-free sequence keeps exactly the
/// other elements and stays duplicate-free.
pub proof fn lemma_remove_one<A>(s: Seq<A>, ix: int)
    requires
        s.no_duplicates(),
        0 <= ix < s.len(),
    ensures
        forall|x: A| #[trigger] s.remove(ix).contains(x) <==> s.contains(x) && x != s[ix],
        s.remove(ix).no_duplicates(),
{
    let t = s.remove(ix);
    assert forall|x: A| #[trigger] t.contains(x) implies s.contains(x) && x != s[ix] by {
        let j = choose|j: int| 0 <= j < t.len() && t[j] == x;
        if j < ix {
            assert(s[j] == x);
        } else {
            assert(s[j + 1] == x);
        }
    }
    assert forall|x: A| s.contains(x) && x != s[ix] implies #[trigger] t.contains(x) by {
        let i = choose|i: int| 0 <= i < s.len() && s[i] == x;
        if i < ix {
            assert(t[i] == x);
        } else {
            assert(t[i - 1] == x);
        }
    }
}

/// In a duplicate-free sequence an element appears at one position only.
pub proof fn lemma_distinct_index_unique<A>(s: Seq<A>, i: int, j: int)
    requires
        s.no_duplicates(),
        0 <= i < s.len(),
        0 <= j < s.len(),
        s[i] == s[j],
    ensures
        i == j,
{
}

} // verus!
