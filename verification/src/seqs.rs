//! Facts about sequences that the loops over lists rely on.
use vstd::prelude::*;

verus! {

/// Taking one more element of `s` extends the prefix by `s[i]`.
pub proof fn lemma_take_succ<A>(s: Seq<A>, i: int)
    requires
        0 <= i < s.len(),
    ensures
        s.take(i + 1).drop_last() == s.take(i),
        s.take(i + 1).last() == s[i],
{
    assert(s.take(i + 1).drop_last() =~= s.take(i));
}

} // verus!
