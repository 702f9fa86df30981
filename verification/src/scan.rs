//! Finding the first position in a sequence that meets a condition.

use vstd::prelude::*;

verus! {

/// The position of the first `true`, or the length if there is none.
pub open spec fn first_true(flags: Seq<bool>) -> int
    decreases flags.len(),
{
    if flags.len() == 0 {
        0
    } else {
        let earlier = first_true(flags.drop_last());
        if earlier < flags.len() - 1 {
            earlier
        } else if flags.last() {
            flags.len() - 1
        } else {
            flags.len() as int
        }
    }
}

/// `first_true` is the least position that holds `true`.
pub proof fn lemma_first_true(flags: Seq<bool>)
    ensures
        0 <= first_true(flags) <= flags.len(),
        first_true(flags) < flags.len() ==> flags[first_true(flags)],
        forall|j: int| 0 <= j < first_true(flags) ==> !flags[j],
    decreases flags.len(),
{
    if flags.len() > 0 {
        lemma_first_true(flags.drop_last());
        assert forall|j: int| 0 <= j < first_true(flags) implies !flags[j] by {
            if j < flags.len() - 1 {
                assert(flags.drop_last()[j] == flags[j]);
            }
        }
        if first_true(flags.drop_last()) < flags.len() - 1 {
            assert(flags.drop_last()[first_true(flags.drop_last())] == flags[first_true(
                flags.drop_last(),
            )]);
        }
    }
}

/// A position that holds `true` and has only `false` before it is the first.
pub proof fn lemma_first_true_is(flags: Seq<bool>, at: int)
    requires
        0 <= at <= flags.len(),
        at < flags.len() ==> flags[at],
        forall|j: int| 0 <= j < at ==> !flags[j],
    ensures
        first_true(flags) == at,
{
    lemma_first_true(flags);
    let found = first_true(flags);
    if found < at {
        assert(!flags[found]);
    } else if at < found {
        assert(!flags[at]);
    }
}

} // verus!
