use vstd::prelude::*;

use crate::access_control::seq_without;

verus! {

/// The sum of `f` over the entries of a list of identifiers, in order.
pub open spec fn sum_over(ids: Seq<String>, f: spec_fn(Seq<char>) -> int) -> int
    decreases ids.len(),
{
    if ids.len() == 0 {
        0
    } else {
        sum_over(ids.drop_last(), f) + f(ids.last()@)
    }
}

/// Whether `f` is never negative on the entries of `ids`.
pub open spec fn nonneg_on(ids: Seq<String>, f: spec_fn(Seq<char>) -> int) -> bool {
    forall|j: int| 0 <= j < ids.len() ==> f((#[trigger] ids[j])@) >= 0
}

/// Appending an entry adds its term.
pub proof fn lemma_sum_push(ids: Seq<String>, x: String, f: spec_fn(Seq<char>) -> int)
    ensures
        sum_over(ids.push(x), f) == sum_over(ids, f) + f(x@),
{
    assert(ids.push(x).drop_last() =~= ids);
}

/// A sum of terms that are never negative is never negative, and no prefix of the list
/// sums to more than the whole.
pub proof fn lemma_sum_prefix(ids: Seq<String>, f: spec_fn(Seq<char>) -> int, i: int)
    requires
        nonneg_on(ids, f),
        0 <= i <= ids.len(),
    ensures
        0 <= sum_over(ids.take(i), f) <= sum_over(ids, f),
    decreases ids.len(),
{
    if ids.len() == 0 {
        assert(ids.take(i) =~= ids);
    } else {
        let init = ids.drop_last();
        assert(nonneg_on(init, f)) by {
            assert forall|j: int| 0 <= j < init.len() implies f((#[trigger] init[j])@) >= 0 by {
                assert(init[j] == ids[j]);
            }
        }
        assert(f(ids[ids.len() - 1]@) >= 0);
        if i == ids.len() {
            lemma_sum_prefix(init, f, init.len() as int);
            assert(init.take(init.len() as int) =~= init);
            assert(ids.take(i) =~= ids);
        } else {
            lemma_sum_prefix(init, f, i);
            assert(init.take(i) =~= ids.take(i));
            lemma_sum_prefix(init, f, init.len() as int);
            assert(init.take(init.len() as int) =~= init);
        }
    }
}

/// Sums compare as their terms do.
pub proof fn lemma_sum_le(ids: Seq<String>, f: spec_fn(Seq<char>) -> int, g: spec_fn(Seq<char>) -> int)
    requires
        forall|j: int| 0 <= j < ids.len() ==> f((#[trigger] ids[j])@) <= g(ids[j]@),
    ensures
        sum_over(ids, f) <= sum_over(ids, g),
    decreases ids.len(),
{
    if ids.len() > 0 {
        let init = ids.drop_last();
        assert forall|j: int| 0 <= j < init.len() implies f((#[trigger] init[j])@) <= g(init[j]@) by {
            assert(init[j] == ids[j]);
        }
        lemma_sum_le(init, f, g);
        assert(f(ids[ids.len() - 1]@) <= g(ids[ids.len() - 1]@));
    }
}

/// Sums of equal terms are equal.
pub proof fn lemma_sum_eq(ids: Seq<String>, f: spec_fn(Seq<char>) -> int, g: spec_fn(Seq<char>) -> int)
    requires
        forall|j: int| 0 <= j < ids.len() ==> f((#[trigger] ids[j])@) == g(ids[j]@),
    ensures
        sum_over(ids, f) == sum_over(ids, g),
{
    lemma_sum_le(ids, f, g);
    lemma_sum_le(ids, g, f);
}

/// Leaving entries out of a list of non-negative terms does not raise the sum.
pub proof fn lemma_sum_without(ids: Seq<String>, x: Seq<char>, f: spec_fn(Seq<char>) -> int)
    requires
        nonneg_on(ids, f),
    ensures
        sum_over(seq_without(ids, x), f) <= sum_over(ids, f),
    decreases ids.len(),
{
    reveal_with_fuel(Seq::<_>::filter, 1);
    if ids.len() == 0 {
        assert(seq_without(ids, x) =~= Seq::<String>::empty());
    } else {
        let init = ids.drop_last();
        assert(nonneg_on(init, f)) by {
            assert forall|j: int| 0 <= j < init.len() implies f((#[trigger] init[j])@) >= 0 by {
                assert(init[j] == ids[j]);
            }
        }
        lemma_sum_without(init, x, f);
        assert(ids =~= init.push(ids.last()));
        assert(f(ids[ids.len() - 1]@) >= 0);
        if ids.last()@ != x {
            assert(seq_without(ids, x) == seq_without(init, x).push(ids.last()));
            lemma_sum_push(seq_without(init, x), ids.last(), f);
        } else {
            assert(seq_without(ids, x) == seq_without(init, x));
        }
    }
}

} // verus!
