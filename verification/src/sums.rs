use vstd::prelude::*;

verus! {

/// The sum of a sequence of tallies, as a mathematical integer.
pub open spec fn sum_seq(s: Seq<u64>) -> int
    decreases s.len(),
{
    if s.len() == 0 {
        0
    } else {
        s[0] + sum_seq(s.drop_first())
    }
}

/// A sum of tallies is never negative.
pub proof fn lemma_sum_nonneg(s: Seq<u64>)
    ensures
        0 <= sum_seq(s),
    decreases s.len(),
{
    if s.len() > 0 {
        lemma_sum_nonneg(s.drop_first());
    }
}

/// Every tally is bounded by the sum of all tallies.
pub proof fn lemma_sum_elem(s: Seq<u64>, i: int)
    requires
        0 <= i < s.len(),
    ensures
        s[i] <= sum_seq(s),
    decreases s.len(),
{
    lemma_sum_nonneg(s.drop_first());
    if i == 0 {
    } else {
        lemma_sum_elem(s.drop_first(), i - 1);
    }
}

/// Appending a tally adds it to the sum.
pub proof fn lemma_sum_push(s: Seq<u64>, v: u64)
    ensures
        sum_seq(s.push(v)) == sum_seq(s) + v,
    decreases s.len(),
{
    if s.len() == 0 {
        assert(s.push(v).drop_first() =~= s);
    } else {
        assert(s.push(v).drop_first() =~= s.drop_first().push(v));
        lemma_sum_push(s.drop_first(), v);
    }
}

/// Replacing one tally shifts the sum by the difference.
pub proof fn lemma_sum_update(s: Seq<u64>, i: int, v: u64)
    requires
        0 <= i < s.len(),
    ensures
        sum_seq(s.update(i, v)) == sum_seq(s) - s[i] + v,
    decreases s.len(),
{
    if i == 0 {
        assert(s.update(0, v).drop_first() =~= s.drop_first());
    } else {
        assert(s.update(i, v).drop_first() =~= s.drop_first().update(i - 1, v));
        lemma_sum_update(s.drop_first(), i - 1, v);
    }
}

} // verus!
