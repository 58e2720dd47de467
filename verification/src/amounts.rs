//! Sums over the amounts of a split, as mathematical integers.

use vstd::prelude::*;

verus! {

/// The sum of all amounts.
pub open spec fn total(amounts: Seq<u64>) -> int
    decreases amounts.len(),
{
    if amounts.len() == 0 {
        0
    } else {
        total(amounts.drop_last()) + amounts.last()
    }
}

/// The sum of the amounts whose slot is marked as paid.
pub open spec fn paid_out(amounts: Seq<u64>, claimed: Seq<bool>) -> int
    recommends
        amounts.len() == claimed.len(),
    decreases amounts.len(),
{
    if amounts.len() == 0 || amounts.len() != claimed.len() {
        0
    } else {
        paid_out(amounts.drop_last(), claimed.drop_last()) + if claimed.last() {
            amounts.last() as int
        } else {
            0
        }
    }
}

/// A sum of amounts is never negative.
pub proof fn lemma_total_nonnegative(amounts: Seq<u64>)
    ensures
        total(amounts) >= 0,
    decreases amounts.len(),
{
    if amounts.len() > 0 {
        lemma_total_nonnegative(amounts.drop_last());
    }
}

/// A sum only grows when the sequence is extended: every prefix sums to at most the whole.
pub proof fn lemma_total_prefix(amounts: Seq<u64>, n: int)
    requires
        0 <= n <= amounts.len(),
    ensures
        total(amounts.take(n)) <= total(amounts),
    decreases amounts.len(),
{
    if n == amounts.len() {
        assert(amounts.take(n) =~= amounts);
    } else {
        lemma_total_prefix(amounts.drop_last(), n);
        assert(amounts.drop_last().take(n) =~= amounts.take(n));
    }
}

/// What has been paid out lies between nothing and the whole.
pub proof fn lemma_paid_out_bounds(amounts: Seq<u64>, claimed: Seq<bool>)
    requires
        amounts.len() == claimed.len(),
    ensures
        0 <= paid_out(amounts, claimed) <= total(amounts),
    decreases amounts.len(),
{
    if amounts.len() > 0 {
        lemma_paid_out_bounds(amounts.drop_last(), claimed.drop_last());
    }
}

/// With no slot marked, nothing has been paid out.
pub proof fn lemma_paid_out_none(amounts: Seq<u64>, claimed: Seq<bool>)
    requires
        amounts.len() == claimed.len(),
        forall|i: int| 0 <= i < claimed.len() ==> !claimed[i],
    ensures
        paid_out(amounts, claimed) == 0,
    decreases amounts.len(),
{
    if amounts.len() > 0 {
        lemma_paid_out_none(amounts.drop_last(), claimed.drop_last());
    }
}

/// Marking one unpaid slot raises what has been paid out by exactly that slot's amount.
pub proof fn lemma_paid_out_mark(amounts: Seq<u64>, claimed: Seq<bool>, i: int)
    requires
        amounts.len() == claimed.len(),
        0 <= i < claimed.len(),
        !claimed[i],
    ensures
        paid_out(amounts, claimed.update(i, true)) == paid_out(amounts, claimed) + amounts[i],
    decreases amounts.len(),
{
    let marked = claimed.update(i, true);
    if i == amounts.len() - 1 {
        assert(marked.drop_last() =~= claimed.drop_last());
    } else {
        lemma_paid_out_mark(amounts.drop_last(), claimed.drop_last(), i);
        assert(marked.drop_last() =~= claimed.drop_last().update(i, true));
    }
}

/// Adds up the amounts. Returns `None` when the sum does not fit in 64 bits.
pub fn sum_amounts(amounts: &Vec<u64>) -> (r: Option<u64>)
    ensures
        match r {
            Some(s) => s == total(amounts@),
            None => total(amounts@) > u64::MAX,
        },
{
    let mut acc: u64 = 0;
    let mut i: usize = 0;
    while i < amounts.len()
        invariant
            i <= amounts.len(),
            acc == total(amounts@.take(i as int)),
        decreases amounts.len() - i,
    {
        let next = acc.checked_add(amounts[i]);
        proof {
            assert(amounts@.take(i + 1).drop_last() =~= amounts@.take(i as int));
            lemma_total_prefix(amounts@, i + 1);
        }
        match next {
            Some(s) => {
                acc = s;
            },
            None => {
                return None;
            },
        }
        i += 1;
    }
    assert(amounts@.take(i as int) =~= amounts@);
    Some(acc)
}

} // verus!
