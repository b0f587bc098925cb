//! Second-price ranking of revealed amounts.

use vstd::prelude::*;

verus! {

/// The largest of `vals`; 0 where there is none.
pub open spec fn highest(vals: Seq<u128>) -> u128
    decreases vals.len(),
{
    if vals.len() == 0 {
        0
    } else {
        let rest = highest(vals.drop_last());
        if vals.last() > rest {
            vals.last()
        } else {
            rest
        }
    }
}

/// The position of the largest of `vals`; among equal largest values the
/// earliest one. 0 where `vals` is empty.
pub open spec fn leader(vals: Seq<u128>) -> int
    decreases vals.len(),
{
    if vals.len() <= 1 {
        0
    } else {
        let before = leader(vals.drop_last());
        if vals.last() > vals[before] {
            vals.len() - 1
        } else {
            before
        }
    }
}

/// The largest of `vals` once the leader's own entry is set aside; 0 where
/// nothing else is left.
pub open spec fn second_highest(vals: Seq<u128>) -> u128 {
    if vals.len() == 0 {
        0
    } else {
        highest(vals.remove(leader(vals)))
    }
}

/// `highest` bounds every entry and is attained unless it is 0.
pub proof fn lemma_highest_bounds(vals: Seq<u128>)
    ensures
        forall|i: int| 0 <= i < vals.len() ==> vals[i] <= highest(vals),
        highest(vals) == 0 || exists|i: int| 0 <= i < vals.len() && vals[i] == highest(vals),
    decreases vals.len(),
{
    if vals.len() > 0 {
        let init = vals.drop_last();
        lemma_highest_bounds(init);
        assert forall|i: int| 0 <= i < vals.len() implies vals[i] <= highest(vals) by {
            if i < vals.len() - 1 {
                assert(init[i] == vals[i]);
            }
        }
        if highest(vals) != 0 {
            if vals.last() > highest(init) {
                assert(vals[vals.len() - 1] == highest(vals));
            } else {
                let j = choose|j: int| 0 <= j < init.len() && init[j] == highest(init);
                assert(vals[j] == highest(vals));
            }
        }
    }
}

/// A bound on every entry that is attained, or is 0, is `highest`.
pub proof fn lemma_highest_is(vals: Seq<u128>, bound: u128)
    requires
        forall|i: int| 0 <= i < vals.len() ==> vals[i] <= bound,
        bound == 0 || exists|i: int| 0 <= i < vals.len() && vals[i] == bound,
    ensures
        bound == highest(vals),
{
    lemma_highest_bounds(vals);
    if bound != 0 {
        let i = choose|i: int| 0 <= i < vals.len() && vals[i] == bound;
        assert(vals[i] <= highest(vals));
    }
    if highest(vals) != 0 {
        let j = choose|j: int| 0 <= j < vals.len() && vals[j] == highest(vals);
        assert(vals[j] <= bound);
    }
}

/// The leader holds the largest value, and nothing before it is as large.
pub proof fn lemma_leader_is_first_highest(vals: Seq<u128>)
    requires
        vals.len() > 0,
    ensures
        0 <= leader(vals) < vals.len(),
        vals[leader(vals)] == highest(vals),
        forall|i: int| 0 <= i < leader(vals) ==> vals[i] < highest(vals),
    decreases vals.len(),
{
    if vals.len() == 1 {
        assert(vals.drop_last().len() == 0);
        assert(highest(vals.drop_last()) == 0);
    } else {
        let init = vals.drop_last();
        lemma_leader_is_first_highest(init);
        let before = leader(init);
        assert(init[before] == vals[before]);
        assert forall|i: int| 0 <= i < leader(vals) implies vals[i] < highest(vals) by {
            lemma_highest_bounds(init);
            assert(init[i] == vals[i]);
        }
    }
}

/// The one position that holds a value no entry exceeds and no earlier entry
/// reaches is the leader.
pub proof fn lemma_leader_is(vals: Seq<u128>, at: int)
    requires
        0 <= at < vals.len(),
        forall|i: int| 0 <= i < vals.len() ==> vals[i] <= vals[at],
        forall|i: int| 0 <= i < at ==> vals[i] < vals[at],
    ensures
        at == leader(vals),
{
    lemma_leader_is_first_highest(vals);
    lemma_highest_bounds(vals);
    let lead = leader(vals);
    assert(vals[lead] <= vals[at]);
    assert(vals[at] <= highest(vals));
}

/// Finds the leading position and the second-highest value in one pass.
///
/// The first entry seeds the running highest; every later entry that exceeds
/// the running second takes its place, and takes the lead, demoting the old
/// highest to second, where it exceeds the highest too.
pub fn top_two(vals: &Vec<u128>) -> (found: Option<(usize, u128)>)
    ensures
        found is None <==> vals@.len() == 0,
        found matches Some((lead, second)) ==> lead == leader(vals@),
        found matches Some((lead, second)) ==> second == second_highest(vals@),
{
    let count: usize = vals.len();
    if count == 0 {
        return None;
    }
    let mut lead: usize = 0;
    let mut top: u128 = vals[0];
    let mut second: u128 = 0;
    let mut k: usize = 1;
    while k < count
        invariant
            count == vals@.len(),
            1 <= k <= count,
            lead < k,
            top == vals@[lead as int],
            second <= top,
            forall|i: int| 0 <= i < k ==> vals@[i] <= top,
            forall|i: int| 0 <= i < lead ==> vals@[i] < top,
            forall|i: int| 0 <= i < k && i != lead ==> vals@[i] <= second,
            second == 0 || exists|j: int| 0 <= j < k && j != lead && vals@[j] == second,
        decreases count - k,
    {
        let value: u128 = vals[k];
        if value > second {
            if top < value {
                second = top;
                top = value;
                lead = k;
            } else {
                second = value;
            }
        }
        k = k + 1;
    }
    proof {
        let all = vals@;
        lemma_leader_is(all, lead as int);
        let others = all.remove(lead as int);
        assert forall|i: int| 0 <= i < others.len() implies others[i] <= second by {
            if i < lead {
                assert(others[i] == all[i]);
            } else {
                assert(others[i] == all[i + 1]);
            }
        }
        if second != 0 {
            let j = choose|j: int| 0 <= j < all.len() && j != lead && all[j] == second;
            if j < lead {
                assert(others[j] == second);
            } else {
                assert(others[j - 1] == second);
            }
        }
        lemma_highest_is(others, second);
    }
    Some((lead, second))
}

} // verus!
