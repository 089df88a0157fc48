//! Remainder-exact proportional distribution: a total is split across
//! participants by weight, every share but the last computed by floor
//! division and the last as the exact remainder, so that the shares always
//! sum to exactly the total — no unit is lost or invented.
use vstd::prelude::*;

verus! {

/// The sum of a sequence of amounts, as an unbounded integer.
pub open spec fn seq_sum(s: Seq<u64>) -> int
    decreases s.len(),
{
    if s.len() == 0 {
        0
    } else {
        seq_sum(s.drop_last()) + s.last()
    }
}

/// Summing a prefix one element longer adds exactly that element.
pub proof fn lemma_seq_sum_prefix(s: Seq<u64>, i: int)
    requires
        0 <= i < s.len(),
    ensures
        seq_sum(s.subrange(0, i + 1)) == seq_sum(s.subrange(0, i)) + s[i],
{
    assert(s.subrange(0, i + 1).drop_last() =~= s.subrange(0, i));
    assert(s.subrange(0, i + 1).last() == s[i]);
}

/// Every prefix sums to at most the whole.
pub proof fn lemma_seq_sum_prefix_le(s: Seq<u64>, i: int)
    requires
        0 <= i <= s.len(),
    ensures
        seq_sum(s.subrange(0, i)) <= seq_sum(s),
        seq_sum(s.subrange(0, i)) >= 0,
    decreases s.len() - i,
{
    if i == s.len() {
        assert(s.subrange(0, i) =~= s);
        lemma_seq_sum_nonneg(s);
    } else {
        lemma_seq_sum_prefix(s, i);
        lemma_seq_sum_prefix_le(s, i + 1);
        if i > 0 {
            lemma_seq_sum_nonneg(s.subrange(0, i));
        }
    }
}

/// A sum of amounts is never negative.
pub proof fn lemma_seq_sum_nonneg(s: Seq<u64>)
    ensures
        seq_sum(s) >= 0,
    decreases s.len(),
{
    if s.len() > 0 {
        lemma_seq_sum_nonneg(s.drop_last());
    }
}

/// Distribute `total` across the participants by `weights`, whose sum is
/// `weight_sum`: every share but the last is the weight's floor-divided
/// portion of the total, the last is the exact remainder, and the shares
/// sum to exactly the total.
pub fn distribute_proportional(total: u64, weights: &Vec<u64>, weight_sum: u64)
    -> (shares: Vec<u64>)
    requires
        weight_sum > 0,
        weight_sum == seq_sum(weights@),
    ensures
        shares@.len() == weights@.len(),
        weights@.len() > 0 ==> seq_sum(shares@) == total,
        forall|i: int| 0 <= i < weights@.len() - 1
            ==> #[trigger] shares@[i] == total * weights@[i] / (weight_sum as int),
        weights@.len() > 0
            ==> shares@.last() == total - seq_sum(shares@.drop_last()),
        forall|i: int| 0 <= i < weights@.len() ==> #[trigger] shares@[i] <= total,
{
    let mut shares: Vec<u64> = Vec::new();
    if weights.len() == 0 {
        return shares;
    }
    let mut acc: u64 = 0;
    let mut i: usize = 0;
    let last = weights.len() - 1;
    while i < last
        invariant
            weight_sum > 0,
            weight_sum == seq_sum(weights@),
            last == weights@.len() - 1,
            i <= last,
            shares@.len() == i,
            acc == seq_sum(shares@),
            acc * weight_sum <= total * seq_sum(weights@.subrange(0, i as int)),
            seq_sum(weights@.subrange(0, i as int)) <= weight_sum,
            forall|j: int| 0 <= j < i
                ==> #[trigger] shares@[j] == total * weights@[j] / (weight_sum as int),
            forall|j: int| 0 <= j < i ==> #[trigger] shares@[j] <= total,
            acc <= total,
        decreases last - i,
    {
        let w = weights[i];
        proof {
            lemma_seq_sum_prefix(weights@, i as int);
            lemma_seq_sum_prefix_le(weights@, i + 1);
        }
        let ghost prefix_next = seq_sum(weights@.subrange(0, (i + 1) as int));
        proof {
            assert((total as int) * (w as int) <= u128::MAX as int) by (nonlinear_arith)
                requires
                    total <= u64::MAX,
                    w <= u64::MAX,
            ;
        }
        let wide: u128 = (total as u128) * (w as u128) / (weight_sum as u128);
        proof {
            vstd::arithmetic::div_mod::lemma_fundamental_div_mod(
                total * w, weight_sum as int);
            vstd::arithmetic::div_mod::lemma_mod_bound(total * w, weight_sum as int);
            assert((total * w / (weight_sum as int)) * weight_sum <= total * w);
            assert(acc * weight_sum + (total * w / (weight_sum as int)) * weight_sum
                <= total * seq_sum(weights@.subrange(0, i as int)) + total * w);
            assert(total * seq_sum(weights@.subrange(0, i as int)) + total * w
                == total * prefix_next) by (nonlinear_arith)
                requires
                    prefix_next == seq_sum(weights@.subrange(0, i as int)) + w,
            ;
            assert((acc + total * w / (weight_sum as int)) * weight_sum
                == acc * weight_sum + (total * w / (weight_sum as int)) * weight_sum)
                by (nonlinear_arith);
            assert(total * prefix_next <= total * weight_sum) by (nonlinear_arith)
                requires
                    prefix_next <= weight_sum,
                    total >= 0,
            ;
            assert(acc + total * w / (weight_sum as int) <= total) by (nonlinear_arith)
                requires
                    (acc + total * w / (weight_sum as int)) * weight_sum
                        <= total * weight_sum,
                    weight_sum > 0,
                    total * w / (weight_sum as int) >= 0,
            ;
        }
        let share = wide as u64;
        let ghost pre_shares = shares@;
        shares.push(share);
        acc = acc + share;
        proof {
            assert(shares@.drop_last() =~= pre_shares);
        }
        i += 1;
    }
    proof {
        lemma_seq_sum_prefix_le(weights@, last as int);
    }
    let last_share = total - acc;
    let ghost pre_shares = shares@;
    shares.push(last_share);
    proof {
        assert(shares@.drop_last() =~= pre_shares);
        assert(seq_sum(shares@) == acc + last_share);
    }
    shares
}

} // verus!
