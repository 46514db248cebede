//! Nearest-rank percentile estimation over latency samples.
//!
//! A percentile is asked for as a rank on the scale `RANK_SCALE`, so that the
//! rank `r` stands for the fraction `r / RANK_SCALE` of the distribution:
//! rank 0 is p = 0.0, rank 5000 is p = 0.5, rank 10000 is p = 1.0. The rule is
//! nearest-rank: sort a copy of the samples ascending and pick the entry at
//! `round(p * (len - 1))`, rounding to the nearest index with ties away from
//! zero. An empty sample set has no percentile at all (`None`).

use vstd::prelude::*;
use vstd::relations::{sorted_by, total_ordering};
use vstd::seq_lib::lemma_sorted_unique;
use vstd::arithmetic::div_mod::{
    lemma_basic_div, lemma_div_is_ordered, lemma_div_multiples_vanish_fancy, lemma_div_pos_is_pos,
};

verus! {

broadcast use vstd::seq_lib::group_to_multiset_ensures;

/// Scale of percentile ranks: a rank `r` asks for the fraction `r / RANK_SCALE`.
pub const RANK_SCALE: u32 = 10_000;

/// The ascending order on samples that the estimator sorts by.
pub open spec fn le_order() -> spec_fn(u64, u64) -> bool {
    |a: u64, b: u64| a <= b
}

pub proof fn lemma_le_order_total()
    ensures
        total_ordering(le_order()),
{
    assert forall|a: u64| #[trigger] le_order()(a, a) by {}
}

/// The ascending rearrangement of a sample sequence.
pub open spec fn sort_spec(s: Seq<u64>) -> Seq<u64> {
    s.sort_by(le_order())
}

/// What sorting promises: same multiset, ascending order, same length.
pub proof fn lemma_sort_spec_ensures(s: Seq<u64>)
    ensures
        sort_spec(s).to_multiset() == s.to_multiset(),
        sorted_by(sort_spec(s), le_order()),
        sort_spec(s).len() == s.len(),
{
    lemma_le_order_total();
    s.lemma_sort_by_ensures(le_order());
    assert(sort_spec(s).to_multiset() =~= s.to_multiset());
    assert(sort_spec(s).len() == sort_spec(s).to_multiset().len());
    assert(s.len() == s.to_multiset().len());
}

/// The index that the nearest-rank rule picks in a sorted sequence of length
/// `len`: `round(rank / RANK_SCALE * (len - 1))`, ties rounded away from zero,
/// written over integers.
pub open spec fn rank_index(len: int, rank: int) -> int {
    (2 * rank * (len - 1) + RANK_SCALE) / (2 * RANK_SCALE as int)
}

/// The sample that the nearest-rank rule picks from a non-empty sequence.
pub open spec fn percentile_value(s: Seq<u64>, rank: int) -> u64 {
    sort_spec(s)[rank_index(s.len() as int, rank)]
}

/// The percentile of a sample sequence: undefined (`None`) when the sequence
/// is empty, otherwise the sorted entry at the nearest-rank index.
pub open spec fn percentile_spec(s: Seq<u64>, rank: int) -> Option<u64> {
    if s.len() == 0 {
        None
    } else {
        Some(percentile_value(s, rank))
    }
}

/// The nearest-rank index always lands inside the sequence.
pub proof fn lemma_rank_index_bounds(len: int, rank: int)
    requires
        1 <= len,
        0 <= rank <= RANK_SCALE,
    ensures
        0 <= rank_index(len, rank) <= len - 1,
{
    let scale = RANK_SCALE as int;
    let num = 2 * rank * (len - 1) + scale;
    let den = 2 * scale;
    assert(0 <= 2 * rank * (len - 1) && 2 * rank * (len - 1) <= den * (len - 1))
        by (nonlinear_arith)
        requires
            0 <= rank <= scale,
            1 <= len,
            den == 2 * scale,
    ;
    lemma_div_pos_is_pos(num, den);
    lemma_div_is_ordered(num, den * (len - 1) + scale, den);
    lemma_div_multiples_vanish_fancy(len - 1, scale, den);
}

/// Rank 0 picks the first sorted entry and rank `RANK_SCALE` the last one.
pub proof fn lemma_rank_index_extremes(len: int)
    requires
        1 <= len,
    ensures
        rank_index(len, 0) == 0,
        rank_index(len, RANK_SCALE as int) == len - 1,
{
    let scale = RANK_SCALE as int;
    let den = 2 * scale;
    assert(2 * 0 * (len - 1) == 0) by (nonlinear_arith);
    lemma_basic_div(scale, den);
    assert(2 * scale * (len - 1) + scale == den * (len - 1) + scale) by (nonlinear_arith)
        requires
            den == 2 * scale,
    ;
    lemma_div_multiples_vanish_fancy(len - 1, scale, den);
}

/// The percentile of a non-empty sequence is one of its samples.
pub proof fn lemma_percentile_in_samples(s: Seq<u64>, rank: int)
    requires
        s.len() > 0,
        0 <= rank <= RANK_SCALE,
    ensures
        s.contains(percentile_value(s, rank)),
{
    lemma_sort_spec_ensures(s);
    lemma_rank_index_bounds(s.len() as int, rank);
    let idx = rank_index(s.len() as int, rank);
    let sorted = sort_spec(s);
    assert(sorted.contains(sorted[idx]));
    assert(s.to_multiset().count(sorted[idx]) > 0);
}

/// Rank 0 yields the minimum and rank `RANK_SCALE` the maximum of a non-empty
/// sample sequence.
pub proof fn lemma_percentile_extremes(s: Seq<u64>)
    requires
        s.len() > 0,
    ensures
        s.contains(percentile_value(s, 0)),
        forall|i: int| 0 <= i < s.len() ==> percentile_value(s, 0) <= #[trigger] s[i],
        s.contains(percentile_value(s, RANK_SCALE as int)),
        forall|i: int| 0 <= i < s.len() ==> #[trigger] s[i] <= percentile_value(s, RANK_SCALE as int),
{
    lemma_sort_spec_ensures(s);
    lemma_rank_index_extremes(s.len() as int);
    lemma_percentile_in_samples(s, 0);
    lemma_percentile_in_samples(s, RANK_SCALE as int);
    let sorted = sort_spec(s);
    let last = s.len() as int - 1;
    assert forall|i: int| 0 <= i < s.len() implies percentile_value(s, 0) <= #[trigger] s[i] by {
        assert(s.contains(s[i]));
        assert(sorted.to_multiset().count(s[i]) > 0);
        assert(sorted.contains(s[i]));
        let j = choose|j: int| 0 <= j < sorted.len() && sorted[j] == s[i];
        if j > 0 {
            assert(le_order()(sorted[0], sorted[j]));
        }
    }
    assert forall|i: int| 0 <= i < s.len() implies #[trigger] s[i]
        <= percentile_value(s, RANK_SCALE as int) by {
        assert(s.contains(s[i]));
        assert(sorted.to_multiset().count(s[i]) > 0);
        assert(sorted.contains(s[i]));
        let j = choose|j: int| 0 <= j < sorted.len() && sorted[j] == s[i];
        if j < last {
            assert(le_order()(sorted[j], sorted[last]));
        }
    }
}

/// A higher rank never picks a smaller sample: the percentile is monotone in
/// its rank, so in particular a round's p50 never exceeds its p95.
pub proof fn lemma_percentile_monotone(s: Seq<u64>, rank1: int, rank2: int)
    requires
        s.len() > 0,
        0 <= rank1 <= rank2 <= RANK_SCALE,
    ensures
        percentile_value(s, rank1) <= percentile_value(s, rank2),
{
    lemma_sort_spec_ensures(s);
    let len = s.len() as int;
    lemma_rank_index_bounds(len, rank1);
    lemma_rank_index_bounds(len, rank2);
    assert(2 * rank1 * (len - 1) <= 2 * rank2 * (len - 1)) by (nonlinear_arith)
        requires
            0 <= rank1 <= rank2,
            len >= 1,
    ;
    lemma_div_is_ordered(
        2 * rank1 * (len - 1) + RANK_SCALE as int,
        2 * rank2 * (len - 1) + RANK_SCALE as int,
        2 * RANK_SCALE as int,
    );
    let i1 = rank_index(len, rank1);
    let i2 = rank_index(len, rank2);
    if i1 < i2 {
        assert(le_order()(sort_spec(s)[i1], sort_spec(s)[i2]));
    }
}

/// Order-independence: two sequences holding the same samples (as a multiset)
/// have the same percentile at every rank.
pub proof fn lemma_percentile_permutation(s1: Seq<u64>, s2: Seq<u64>, rank: int)
    requires
        s1.to_multiset() == s2.to_multiset(),
    ensures
        percentile_spec(s1, rank) == percentile_spec(s2, rank),
{
    lemma_le_order_total();
    lemma_sort_spec_ensures(s1);
    lemma_sort_spec_ensures(s2);
    assert(s1.len() == s1.to_multiset().len());
    assert(s2.len() == s2.to_multiset().len());
    lemma_sorted_unique(sort_spec(s1), sort_spec(s2), le_order());
    assert(sort_spec(s1) == sort_spec(s2));
}

/// Builds the ascending rearrangement of `v` by insertion, leaving `v` itself
/// untouched.
fn sorted_copy(v: &Vec<u64>) -> (r: Vec<u64>)
    ensures
        r@.to_multiset() == v@.to_multiset(),
        sorted_by(r@, le_order()),
        r@.len() == v@.len(),
{
    let mut r: Vec<u64> = Vec::new();
    let mut i: usize = 0;
    proof {
        assert(v@.subrange(0, 0) =~= Seq::<u64>::empty());
        assert(r@ =~= Seq::<u64>::empty());
    }
    while i < v.len()
        invariant
            i <= v@.len(),
            sorted_by(r@, le_order()),
            r@.to_multiset() == v@.subrange(0, i as int).to_multiset(),
            r@.len() == i,
        decreases v@.len() - i,
    {
        let x = v[i];
        let mut j: usize = 0;
        while j < r.len() && r[j] <= x
            invariant
                j <= r@.len(),
                forall|k: int| 0 <= k < j ==> #[trigger] r@[k] <= x,
            decreases r@.len() - j,
        {
            j += 1;
        }
        let ghost r_old = r@;
        proof {
            r_old.insert_ensures(j as int, x);
        }
        r.insert(j, x);
        proof {
            let r_new = r_old.insert(j as int, x);
            assert(r@ == r_new);
            assert forall|a: int, b: int| 0 <= a < b < r_new.len() implies #[trigger] le_order()(
                r_new[a],
                r_new[b],
            ) by {
                if b < j {
                    assert(le_order()(r_old[a], r_old[b]));
                } else if a < j && b == j {
                    assert(r_new[a] == r_old[a] && r_old[a] <= x);
                } else if a < j && b > j {
                    assert(r_new[b] == r_old[b - 1]);
                    if b - 1 == a {
                        assert(r_old[a] <= x && x < r_old[b - 1]) by {
                            assert(j < r_old.len());
                        }
                    } else {
                        assert(le_order()(r_old[a], r_old[b - 1]));
                    }
                    assert(r_old[a] <= r_old[b - 1]);
                } else if a == j {
                    assert(r_new[b] == r_old[b - 1]);
                    assert(j < r_old.len());
                    assert(x < r_old[j as int]);
                    if b - 1 == j {
                        assert(r_new[b] == r_old[j as int]);
                    } else {
                        assert(le_order()(r_old[j as int], r_old[b - 1]));
                    }
                } else {
                    assert(r_new[a] == r_old[a - 1] && r_new[b] == r_old[b - 1]);
                    assert(le_order()(r_old[a - 1], r_old[b - 1]));
                }
            }
            assert(v@.subrange(0, i + 1) =~= v@.subrange(0, i as int).push(v@[i as int]));
        }
        i += 1;
    }
    proof {
        assert(v@.subrange(0, v@.len() as int) =~= v@);
    }
    r
}

/// Nearest-rank percentile of a sample sequence, `rank / RANK_SCALE` being the
/// requested fraction. Returns `None` exactly when `samples` is empty;
/// otherwise the entry of the ascending rearrangement of `samples` at index
/// `round(rank / RANK_SCALE * (len - 1))`, ties away from zero. The input
/// vector itself is left as it was.
pub fn percentile(samples: &Vec<u64>, rank: u32) -> (r: Option<u64>)
    requires
        rank <= RANK_SCALE,
    ensures
        r == percentile_spec(samples@, rank as int),
{
    if samples.len() == 0 {
        return None;
    }
    let s = sorted_copy(samples);
    let len = s.len();
    let rank_wide: u128 = rank as u128;
    let len_m1: u128 = (len - 1) as u128;
    proof {
        assert(2 * rank_wide * len_m1 <= 2 * (RANK_SCALE as u128) * (u64::MAX as u128))
            by (nonlinear_arith)
            requires
                rank_wide <= RANK_SCALE as u128,
                len_m1 <= u64::MAX as u128,
        ;
    }
    let num: u128 = 2 * rank_wide * len_m1 + (RANK_SCALE as u128);
    let den: u128 = 2 * (RANK_SCALE as u128);
    proof {
        lemma_rank_index_bounds(len as int, rank as int);
        assert(num == 2 * (rank as int) * (len as int - 1) + RANK_SCALE as int)
            by (nonlinear_arith)
            requires
                num == 2 * rank_wide * len_m1 + (RANK_SCALE as u128),
                rank_wide == rank as int,
                len_m1 == len as int - 1,
        ;
    }
    let idx128: u128 = num / den;
    proof {
        assert(idx128 == rank_index(len as int, rank as int));
    }
    let idx: usize = idx128 as usize;
    proof {
        lemma_le_order_total();
        lemma_sort_spec_ensures(samples@);
        lemma_sorted_unique(s@, sort_spec(samples@), le_order());
        assert(s@ == sort_spec(samples@));
    }
    Some(s[idx])
}

} // verus!
