//! Exact percentiles of a handful of raw values, by the nearest-rank rule.
//!
//! The metrics window keeps a histogram and never the values themselves; this is for
//! callers that do keep them.

use vstd::prelude::*;
use vstd::relations::{sorted_by, total_ordering};
use vstd::seq_lib::{lemma_sorted_unique, to_multiset_build, to_multiset_insert};

verus! {

/// The order of the values: at most.
pub open spec fn at_most() -> spec_fn(u64, u64) -> bool {
    |a: u64, b: u64| a <= b
}

/// The values in ascending order.
pub open spec fn ascending(values: Seq<u64>) -> Seq<u64> {
    values.sort_by(at_most())
}

/// The place, counting from 0 in ascending order, of the `pct`-th percentile among `n`
/// values: the `pct` hundredths of `n`, rounded up, less one; the first place for a share of
/// nothing, the last for more than all.
pub open spec fn rank_index(n: nat, pct: u8) -> int {
    let rank = (pct * n + 99) / 100;
    if rank < 1 {
        0
    } else if rank > n {
        n - 1
    } else {
        rank - 1
    }
}

/// The `pct`-th percentile of the values by the nearest-rank rule; 0 where there are none.
pub open spec fn nearest_rank(values: Seq<u64>, pct: u8) -> u64 {
    if values.len() == 0 {
        0
    } else {
        ascending(values)[rank_index(values.len(), pct)]
    }
}

/// At most is a total order.
pub proof fn lemma_at_most_orders()
    ensures
        total_ordering(at_most()),
{
    let leq = at_most();
    assert(vstd::relations::reflexive(leq)) by {
        assert forall|x: u64| #[trigger] leq(x, x) by {}
    }
    assert(vstd::relations::antisymmetric(leq)) by {
        assert forall|x: u64, y: u64| #[trigger] leq(x, y) && #[trigger] leq(y, x) implies x
            == y by {}
    }
    assert(vstd::relations::transitive(leq)) by {
        assert forall|x: u64, y: u64, z: u64| #[trigger]
            leq(x, y) && #[trigger] leq(y, z) implies leq(x, z) by {}
    }
    assert(vstd::relations::strongly_connected(leq)) by {
        assert forall|x: u64, y: u64| #[trigger] leq(x, y) || #[trigger] leq(y, x) by {}
    }
}

/// The values in ascending order hold what the values hold, each as often, and none of
/// them stands before a smaller one.
pub proof fn lemma_ascending(values: Seq<u64>)
    ensures
        ascending(values).len() == values.len(),
        ascending(values).to_multiset() == values.to_multiset(),
        forall|i: int, j: int|
            0 <= i < j < values.len() ==> ascending(values)[i] <= ascending(values)[j],
{
    lemma_at_most_orders();
    values.lemma_sort_by_ensures(at_most());
    vstd::seq_lib::to_multiset_len(values);
    vstd::seq_lib::to_multiset_len(ascending(values));
    let sorted = ascending(values);
    assert forall|i: int, j: int| 0 <= i < j < values.len() implies sorted[i] <= sorted[j] by {
        assert(at_most()(sorted[i], sorted[j]));
    }
}

/// The values in ascending order.
pub fn sorted(values: &[u64]) -> (out: Vec<u64>)
    ensures
        out@ == ascending(values@),
{
    let n = values.len();
    let mut out: Vec<u64> = Vec::new();
    let mut i: usize = 0;
    assert(out@ =~= values@.subrange(0, 0));
    while i < n
        invariant
            n == values@.len(),
            i <= n,
            out@.len() == i,
            sorted_by(out@, at_most()),
            out@.to_multiset() == values@.subrange(0, i as int).to_multiset(),
        decreases n - i,
    {
        let v = values[i];
        let mut j: usize = 0;
        while j < out.len() && out[j] <= v
            invariant
                j <= out@.len(),
                forall|k: int| 0 <= k < j ==> out@[k] <= v,
            decreases out@.len() - j,
        {
            j = j + 1;
        }
        let ghost before = out@;
        out.insert(j, v);
        proof {
            to_multiset_insert(before, j as int, v);
            let taken = values@.subrange(0, i as int);
            assert(values@.subrange(0, i + 1) =~= taken.push(v));
            to_multiset_build(taken, v);
            let after = out@;
            assert forall|a: int, b: int| 0 <= a < b < after.len() implies #[trigger] at_most()(
                after[a],
                after[b],
            ) by {
                if b < j {
                    assert(at_most()(before[a], before[b]));
                } else if b == j {
                } else if a < j {
                    assert(at_most()(before[a], before[b - 1]));
                } else if a == j {
                    assert(at_most()(before[j as int], before[b - 1]) || b - 1 == j);
                } else {
                    assert(at_most()(before[a - 1], before[b - 1]));
                }
            }
        }
        i = i + 1;
    }
    proof {
        assert(values@.subrange(0, n as int) =~= values@);
        lemma_at_most_orders();
        values@.lemma_sort_by_ensures(at_most());
        lemma_sorted_unique(out@, ascending(values@), at_most());
    }
    out
}

/// The `pct`-th percentile of the values by the nearest-rank rule; 0 where there are none.
pub fn percentile(values: &[u64], pct: u8) -> (p: u64)
    ensures
        p == nearest_rank(values@, pct),
{
    let n = values.len();
    if n == 0 {
        return 0;
    }
    let ordered = sorted(values);
    proof {
        lemma_ascending(values@);
    }
    assert(pct * n <= 255 * 0xffff_ffff_ffff_ffff) by (nonlinear_arith)
        requires
            pct <= 255,
            n <= 0xffff_ffff_ffff_ffff,
    ;
    let rank: u128 = (pct as u128 * n as u128 + 99) / 100;
    let index: usize = if rank < 1 {
        0
    } else if rank > n as u128 {
        n - 1
    } else {
        (rank - 1) as usize
    };
    ordered[index]
}

} // verus!
