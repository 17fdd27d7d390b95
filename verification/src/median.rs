//! The per-bucket median. The store computes, for every non-empty
//! bucket, the lower median of each channel: the value a sorted copy of
//! the bucket holds at its middle position. For an odd bucket this is
//! the exact median; for an even one it is the lower of the two middle
//! values, an actual observed value either way.

use vstd::prelude::*;
use vstd::relations::{sorted_by, total_ordering};
use vstd::seq_lib::lemma_sorted_unique;

verus! {

/// The ascending order the medians are taken in.
pub open spec fn le_i32(a: i32, b: i32) -> bool {
    a <= b
}

/// `s` rearranged into ascending order.
pub open spec fn sorted_of(s: Seq<i32>) -> Seq<i32> {
    s.sort_by(|a: i32, b: i32| le_i32(a, b))
}

/// The lower median of `s`: the middle element of its sorted
/// rearrangement.
pub open spec fn median_of(s: Seq<i32>) -> i32
    recommends
        s.len() > 0,
{
    sorted_of(s)[((s.len() - 1) / 2) as int]
}

/// Sorts a copy of `values` ascending.
fn sort_i32(values: &Vec<i32>) -> (r: Vec<i32>)
    ensures
        sorted_by(r@, |a: i32, b: i32| le_i32(a, b)),
        r@.to_multiset() == values@.to_multiset(),
        r@.len() == values@.len(),
{
    broadcast use vstd::seq_lib::group_to_multiset_ensures;

    let ghost leq = |a: i32, b: i32| le_i32(a, b);
    let mut out: Vec<i32> = Vec::new();
    let n = values.len();
    let mut i: usize = 0;
    while i < n
        invariant
            i <= n,
            n == values@.len(),
            leq == (|a: i32, b: i32| le_i32(a, b)),
            sorted_by(out@, leq),
            out@.to_multiset() == values@.take(i as int).to_multiset(),
            out@.len() == i,
        decreases n - i,
    {
        let v = values[i];
        let mut pos: usize = 0;
        while pos < out.len() && out[pos as usize] <= v
            invariant
                pos <= out@.len(),
                forall|k: int| 0 <= k < pos ==> le_i32(#[trigger] out@[k], v),
                leq == (|a: i32, b: i32| le_i32(a, b)),
                sorted_by(out@, leq),
            decreases out@.len() - pos,
        {
            pos = pos + 1;
        }
        let ghost prev = out@;
        proof {
            assert(values@.take(i + 1) =~= values@.take(i as int).push(values@[i as int]));
            vstd::seq_lib::to_multiset_build(values@.take(i as int), values@[i as int]);
            vstd::seq_lib::to_multiset_insert(prev, pos as int, v);
            prev.insert_ensures(pos as int, v);
            let s2 = prev.insert(pos as int, v);
            assert forall|p: int, q: int| 0 <= p < q < s2.len() implies leq(
                #[trigger] s2[p],
                #[trigger] s2[q],
            ) by {
                if q < pos {
                    assert(s2[p] == prev[p] && s2[q] == prev[q]);
                    assert(leq(prev[p], prev[q]));
                    assert(leq(s2[p], s2[q]));
                } else if p < pos && q == pos {
                    assert(s2[p] == prev[p] && s2[q] == v);
                    assert(le_i32(prev[p], v));
                    assert(leq(s2[p], s2[q]));
                } else if p < pos && q > pos {
                    assert(s2[p] == prev[p] && s2[q] == prev[q - 1]);
                    assert(leq(prev[p], prev[q - 1]));
                    assert(leq(s2[p], s2[q]));
                } else if p == pos && q > pos {
                    assert(s2[p] == v && s2[q] == prev[q - 1]);
                    assert(pos < prev.len());
                    assert(!le_i32(prev[pos as int], v));
                    if (pos as int) < q - 1 {
                        assert(leq(prev[pos as int], prev[q - 1]));
                    }
                    assert(le_i32(v, prev[q - 1]));
                    assert(leq(s2[p], s2[q]));
                } else {
                    assert(p > pos && q > pos);
                    assert(s2[p] == prev[p - 1] && s2[q] == prev[q - 1]);
                    assert(leq(prev[p - 1], prev[q - 1]));
                    assert(leq(s2[p], s2[q]));
                }
            }
            assert(sorted_by(s2, leq));
        }
        out.insert(pos, v);
        proof {
            assert(out@ == prev.insert(pos as int, v));
        }
        i = i + 1;
    }
    proof {
        assert(values@.take(n as int) =~= values@);
    }
    out
}

/// Computes the lower median of a non-empty collection of channel
/// values.
pub fn median(values: &Vec<i32>) -> (r: i32)
    requires
        values@.len() > 0,
    ensures
        r == median_of(values@),
{
    let ghost leq = |a: i32, b: i32| le_i32(a, b);
    let sorted = sort_i32(values);
    proof {
        values@.lemma_sort_by_ensures(leq);
        assert(total_ordering(leq));
        lemma_sorted_unique(sorted@, sorted_of(values@), leq);
    }
    sorted[(sorted.len() - 1) / 2]
}

} // verus!
