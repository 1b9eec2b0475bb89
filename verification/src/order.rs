//! Ranking of the training points by their distance to one query.
//!
//! A distance is given by a key: an integer that grows with the distance.
//! Points at the same distance keep the order they have in the training set.

use crate::perm::{is_permutation, lemma_permutation_covers};
use vstd::prelude::*;

verus! {

/// Training point `a` is ranked before training point `b`: it is nearer, or
/// equally near and earlier in the training set.
pub open spec fn precedes(dist: Seq<u64>, a: int, b: int) -> bool {
    dist[a] < dist[b] || (dist[a] == dist[b] && a < b)
}

/// `points` holds training points from `lo..hi`, each ranked before all that
/// follow it.
pub open spec fn ranked_within(dist: Seq<u64>, points: Seq<usize>, lo: int, hi: int) -> bool {
    &&& forall|i: int| 0 <= i < points.len() ==> lo <= #[trigger] points[i] < hi
    &&& forall|i: int, j: int|
        #![trigger points[i], points[j]]
        0 <= i < j < points.len() ==> precedes(dist, points[i] as int, points[j] as int)
}

/// `order` lists all training points from the nearest to the farthest.
pub open spec fn is_nearest_order(dist: Seq<u64>, order: Seq<usize>) -> bool {
    &&& order.len() == dist.len()
    &&& ranked_within(dist, order, 0, dist.len() as int)
}

/// A nearest order is a permutation of the training points.
pub proof fn lemma_nearest_order_is_permutation(dist: Seq<u64>, order: Seq<usize>)
    requires
        is_nearest_order(dist, order),
    ensures
        is_permutation(order, dist.len()),
{
    assert forall|i: int, j: int|
        #![trigger order[i], order[j]]
        0 <= i < j < order.len() implies order[i] != order[j] by {
        assert(precedes(dist, order[i] as int, order[j] as int));
    }
}

/// A nearest order names every training point.
pub proof fn lemma_nearest_order_covers(dist: Seq<u64>, order: Seq<usize>, point: int)
    requires
        is_nearest_order(dist, order),
        0 <= point < dist.len(),
    ensures
        exists|i: int| 0 <= i < order.len() && order[i] == point,
{
    lemma_nearest_order_is_permutation(dist, order);
    lemma_permutation_covers(order, dist.len(), point);
}

/// Two nearest orders for the same distances agree on their first `upto`
/// places.
proof fn lemma_nearest_orders_agree(dist: Seq<u64>, a: Seq<usize>, b: Seq<usize>, upto: int)
    requires
        is_nearest_order(dist, a),
        is_nearest_order(dist, b),
        0 <= upto <= dist.len(),
    ensures
        forall|i: int| 0 <= i < upto ==> a[i] == b[i],
    decreases upto,
{
    if upto > 0 {
        lemma_nearest_orders_agree(dist, a, b, upto - 1);
        let i = upto - 1;
        let va = a[i];
        let vb = b[i];
        assert(0 <= va < dist.len() && 0 <= vb < dist.len());
        lemma_nearest_order_covers(dist, b, va as int);
        lemma_nearest_order_covers(dist, a, vb as int);
        let jb = choose|j: int| 0 <= j < b.len() && b[j] == va;
        let ja = choose|j: int| 0 <= j < a.len() && a[j] == vb;
        if jb < i {
            assert(precedes(dist, a[jb] as int, a[i] as int));
        } else if ja < i {
            assert(precedes(dist, b[ja] as int, b[i] as int));
        } else if jb > i && ja > i {
            assert(precedes(dist, b[i] as int, b[jb] as int));
            assert(precedes(dist, a[i] as int, a[ja] as int));
        }
    }
}

/// The distances fix the nearest order: there is exactly one.
pub proof fn lemma_nearest_order_unique(dist: Seq<u64>, a: Seq<usize>, b: Seq<usize>)
    requires
        is_nearest_order(dist, a),
        is_nearest_order(dist, b),
    ensures
        a == b,
{
    lemma_nearest_orders_agree(dist, a, b, dist.len() as int);
    assert(a =~= b);
}

/// Merges two ranked runs, the first drawn from `lo..mid` and the second from
/// `mid..hi`, into one ranked run.
fn merge_ranked(
    dist: &Vec<u64>,
    left: &Vec<usize>,
    right: &Vec<usize>,
    Ghost(lo): Ghost<int>,
    Ghost(mid): Ghost<int>,
    Ghost(hi): Ghost<int>,
) -> (merged: Vec<usize>)
    requires
        0 <= lo <= mid <= hi <= dist.len(),
        ranked_within(dist@, left@, lo, mid),
        ranked_within(dist@, right@, mid, hi),
        left.len() + right.len() <= usize::MAX,
    ensures
        merged.len() == left.len() + right.len(),
        ranked_within(dist@, merged@, lo, hi),
{
    let mut merged: Vec<usize> = Vec::new();
    let mut a: usize = 0;
    let mut b: usize = 0;
    while a < left.len() || b < right.len()
        invariant
            0 <= lo <= mid <= hi <= dist.len(),
            ranked_within(dist@, left@, lo, mid),
            ranked_within(dist@, right@, mid, hi),
            a <= left.len(),
            b <= right.len(),
            merged.len() == a + b,
            ranked_within(dist@, merged@, lo, hi),
            forall|i: int, j: int|
                #![trigger merged[i], left[j]]
                0 <= i < merged.len() && a <= j < left.len() ==> precedes(
                    dist@,
                    merged[i] as int,
                    left[j] as int,
                ),
            forall|i: int, j: int|
                #![trigger merged[i], right[j]]
                0 <= i < merged.len() && b <= j < right.len() ==> precedes(
                    dist@,
                    merged[i] as int,
                    right[j] as int,
                ),
        decreases left.len() - a + right.len() - b,
    {
        let from_left = if a == left.len() {
            false
        } else if b == right.len() {
            true
        } else {
            dist[left[a]] <= dist[right[b]]
        };
        let ghost before = merged@;
        if from_left {
            let point = left[a];
            merged.push(point);
            a += 1;
            proof {
                assert forall|i: int, j: int|
                    #![trigger merged[i], right[j]]
                    0 <= i < merged.len() && b <= j < right.len() implies precedes(
                    dist@,
                    merged[i] as int,
                    right[j] as int,
                ) by {
                    if i == before.len() && j > b {
                        assert(precedes(dist@, right[b as int] as int, right[j] as int));
                    }
                }
                assert forall|i: int, j: int|
                    #![trigger merged[i], left[j]]
                    0 <= i < merged.len() && a <= j < left.len() implies precedes(
                    dist@,
                    merged[i] as int,
                    left[j] as int,
                ) by {
                    if i == before.len() {
                        assert(precedes(dist@, left[a - 1] as int, left[j] as int));
                    }
                }
            }
        } else {
            let point = right[b];
            merged.push(point);
            b += 1;
            proof {
                assert forall|i: int, j: int|
                    #![trigger merged[i], left[j]]
                    0 <= i < merged.len() && a <= j < left.len() implies precedes(
                    dist@,
                    merged[i] as int,
                    left[j] as int,
                ) by {
                    if i == before.len() && j > a {
                        assert(precedes(dist@, left[a as int] as int, left[j] as int));
                    }
                }
                assert forall|i: int, j: int|
                    #![trigger merged[i], right[j]]
                    0 <= i < merged.len() && b <= j < right.len() implies precedes(
                    dist@,
                    merged[i] as int,
                    right[j] as int,
                ) by {
                    if i == before.len() {
                        assert(precedes(dist@, right[b - 1] as int, right[j] as int));
                    }
                }
            }
        }
        assert(ranked_within(dist@, merged@, lo, hi)) by {
            assert forall|i: int, j: int|
                #![trigger merged[i], merged[j]]
                0 <= i < j < merged.len() implies precedes(
                dist@,
                merged[i] as int,
                merged[j] as int,
            ) by {
                if j < before.len() {
                    assert(merged[i] == before[i] && merged[j] == before[j]);
                } else {
                    assert(merged[i] == before[i]);
                }
            }
        }
    }
    merged
}

/// Ranks the training points `lo..hi` by merge sort.
fn rank_range(dist: &Vec<u64>, lo: usize, hi: usize) -> (order: Vec<usize>)
    requires
        lo <= hi <= dist.len(),
    ensures
        order.len() == hi - lo,
        ranked_within(dist@, order@, lo as int, hi as int),
    decreases hi - lo,
{
    if hi - lo == 0 {
        Vec::new()
    } else if hi - lo == 1 {
        let mut order: Vec<usize> = Vec::new();
        order.push(lo);
        order
    } else {
        let mid: usize = lo + (hi - lo) / 2;
        let left = rank_range(dist, lo, mid);
        let right = rank_range(dist, mid, hi);
        merge_ranked(dist, &left, &right, Ghost(lo as int), Ghost(mid as int), Ghost(hi as int))
    }
}

/// Lists the training points from the nearest to the farthest; points at the
/// same distance stay in training order.
pub fn nearest_order(dist: &Vec<u64>) -> (order: Vec<usize>)
    ensures
        is_nearest_order(dist@, order@),
{
    rank_range(dist, 0, dist.len())
}

} // verus!
