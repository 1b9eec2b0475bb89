//! k-nearest-neighbour classification from distance keys.
//!
//! The caller measures the distance from a query to every training point
//! and hands over one key per training point; a smaller key is a smaller
//! distance. The classifier ranks the training points, takes the first `k`
//! and lets their labels vote.

use crate::error::ErrorKind;
use crate::order::{
    is_nearest_order, lemma_nearest_order_covers, lemma_nearest_order_unique, nearest_order,
    precedes,
};
use crate::vote::{decides_at, is_majority, lemma_majority_unique, majority_label};
use vstd::prelude::*;

verus! {

/// Labels of the `k` nearest training points, nearest first.
pub open spec fn neighbour_votes(order: Seq<usize>, labels: Seq<usize>, k: int) -> Seq<usize> {
    Seq::new(k as nat, |i: int| labels[order[i] as int])
}

/// `label` is what the `k` nearest neighbours vote for.
pub open spec fn is_knn_label(dist: Seq<u64>, labels: Seq<usize>, k: int, label: usize) -> bool {
    exists|order: Seq<usize>|
        is_nearest_order(dist, order) && is_majority(
            #[trigger] neighbour_votes(order, labels, k),
            label,
        )
}

/// The prediction is a function of the distances, the labels and `k`.
pub proof fn lemma_knn_label_unique(
    dist: Seq<u64>,
    labels: Seq<usize>,
    k: int,
    a: usize,
    b: usize,
)
    requires
        is_knn_label(dist, labels, k, a),
        is_knn_label(dist, labels, k, b),
    ensures
        a == b,
{
    let oa = choose|order: Seq<usize>|
        is_nearest_order(dist, order) && is_majority(
            #[trigger] neighbour_votes(order, labels, k),
            a,
        );
    let ob = choose|order: Seq<usize>|
        is_nearest_order(dist, order) && is_majority(
            #[trigger] neighbour_votes(order, labels, k),
            b,
        );
    lemma_nearest_order_unique(dist, oa, ob);
    lemma_majority_unique(neighbour_votes(oa, labels, k), a, b);
}

/// With one neighbour the prediction is the label of the training point
/// ranked first: the nearest one, and among equally near ones the earliest.
pub proof fn lemma_nearest_neighbour_decides(
    dist: Seq<u64>,
    labels: Seq<usize>,
    nearest: int,
    label: usize,
)
    requires
        dist.len() == labels.len(),
        0 <= nearest < dist.len(),
        forall|i: int| 0 <= i < dist.len() && i != nearest ==> #[trigger] precedes(dist, nearest, i),
        is_knn_label(dist, labels, 1, label),
    ensures
        label == labels[nearest],
{
    let order = choose|order: Seq<usize>|
        is_nearest_order(dist, order) && is_majority(
            #[trigger] neighbour_votes(order, labels, 1),
            label,
        );
    let votes = neighbour_votes(order, labels, 1);
    let first = order[0] as int;
    if first != nearest {
        lemma_nearest_order_covers(dist, order, nearest);
        let at = choose|i: int| 0 <= i < order.len() && order[i] == nearest;
        assert(precedes(dist, order[0] as int, order[at] as int));
        assert(0 <= first < dist.len());
        assert(precedes(dist, nearest, first));
    }
    assert(votes[0] == labels[nearest]);
    let at = choose|at: int| decides_at(votes, at) && votes[at] == label;
    assert(at == 0);
}

/// A query that coincides with exactly one training point, all others being
/// strictly farther, gets that point's label when a single neighbour votes.
pub proof fn lemma_single_nearest_neighbour(
    dist: Seq<u64>,
    labels: Seq<usize>,
    nearest: int,
    label: usize,
)
    requires
        dist.len() == labels.len(),
        0 <= nearest < dist.len(),
        forall|i: int| 0 <= i < dist.len() && i != nearest ==> dist[nearest] < #[trigger] dist[i],
        is_knn_label(dist, labels, 1, label),
    ensures
        label == labels[nearest],
{
    lemma_nearest_neighbour_decides(dist, labels, nearest, label);
}

/// Classifies one query from its distance keys.
///
/// Fails with `Shape` when there is not one key per training label, and
/// with `Contract` when `k` exceeds the number of training points.
pub fn knn_classify(dist: &Vec<u64>, labels: &Vec<usize>, k: usize) -> (r: Result<usize, ErrorKind>)
    ensures
        dist.len() != labels.len() ==> r == Err::<usize, ErrorKind>(ErrorKind::Shape),
        dist.len() == labels.len() && k > labels.len() ==> r == Err::<usize, ErrorKind>(
            ErrorKind::Contract,
        ),
        dist.len() == labels.len() && k <= labels.len() ==> r is Ok && is_knn_label(
            dist@,
            labels@,
            k as int,
            r->Ok_0,
        ),
{
    if dist.len() != labels.len() {
        return Err(ErrorKind::Shape);
    }
    if k > labels.len() {
        return Err(ErrorKind::Contract);
    }
    let order = nearest_order(dist);
    let mut votes: Vec<usize> = Vec::new();
    let mut i: usize = 0;
    while i < k
        invariant
            i <= k <= labels.len(),
            dist.len() == labels.len(),
            is_nearest_order(dist@, order@),
            votes@ == neighbour_votes(order@, labels@, i as int),
        decreases k - i,
    {
        votes.push(labels[order[i]]);
        i += 1;
        assert(votes@ =~= neighbour_votes(order@, labels@, i as int));
    }
    let label = majority_label(&votes);
    Ok(label)
}

/// Every row of `distances` holds one key per training point.
pub open spec fn rows_match(distances: Seq<Vec<u64>>, points: nat) -> bool {
    forall|q: int| 0 <= q < distances.len() ==> (#[trigger] distances[q]).len() == points
}

/// Classifies every query; row `q` of `distances` holds the distance keys
/// from query `q` to the training points.
///
/// Fails with `Contract` when `k` exceeds the number of training points,
/// and otherwise with `Shape` when a row does not hold one key per training
/// label.
pub fn predict_knn(distances: &Vec<Vec<u64>>, train_labels: &Vec<usize>, k: usize) -> (r: Result<
    Vec<usize>,
    ErrorKind,
>)
    ensures
        k > train_labels.len() ==> r == Err::<Vec<usize>, ErrorKind>(ErrorKind::Contract),
        k <= train_labels.len() && !rows_match(distances@, train_labels@.len()) ==> r == Err::<
            Vec<usize>,
            ErrorKind,
        >(ErrorKind::Shape),
        k <= train_labels.len() && rows_match(distances@, train_labels@.len()) ==> {
            &&& r is Ok
            &&& r->Ok_0.len() == distances.len()
            &&& forall|q: int|
                0 <= q < distances.len() ==> is_knn_label(
                    distances[q]@,
                    train_labels@,
                    k as int,
                    #[trigger] r->Ok_0[q],
                )
        },
{
    if k > train_labels.len() {
        return Err(ErrorKind::Contract);
    }
    let mut predictions: Vec<usize> = Vec::new();
    let mut q: usize = 0;
    while q < distances.len()
        invariant
            q <= distances.len(),
            k <= train_labels.len(),
            predictions.len() == q,
            rows_match(distances@.take(q as int), train_labels@.len()),
            forall|p: int|
                0 <= p < q ==> is_knn_label(
                    distances[p]@,
                    train_labels@,
                    k as int,
                    #[trigger] predictions[p],
                ),
        decreases distances.len() - q,
    {
        match knn_classify(&distances[q], train_labels, k) {
            Ok(label) => {
                predictions.push(label);
            },
            Err(_) => {
                assert(distances@[q as int].len() != train_labels@.len());
                return Err(ErrorKind::Shape);
            },
        }
        q += 1;
        assert forall|p: int| 0 <= p < distances@.take(q as int).len() implies (
        #[trigger] distances@.take(q as int)[p]).len() == train_labels@.len() by {
            if p < q - 1 {
                assert(distances@.take(q as int)[p] == distances@.take(q - 1)[p]);
            }
        }
    }
    assert(distances@.take(q as int) =~= distances@);
    Ok(predictions)
}

} // verus!
