//! Accuracy of a classifier: the share of predictions that agree with the
//! true labels.

use crate::error::ErrorKind;
use crate::perm::{is_permutation, lemma_permutation_covers};
use vstd::prelude::*;

verus! {

/// Number of positions at which `predicted` and `actual`, of equal length,
/// hold the same label.
pub open spec fn agreements(predicted: Seq<usize>, actual: Seq<usize>) -> nat
    decreases predicted.len(),
{
    if predicted.len() == 0 || actual.len() == 0 {
        0
    } else {
        agreements(predicted.drop_last(), actual.drop_last()) + if predicted.last()
            == actual.last() {
            1nat
        } else {
            0nat
        }
    }
}

/// `labels` taken in the order that `order` gives: place `i` holds
/// `labels[order[i]]`.
pub open spec fn rearranged(labels: Seq<usize>, order: Seq<usize>) -> Seq<usize> {
    Seq::new(order.len(), |i: int| labels[order[i] as int])
}

/// An accuracy as the fraction `numerator / denominator`. The denominator is
/// never zero: comparing nothing gives `0 / 1`.
#[derive(Clone, Copy, Debug, PartialEq, Eq, Structural)]
pub struct Accuracy {
    /// Number of predictions that were right.
    pub numerator: usize,
    /// Number of predictions, or 1 where there were none.
    pub denominator: usize,
}

impl Accuracy {
    /// The fraction lies between 0 and 1.
    pub open spec fn is_share(self) -> bool {
        self.numerator <= self.denominator && self.denominator >= 1
    }
}

/// The share of `predicted` that agrees with `actual`, both of one length;
/// `0 / 1` when they are empty.
pub open spec fn accuracy_of(predicted: Seq<usize>, actual: Seq<usize>) -> Accuracy {
    Accuracy {
        numerator: agreements(predicted, actual) as usize,
        denominator: if predicted.len() == 0 {
            1
        } else {
            predicted.len() as usize
        },
    }
}

/// There are no more agreements than positions.
pub proof fn lemma_agreements_bound(predicted: Seq<usize>, actual: Seq<usize>)
    requires
        predicted.len() == actual.len(),
    ensures
        agreements(predicted, actual) <= predicted.len(),
    decreases predicted.len(),
{
    if predicted.len() > 0 {
        lemma_agreements_bound(predicted.drop_last(), actual.drop_last());
    }
}

/// Leaving out position `at` of both sequences takes away the agreement at
/// that position and no other.
proof fn lemma_agreements_remove(predicted: Seq<usize>, actual: Seq<usize>, at: int)
    requires
        predicted.len() == actual.len(),
        0 <= at < predicted.len(),
    ensures
        agreements(predicted, actual) == agreements(predicted.remove(at), actual.remove(at))
            + if predicted[at] == actual[at] {
            1nat
        } else {
            0nat
        },
    decreases predicted.len(),
{
    if at == predicted.len() - 1 {
        assert(predicted.remove(at) =~= predicted.drop_last());
        assert(actual.remove(at) =~= actual.drop_last());
    } else {
        lemma_agreements_remove(predicted.drop_last(), actual.drop_last(), at);
        assert(predicted.remove(at).drop_last() =~= predicted.drop_last().remove(at));
        assert(actual.remove(at).drop_last() =~= actual.drop_last().remove(at));
        assert(predicted.remove(at).last() == predicted.last());
        assert(actual.remove(at).last() == actual.last());
    }
}

/// The number of agreements does not change when the predictions and the
/// true labels are rearranged by the same permutation.
pub proof fn lemma_agreements_permutation(
    predicted: Seq<usize>,
    actual: Seq<usize>,
    order: Seq<usize>,
)
    requires
        predicted.len() == actual.len(),
        is_permutation(order, predicted.len()),
    ensures
        agreements(rearranged(predicted, order), rearranged(actual, order)) == agreements(
            predicted,
            actual,
        ),
    decreases predicted.len(),
{
    let n = predicted.len();
    if n > 0 {
        let last = n - 1;
        lemma_permutation_covers(order, n, last);
        let at = choose|i: int| 0 <= i < order.len() && order[i] == last;
        let rest = order.remove(at);
        assert(is_permutation(rest, last as nat)) by {
            assert forall|i: int| 0 <= i < rest.len() implies #[trigger] rest[i] < last by {
                if i < at {
                    assert(rest[i] == order[i]);
                    assert(order[i] != order[at]);
                } else {
                    assert(rest[i] == order[i + 1]);
                    assert(order[at] != order[i + 1]);
                }
            }
            assert forall|i: int, j: int|
                #![trigger rest[i], rest[j]]
                0 <= i < j < rest.len() implies rest[i] != rest[j] by {
                let oi = if i < at {
                    i
                } else {
                    i + 1
                };
                let oj = if j < at {
                    j
                } else {
                    j + 1
                };
                assert(rest[i] == order[oi] && rest[j] == order[oj]);
                assert(order[oi] != order[oj]);
            }
        }
        let moved_predicted = rearranged(predicted, order);
        let moved_actual = rearranged(actual, order);
        lemma_agreements_remove(moved_predicted, moved_actual, at);
        assert(moved_predicted.remove(at) =~= rearranged(predicted.drop_last(), rest));
        assert(moved_actual.remove(at) =~= rearranged(actual.drop_last(), rest));
        lemma_agreements_permutation(predicted.drop_last(), actual.drop_last(), rest);
    }
}

/// The accuracy does not change when the predictions and the true labels
/// are rearranged by the same permutation.
pub proof fn lemma_accuracy_permutation(predicted: Seq<usize>, actual: Seq<usize>, order: Seq<usize>)
    requires
        predicted.len() == actual.len(),
        is_permutation(order, predicted.len()),
    ensures
        accuracy_of(rearranged(predicted, order), rearranged(actual, order)) == accuracy_of(
            predicted,
            actual,
        ),
{
    lemma_agreements_permutation(predicted, actual, order);
}

/// Compares predictions with the true labels position by position.
///
/// Fails with `Contract` when the two differ in length. Otherwise the
/// numerator counts the agreements and the denominator the positions; with
/// no positions the accuracy is `0 / 1`.
pub fn calculate_accuracy(predictions: &Vec<usize>, true_labels: &Vec<usize>) -> (r: Result<
    Accuracy,
    ErrorKind,
>)
    ensures
        predictions.len() != true_labels.len() ==> r == Err::<Accuracy, ErrorKind>(
            ErrorKind::Contract,
        ),
        predictions.len() == true_labels.len() ==> r == Ok::<Accuracy, ErrorKind>(
            accuracy_of(predictions@, true_labels@),
        ),
        r matches Ok(accuracy) ==> accuracy.is_share(),
{
    if predictions.len() != true_labels.len() {
        return Err(ErrorKind::Contract);
    }
    let n = predictions.len();
    let mut correct: usize = 0;
    let mut i: usize = 0;
    while i < n
        invariant
            n == predictions.len(),
            n == true_labels.len(),
            i <= n,
            correct <= i,
            correct == agreements(predictions@.take(i as int), true_labels@.take(i as int)),
        decreases n - i,
    {
        proof {
            assert(predictions@.take(i + 1).drop_last() =~= predictions@.take(i as int));
            assert(true_labels@.take(i + 1).drop_last() =~= true_labels@.take(i as int));
        }
        if predictions[i] == true_labels[i] {
            correct += 1;
        }
        i += 1;
    }
    proof {
        assert(predictions@.take(n as int) =~= predictions@);
        assert(true_labels@.take(n as int) =~= true_labels@);
    }
    let denominator = if n == 0 {
        1
    } else {
        n
    };
    Ok(Accuracy { numerator: correct, denominator })
}

} // verus!
