//! Train/test partition of the rows by a fixed ratio, after an optional
//! shuffle.

use crate::perm::{identity, identity_order, is_permutation, lemma_permutation_covers};
use rand::seq::SliceRandom;
use vstd::prelude::*;
use vstd::seq_lib::{to_multiset_contains, to_multiset_len};

verus! {

/// The share of the rows that goes to training, as a fraction between 0
/// and 1.
#[derive(Clone, Copy, Debug)]
pub struct Ratio {
    numerator: u32,
    denominator: u32,
}

/// Number of training rows among `total` rows for the ratio
/// `numerator / denominator`: the product rounded down.
pub open spec fn train_count(total: nat, numerator: nat, denominator: nat) -> nat {
    (total * numerator) / denominator
}

impl Ratio {
    #[verifier::type_invariant]
    spec fn well_formed(self) -> bool {
        0 < self.denominator && self.numerator <= self.denominator
    }

    /// The fraction's numerator.
    pub closed spec fn numerator(self) -> nat {
        self.numerator as nat
    }

    /// The fraction's denominator.
    pub closed spec fn denominator(self) -> nat {
        self.denominator as nat
    }

    /// The fraction lies between 0 and 1. Every ratio that `new` or
    /// `default` returns does.
    pub open spec fn is_share(self) -> bool {
        0 < self.denominator() && self.numerator() <= self.denominator()
    }

    /// The ratio `numerator / denominator`, where that is a fraction between
    /// 0 and 1.
    pub fn new(numerator: u32, denominator: u32) -> (r: Option<Ratio>)
        ensures
            r is Some <==> 0 < denominator && numerator <= denominator,
            r matches Some(ratio) ==> ratio.numerator() == numerator && ratio.denominator()
                == denominator && ratio.is_share(),
    {
        if 0 < denominator && numerator <= denominator {
            Some(Ratio { numerator, denominator })
        } else {
            None
        }
    }

    /// The number of training rows among `total` rows.
    pub fn train_size(&self, total: usize) -> (n: usize)
        ensures
            n == train_count(total as nat, self.numerator(), self.denominator()),
            n <= total,
            self.is_share(),
    {
        proof {
            use_type_invariant(self);
        }
        let t = total as u128;
        let num = self.numerator as u128;
        let den = self.denominator as u128;
        assert(t * num <= t * den && t * den <= 0xffff_ffff_ffff_ffff * 0xffff_ffff) by (nonlinear_arith)
            requires
                0 <= t <= 0xffff_ffff_ffff_ffff,
                0 <= num <= den <= 0xffff_ffff,
        ;
        let n = (t * num) / den;
        assert(n <= t) by (nonlinear_arith)
            requires
                n == (t * num) as int / (den as int),
                t * num <= t * den,
                0 < den,
                0 <= t,
        ;
        n as usize
    }
}

impl Default for Ratio {
    /// Four fifths of the rows train, one fifth tests.
    fn default() -> (r: Ratio)
        ensures
            r.numerator() == 4,
            r.denominator() == 5,
            r.is_share(),
    {
        Ratio { numerator: 4, denominator: 5 }
    }
}

/// The rows of the training partition and those of the test partition, each
/// named by its number in the loaded dataset.
#[derive(Debug)]
pub struct TrainTestSplit {
    /// Rows to train on.
    pub train: Vec<usize>,
    /// Rows held out for evaluation.
    pub test: Vec<usize>,
}

/// Shuffles `rows` with `rand::seq::SliceRandom::shuffle`, drawing from
/// `rand::thread_rng`. The shuffle only swaps items, so whatever is drawn
/// the rows are the same ones afterwards, each as often as before.
#[verifier::external_body]
fn shuffle(rows: &mut Vec<usize>)
    ensures
        final(rows)@.to_multiset() == old(rows)@.to_multiset(),
{
    rows.shuffle(&mut rand::thread_rng());
}

/// A sequence that holds the same items as a permutation of `0..n` is one
/// too.
proof fn lemma_same_items_permutation(before: Seq<usize>, after: Seq<usize>, n: nat)
    requires
        is_permutation(before, n),
        after.to_multiset() == before.to_multiset(),
    ensures
        is_permutation(after, n),
{
    to_multiset_len(before);
    to_multiset_len(after);
    assert forall|i: int| 0 <= i < after.len() implies #[trigger] after[i] < n by {
        assert(after.contains(after[i]));
        to_multiset_contains(after, after[i]);
        to_multiset_contains(before, after[i]);
        let j = choose|j: int| 0 <= j < before.len() && before[j] == after[i];
        assert(before[j] < n);
    }
    assert(before.no_duplicates()) by {
        assert forall|i: int, j: int|
            0 <= i < before.len() && 0 <= j < before.len() && i != j implies before[i]
            != before[j] by {
            if i < j {
                assert(before[i] != before[j]);
            } else {
                assert(before[j] != before[i]);
            }
        }
    }
    before.lemma_multiset_has_no_duplicates();
    after.lemma_multiset_has_no_duplicates_conv();
}

/// Returns the row numbers `0..n` in a random order.
pub fn random_order(n: usize) -> (order: Vec<usize>)
    ensures
        is_permutation(order@, n as nat),
{
    let mut order = identity_order(n);
    let ghost before = order@;
    shuffle(&mut order);
    proof {
        lemma_same_items_permutation(before, order@, n as nat);
    }
    order
}

/// Returns the order in which the rows are split: a random one when
/// `shuffled`, else the order of the dataset.
pub fn row_order(n: usize, shuffled: bool) -> (order: Vec<usize>)
    ensures
        is_permutation(order@, n as nat),
        !shuffled ==> order@ == identity(n as nat),
{
    if shuffled {
        random_order(n)
    } else {
        identity_order(n)
    }
}

/// Splits `order`: the first `floor(len * ratio)` rows train, the rest
/// test.
pub fn split_order(order: &Vec<usize>, ratio: &Ratio) -> (split: TrainTestSplit)
    ensures
        split.train.len() == train_count(order@.len(), ratio.numerator(), ratio.denominator()),
        split.train.len() + split.test.len() == order.len(),
        split.train@ == order@.take(split.train.len() as int),
        split.test@ == order@.skip(split.train.len() as int),
{
    let cut = ratio.train_size(order.len());
    let mut train: Vec<usize> = Vec::new();
    let mut test: Vec<usize> = Vec::new();
    let mut i: usize = 0;
    while i < order.len()
        invariant
            i <= order.len(),
            cut <= order.len(),
            i <= cut ==> train@ == order@.take(i as int) && test@ == Seq::<usize>::empty(),
            i > cut ==> train@ == order@.take(cut as int) && test@ == order@.subrange(
                cut as int,
                i as int,
            ),
        decreases order.len() - i,
    {
        if i < cut {
            train.push(order[i]);
            assert(train@ =~= order@.take(i + 1));
        } else {
            test.push(order[i]);
            assert(train@ =~= order@.take(cut as int));
            assert(test@ =~= order@.subrange(cut as int, i + 1));
        }
        i += 1;
    }
    assert(train@ =~= order@.take(cut as int));
    assert(test@ =~= order@.skip(cut as int));
    TrainTestSplit { train, test }
}

/// `split` partitions `n` rows by `ratio`: some arrangement of the rows, the
/// dataset's own unless `shuffled`, is cut after the first
/// `floor(n * ratio)` rows.
pub open spec fn is_split_of(split: TrainTestSplit, n: nat, ratio: Ratio, shuffled: bool) -> bool {
    exists|order: Seq<usize>|
        {
            &&& #[trigger] is_permutation(order, n)
            &&& !shuffled ==> order == identity(n)
            &&& split.train@ == order.take(
                train_count(n, ratio.numerator(), ratio.denominator()) as int,
            )
            &&& split.test@ == order.skip(
                train_count(n, ratio.numerator(), ratio.denominator()) as int,
            )
        }
}

/// Arranges `n` rows, shuffled or not, and splits them by `ratio`.
pub fn arrange_split(n: usize, ratio: &Ratio, shuffled: bool) -> (split: TrainTestSplit)
    ensures
        is_split_of(split, n as nat, *ratio, shuffled),
        split.train.len() == train_count(n as nat, ratio.numerator(), ratio.denominator()),
        split.train.len() + split.test.len() == n,
{
    let order = row_order(n, shuffled);
    split_order(&order, ratio)
}

/// Cutting a permutation of the rows in two gives two partitions that share
/// no row and between them hold every row.
pub proof fn lemma_split_partitions(order: Seq<usize>, n: nat, cut: int, row: usize)
    requires
        is_permutation(order, n),
        0 <= cut <= n,
        row < n,
    ensures
        order.take(cut).contains(row) != order.skip(cut).contains(row),
{
    lemma_permutation_covers(order, n, row as int);
    let at = choose|i: int| 0 <= i < order.len() && order[i] == row;
    if at < cut {
        assert(order.take(cut)[at] == row);
        if order.skip(cut).contains(row) {
            let j = choose|j: int| 0 <= j < order.skip(cut).len() && order.skip(cut)[j] == row;
            assert(order[at] != order[cut + j]);
        }
    } else {
        assert(order.skip(cut)[at - cut] == row);
        if order.take(cut).contains(row) {
            let j = choose|j: int| 0 <= j < order.take(cut).len() && order.take(cut)[j] == row;
            assert(order[j] != order[at]);
        }
    }
}

/// No more rows train than there are rows.
pub proof fn lemma_train_count_bound(total: nat, numerator: nat, denominator: nat)
    requires
        0 < denominator,
        numerator <= denominator,
    ensures
        train_count(total, numerator, denominator) <= total,
{
    assert((total * numerator) / denominator <= total) by (nonlinear_arith)
        requires
            0 < denominator,
            numerator <= denominator,
    ;
}

/// The two partitions of a split share no row and between them hold every
/// row of the dataset.
pub proof fn lemma_split_covers_once(
    split: TrainTestSplit,
    n: nat,
    ratio: Ratio,
    shuffled: bool,
    row: usize,
)
    requires
        ratio.is_share(),
        is_split_of(split, n, ratio, shuffled),
        row < n,
    ensures
        split.train@.contains(row) != split.test@.contains(row),
        split.train@.len() + split.test@.len() == n,
{
    let cut = train_count(n, ratio.numerator(), ratio.denominator()) as int;
    lemma_train_count_bound(n, ratio.numerator(), ratio.denominator());
    let order = choose|order: Seq<usize>|
        {
            &&& #[trigger] is_permutation(order, n)
            &&& !shuffled ==> order == identity(n)
            &&& split.train@ == order.take(cut)
            &&& split.test@ == order.skip(cut)
        };
    lemma_split_partitions(order, n, cut, row);
}

} // verus!
