//! Arrangements of the row numbers `0..n`.

use vstd::prelude::*;
use vstd::seq_lib::seq_to_set_is_finite;
use vstd::set_lib::{lemma_int_range, lemma_subset_equality, set_int_range};

verus! {

/// `order` holds `n` row numbers below `n`, no two of them equal.
pub open spec fn is_permutation(order: Seq<usize>, n: nat) -> bool {
    &&& order.len() == n
    &&& forall|i: int| 0 <= i < order.len() ==> #[trigger] order[i] < n
    &&& forall|i: int, j: int|
        #![trigger order[i], order[j]]
        0 <= i < j < order.len() ==> order[i] != order[j]
}

/// The rows in their own order: `0, 1, .., n - 1`.
pub open spec fn identity(n: nat) -> Seq<usize> {
    Seq::new(n, |i: int| i as usize)
}

/// A permutation of `0..n` names every row number below `n`.
pub proof fn lemma_permutation_covers(order: Seq<usize>, n: nat, row: int)
    requires
        is_permutation(order, n),
        0 <= row < n,
    ensures
        exists|i: int| 0 <= i < order.len() && order[i] == row,
{
    let ints = order.map_values(|p: usize| p as int);
    assert forall|i: int, j: int| 0 <= i < ints.len() && 0 <= j < ints.len() && i != j implies ints[i]
        != ints[j] by {
        if i < j {
            assert(order[i] != order[j]);
        } else {
            assert(order[j] != order[i]);
        }
    }
    ints.unique_seq_to_set();
    seq_to_set_is_finite(ints);
    lemma_int_range(0, n as int);
    assert forall|v: int| ints.to_set().contains(v) implies set_int_range(0, n as int).contains(
        v,
    ) by {
        let i = choose|i: int| 0 <= i < ints.len() && ints[i] == v;
        assert(0 <= order[i] < n);
    }
    lemma_subset_equality(ints.to_set(), set_int_range(0, n as int));
    assert(set_int_range(0, n as int).contains(row));
    assert(ints.contains(row));
    let at = choose|i: int| 0 <= i < ints.len() && ints[i] == row;
    assert(order[at] == row);
}

/// Returns the row numbers `0..n` in their own order.
pub fn identity_order(n: usize) -> (order: Vec<usize>)
    ensures
        order@ == identity(n as nat),
        is_permutation(order@, n as nat),
{
    let mut order: Vec<usize> = Vec::new();
    let mut i: usize = 0;
    while i < n
        invariant
            i <= n,
            order@ == identity(i as nat),
        decreases n - i,
    {
        order.push(i);
        i += 1;
        assert(order@ =~= identity(i as nat));
    }
    order
}

} // verus!
