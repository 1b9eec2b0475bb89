//! Majority vote among the labels of the nearest neighbours.

use std::collections::HashMap;
use vstd::prelude::*;

verus! {

broadcast use vstd::std_specs::hash::group_hash_axioms;

/// Number of times `label` occurs in `votes`.
pub open spec fn tally(votes: Seq<usize>, label: usize) -> nat
    decreases votes.len(),
{
    if votes.len() == 0 {
        0
    } else {
        tally(votes.drop_last(), label) + if votes.last() == label {
            1nat
        } else {
            0nat
        }
    }
}

/// The vote at position `at` is for a label with the highest count, and
/// every vote before it is for a label with a lower count.
pub open spec fn decides_at(votes: Seq<usize>, at: int) -> bool {
    &&& 0 <= at < votes.len()
    &&& forall|l: usize| #[trigger] tally(votes, l) <= tally(votes, votes[at])
    &&& forall|q: int| 0 <= q < at ==> tally(votes, #[trigger] votes[q]) < tally(votes, votes[at])
}

/// `winner` is the label with the highest count; among labels with the same
/// count it is the one that is met first in `votes`. With no votes it is 0.
pub open spec fn is_majority(votes: Seq<usize>, winner: usize) -> bool {
    if votes.len() == 0 {
        winner == 0
    } else {
        exists|at: int| decides_at(votes, at) && votes[at] == winner
    }
}

/// One more vote raises the tally of its label by one and no other.
pub proof fn lemma_tally_push(votes: Seq<usize>, vote: usize, label: usize)
    ensures
        tally(votes.push(vote), label) == tally(votes, label) + if vote == label {
            1nat
        } else {
            0nat
        },
{
    assert(votes.push(vote).drop_last() =~= votes);
}

/// The majority label is unique: the vote has exactly one outcome.
pub proof fn lemma_majority_unique(votes: Seq<usize>, a: usize, b: usize)
    requires
        is_majority(votes, a),
        is_majority(votes, b),
    ensures
        a == b,
{
    if votes.len() > 0 {
        let pa = choose|at: int| decides_at(votes, at) && votes[at] == a;
        let pb = choose|at: int| decides_at(votes, at) && votes[at] == b;
        assert(tally(votes, a) <= tally(votes, b));
        assert(tally(votes, b) <= tally(votes, a));
        if pa < pb {
            assert(tally(votes, votes[pa]) < tally(votes, votes[pb]));
        } else if pb < pa {
            assert(tally(votes, votes[pb]) < tally(votes, votes[pa]));
        }
    }
}

/// Counts the votes and returns the label with the highest count, the one
/// met first where several share it; 0 when there are no votes.
pub fn majority_label(votes: &Vec<usize>) -> (winner: usize)
    ensures
        is_majority(votes@, winner),
{
    let mut counts: HashMap<usize, usize> = HashMap::new();
    let mut highest: usize = 0;
    let ghost mut holder: int = 0;
    let mut i: usize = 0;
    while i < votes.len()
        invariant
            i <= votes.len(),
            highest <= i,
            forall|l: usize|
                counts@.contains_key(l) ==> counts@[l] == #[trigger] tally(votes@.take(i as int), l),
            forall|l: usize|
                !counts@.contains_key(l) ==> #[trigger] tally(votes@.take(i as int), l) == 0,
            forall|l: usize| #[trigger] tally(votes@.take(i as int), l) <= highest,
            i > 0 ==> 0 <= holder < i && tally(votes@.take(i as int), votes[holder]) == highest,
        decreases votes.len() - i,
    {
        let label = votes[i];
        let seen: usize = match counts.get(&label) {
            Some(c) => *c,
            None => 0,
        };
        assert(seen == tally(votes@.take(i as int), label));
        let count: usize = seen + 1;
        counts.insert(label, count);
        proof {
            assert(votes@.take(i + 1) =~= votes@.take(i as int).push(label));
            assert forall|l: usize|
                #[trigger] tally(votes@.take(i + 1), l) == tally(votes@.take(i as int), l) + if label
                    == l {
                    1nat
                } else {
                    0nat
                } by {
                lemma_tally_push(votes@.take(i as int), label, l);
            }
        }
        if count > highest {
            highest = count;
            proof {
                holder = i as int;
            }
        }
        i += 1;
    }
    assert(votes@.take(i as int) =~= votes@);
    let mut at: usize = 0;
    while at < votes.len()
        invariant
            votes.len() > 0 ==> at <= holder < votes.len(),
            forall|l: usize| counts@.contains_key(l) ==> counts@[l] == #[trigger] tally(votes@, l),
            forall|l: usize| !counts@.contains_key(l) ==> #[trigger] tally(votes@, l) == 0,
            forall|l: usize| #[trigger] tally(votes@, l) <= highest,
            votes.len() > 0 ==> tally(votes@, votes[holder]) == highest,
            forall|q: int| 0 <= q < at ==> tally(votes@, #[trigger] votes[q]) < highest,
        decreases votes.len() - at,
    {
        let label = votes[at];
        let count: usize = match counts.get(&label) {
            Some(c) => *c,
            None => 0,
        };
        if count == highest {
            assert(decides_at(votes@, at as int));
            return label;
        }
        at += 1;
    }
    0
}

} // verus!
