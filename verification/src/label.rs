//! The three air-quality categories and their textual names.

use crate::text::{trim, trimmed};
use vstd::prelude::*;
use vstd::string::StringExecFns;

verus! {

/// Label of the category "BAIK".
pub const GOOD: usize = 0;

/// Label of the category "SEDANG".
pub const MODERATE: usize = 1;

/// Label of the category "TIDAK SEHAT".
pub const UNHEALTHY: usize = 2;

/// The name "BAIK".
pub open spec fn good_name() -> Seq<char> {
    seq!['B', 'A', 'I', 'K']
}

/// The name "SEDANG".
pub open spec fn moderate_name() -> Seq<char> {
    seq!['S', 'E', 'D', 'A', 'N', 'G']
}

/// The name "TIDAK SEHAT".
pub open spec fn unhealthy_name() -> Seq<char> {
    seq!['T', 'I', 'D', 'A', 'K', ' ', 'S', 'E', 'H', 'A', 'T']
}

/// The name "Unknown", given to every label outside the vocabulary.
pub open spec fn unknown_name() -> Seq<char> {
    seq!['U', 'n', 'k', 'n', 'o', 'w', 'n']
}

/// The label that a category name stands for; a text that names no category
/// counts as "BAIK".
pub open spec fn label_of(name: Seq<char>) -> usize {
    if name == moderate_name() {
        MODERATE
    } else if name == unhealthy_name() {
        UNHEALTHY
    } else {
        GOOD
    }
}

/// The name under which a label is reported.
pub open spec fn name_of(label: usize) -> Seq<char> {
    if label == GOOD {
        good_name()
    } else if label == MODERATE {
        moderate_name()
    } else if label == UNHEALTHY {
        unhealthy_name()
    } else {
        unknown_name()
    }
}

/// Every label of the vocabulary is read back from its own name.
pub proof fn lemma_name_round_trip(label: usize)
    requires
        label <= UNHEALTHY,
    ensures
        label_of(name_of(label)) == label,
{
    assert(good_name().len() == 4);
    assert(moderate_name().len() == 6);
    assert(unhealthy_name().len() == 11);
}

/// Maps the category field of a row to its label. Blank characters around
/// the name are ignored; an unrecognised name gives `GOOD`.
pub fn label_from_text(field: &str) -> (label: usize)
    ensures
        label == label_of(trimmed(field@)),
{
    let name = String::from_str(trim(field));
    proof {
        reveal_strlit("SEDANG");
        reveal_strlit("TIDAK SEHAT");
        assert("SEDANG"@ =~= moderate_name());
        assert("TIDAK SEHAT"@ =~= unhealthy_name());
    }
    if name == String::from_str("SEDANG") {
        MODERATE
    } else if name == String::from_str("TIDAK SEHAT") {
        UNHEALTHY
    } else {
        GOOD
    }
}

/// The name under which a predicted label is reported: one of the three
/// category names, or "Unknown".
pub fn label_name(label: usize) -> (name: String)
    ensures
        name@ == name_of(label),
{
    proof {
        reveal_strlit("BAIK");
        reveal_strlit("SEDANG");
        reveal_strlit("TIDAK SEHAT");
        reveal_strlit("Unknown");
        assert("BAIK"@ =~= good_name());
        assert("SEDANG"@ =~= moderate_name());
        assert("TIDAK SEHAT"@ =~= unhealthy_name());
        assert("Unknown"@ =~= unknown_name());
    }
    if label == GOOD {
        String::from_str("BAIK")
    } else if label == MODERATE {
        String::from_str("SEDANG")
    } else if label == UNHEALTHY {
        String::from_str("TIDAK SEHAT")
    } else {
        String::from_str("Unknown")
    }
}

} // verus!
