//! Settings of an analysis run.

use crate::split::Ratio;
use vstd::prelude::*;

verus! {

/// The choices that an analysis run leaves to its caller.
#[derive(Clone, Copy, Debug)]
pub struct AnalysisConfig {
    /// Share of the rows that trains.
    pub ratio: Ratio,
    /// Number of neighbours that vote.
    pub neighbours: usize,
    /// Whether the rows are shuffled before they are split.
    pub shuffle: bool,
    /// Whether the readings are standardised with the statistics of all rows
    /// before the split, instead of with those of the training rows after it.
    pub normalize_before_split: bool,
}

impl Default for AnalysisConfig {
    /// Four fifths of the rows train, five neighbours vote, the rows are
    /// shuffled, and standardisation uses the training rows only.
    fn default() -> (config: AnalysisConfig)
        ensures
            config.ratio.numerator() == 4,
            config.ratio.denominator() == 5,
            config.neighbours == 5,
            config.shuffle,
            !config.normalize_before_split,
    {
        AnalysisConfig {
            ratio: Ratio::default(),
            neighbours: 5,
            shuffle: true,
            normalize_before_split: false,
        }
    }
}

} // verus!
