//! Kinds of failure that an analysis run can end in.

use vstd::prelude::*;

verus! {

/// Why an analysis produced no result.
#[derive(Clone, Copy, Debug, PartialEq, Eq, Structural)]
pub enum ErrorKind {
    /// The dataset could not be read or an output could not be written.
    Io,
    /// The dataset is not well-formed delimited text.
    Parse,
    /// Rows or vectors do not have the lengths that belong together.
    Shape,
    /// The fitted classifier could not be trained.
    ModelFit,
    /// A caller broke a documented limit, such as asking for more
    /// neighbours than there are training points.
    Contract,
}

} // verus!
