//! What can go wrong with one search.

use vstd::prelude::*;

verus! {

/// Why a search produced no output.
#[derive(Debug, Clone, Copy, PartialEq, Eq, Structural)]
pub enum SearchError {
    /// The input is not one JSON object.
    InvalidJson,
    /// The expression is not a valid regular expression.
    InvalidPattern,
}

} // verus!
