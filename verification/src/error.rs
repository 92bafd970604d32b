//! The library's error taxonomy. The only fatal condition of the search
//! is a target character outside the alphabet; a candidate/target length
//! mismatch is kept as a defensive variant that verified code never
//! produces.

use vstd::prelude::*;

verus! {

#[derive(Clone, Copy, Debug, PartialEq, Eq, Structural)]
pub enum SearchError {
    /// The target holds a character outside the alphabet; the payload is
    /// the first offending character.
    InvalidCharacter(char),
    /// A candidate and the target differ in length, which the system's
    /// invariants rule out.
    InternalInvariantViolation,
}

} // verus!
