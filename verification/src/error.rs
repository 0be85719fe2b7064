//! The ways a request to the engine can be refused.

use vstd::prelude::*;

verus! {

/// Why an operation was refused.
#[derive(Clone, Copy, Debug, PartialEq, Eq, Structural)]
pub enum HexError {
    /// An index or a row lies outside the buffer.
    OutOfRange,
    /// A buffer cannot be built from the given parameters.
    InvalidInput,
}

} // verus!
