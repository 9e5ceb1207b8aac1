//! The failures that abort a run: a line that does not decode, and a
//! record whose role is not a definition. Both are fatal; no index is
//! produced after either.

use vstd::prelude::*;

verus! {

/// Why one input line failed to decode.
#[derive(Debug, PartialEq, Eq, Structural, Clone, Copy)]
pub enum DecodeError {
    /// The line is not well-formed JSON.
    Syntax,
    /// A required field is absent or has the wrong type.
    Field,
}

/// Why a run produced no index.
#[derive(Debug, PartialEq, Eq, Structural, Clone, Copy)]
pub enum RunError {
    /// Some input line failed to decode.
    Decode(DecodeError),
    /// Some record carries a role other than "def".
    UnsupportedRole,
}

} // verus!
