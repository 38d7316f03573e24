//! The ways in which decoding a symbol can fail.

use vstd::prelude::*;

verus! {

/// Why a symbol could not be decoded.
#[derive(Debug, Clone, Copy, PartialEq, Eq, Structural)]
pub enum DecodeError {
    /// Clustering did not leave exactly three finder patterns.
    WrongFinderCount,
    /// The format modules name a mask other than the two supported ones.
    UnsupportedMask,
    /// The encoding nibble is neither byte nor alphanumeric mode.
    UnsupportedEncoding,
    /// A stream ended before the requested number of items was read.
    Truncated,
    /// The data traversal had to turn around after a horizontal half-step.
    TraversalInvariantBroken,
}

} // verus!
