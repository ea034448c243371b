//! A small analytics library whose core is a textual duration codec:
//! an ISO-8601-style notation (`PT1H2M3.004S`, with `P0D` for zero)
//! encoding a non-negative count of milliseconds.

pub mod codec;
pub mod digits;
pub mod laws;
pub mod pages;
pub mod reports;
pub mod scan;

use vstd::prelude::*;

verus! {

/// Failures surfaced by the duration codec.
#[derive(Clone, Copy, Debug, PartialEq, Eq, Structural)]
pub enum Error {
    /// The token does not start with the expected `P` marker.
    MalformedPrefix,
    /// The token's trailing seconds segment does not end in `S`.
    MalformedSuffix,
    /// A substring expected to be an unsigned decimal integer is empty or
    /// holds a non-digit character.
    NonNumericSegment,
    /// The token is well formed but its millisecond total does not fit in
    /// the 64-bit result type.
    Overflow,
    /// The encoder was handed a negative count.
    NegativeDuration,
}

} // verus!
