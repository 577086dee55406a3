//! The ways a decode operation can fail.

use vstd::prelude::*;

verus! {

/// Why decoding an external representation into a byte container failed.
///
/// Encoding never fails; every variant here is reported by a decode
/// operation, immediately, with no partial result. Lengths count wire
/// units: bytes or sequence elements for a plain decode, hexadecimal
/// digits for a hex decode.
#[derive(Clone, Copy, Debug, PartialEq, Eq, Structural, Hash)]
pub enum DecodeError {
    /// The input held a different number of wire units than the fixed
    /// shape requires.
    LengthMismatch {
        /// How many wire units the container's shape requires.
        expected: usize,
        /// How many wire units the input held.
        actual: usize,
    },
    /// A fixed-size sequence decode found at least one element beyond
    /// the required count.
    TrailingData {
        /// How many elements the container's shape requires.
        expected: usize,
    },
    /// A hex input held an odd number of digits after prefix stripping.
    OddHexLength {
        /// How many digits the input held.
        digits: usize,
    },
    /// A character outside `[0-9a-fA-F]` stood where a hex digit was
    /// expected.
    InvalidHexDigit {
        /// The offending character.
        character: char,
        /// Its position among the digits, after prefix stripping.
        index: usize,
    },
}

} // verus!
