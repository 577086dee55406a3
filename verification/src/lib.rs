//! Containers for bytes that encode their wire format in their type.
//!
//! A [`ByteArray`] owns exactly `N` bytes inline; a [`Bytes`] owns a growable
//! byte buffer. Both carry a zero-sized [`Format`] tag that fixes, at compile
//! time, how the value is written to and read from an external representation:
//! [`Plain`] stands for an ordered sequence of byte values, [`HexString`] for
//! a string of lowercase hexadecimal digit pairs. Decoding is validating: a
//! malformed input yields a [`DecodeError`], never a truncated result.

use vstd::prelude::*;

pub mod array;
pub mod error;
pub mod hexfmt;
pub mod order;
pub mod vecbytes;

pub use array::ByteArray;
pub use error::DecodeError;
pub use vecbytes::Bytes;

verus! {

/// Marker types that select a wire format for a byte container.
///
/// A format tag carries no data; it exists only as a type parameter of
/// [`ByteArray`] and [`Bytes`]. The supertraits let the containers derive
/// the std traits that depend on the tag parameter.
pub trait Format: Ord + core::hash::Hash + core::fmt::Debug {

}

/// Format bytes as a string of lowercase hexadecimal digit pairs.
///
/// Decoding tolerates (but encoding never emits) a single leading `"0x"`.
#[derive(Clone, Copy, Debug, PartialEq, Eq, PartialOrd, Ord, Hash)]
pub struct HexString;

impl Format for HexString {

}

/// Format bytes as a plain ordered sequence of byte values.
#[derive(Clone, Copy, Debug, PartialEq, Eq, PartialOrd, Ord, Hash)]
pub struct Plain;

impl Format for Plain {

}

} // verus!
