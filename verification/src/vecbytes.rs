//! The variable-length container: a growable byte buffer tagged with a
//! wire format.

use core::cmp::Ordering;
use core::marker::PhantomData;

use vstd::prelude::*;

use crate::error::DecodeError;
use crate::hexfmt;
use crate::order;
use crate::Format;
use crate::HexString;
use crate::Plain;

verus! {

/// A wrapper around `Vec<u8>` whose wire format is fixed by the tag `F`.
///
/// The buffer may hold any number of bytes. Equality, ordering and hashing
/// go by the bytes alone; the tag never takes part.
#[derive(Debug, Eq, Ord, Hash)]
#[verifier::reject_recursive_types(F)]
pub struct Bytes<F: Format> {
    /// The byte payload.
    pub bytes: Vec<u8>,
    /// The format tag; zero-sized, never read.
    pub tag: PhantomData<F>,
}

impl<F: Format> View for Bytes<F> {
    type V = Seq<u8>;

    open spec fn view(&self) -> Seq<u8> {
        self.bytes@
    }
}

impl<F: Format> Clone for Bytes<F> {
    fn clone(&self) -> (r: Self)
        ensures
            r@ == self@,
    {
        Bytes { bytes: vstd::slice::slice_to_vec(self.bytes.as_slice()), tag: PhantomData }
    }
}

impl<F: Format, G: Format> PartialEq<Bytes<G>> for Bytes<F> {
    fn eq(&self, other: &Bytes<G>) -> bool {
        order::bytes_eq(self.bytes.as_slice(), other.bytes.as_slice())
    }
}

impl<F: Format, G: Format> vstd::std_specs::cmp::PartialEqSpecImpl<Bytes<G>> for Bytes<F> {
    open spec fn obeys_eq_spec() -> bool {
        true
    }

    open spec fn eq_spec(&self, other: &Bytes<G>) -> bool {
        self@ == other@
    }
}

impl<F: Format> PartialEq<Vec<u8>> for Bytes<F> {
    fn eq(&self, other: &Vec<u8>) -> bool {
        order::bytes_eq(self.bytes.as_slice(), other.as_slice())
    }
}

impl<F: Format> vstd::std_specs::cmp::PartialEqSpecImpl<Vec<u8>> for Bytes<F> {
    open spec fn obeys_eq_spec() -> bool {
        true
    }

    open spec fn eq_spec(&self, other: &Vec<u8>) -> bool {
        self@ == other@
    }
}

impl<F: Format, const N: usize> PartialEq<[u8; N]> for Bytes<F> {
    fn eq(&self, other: &[u8; N]) -> bool {
        order::bytes_eq(self.bytes.as_slice(), other.as_slice())
    }
}

impl<F: Format, const N: usize> vstd::std_specs::cmp::PartialEqSpecImpl<[u8; N]> for Bytes<F> {
    open spec fn obeys_eq_spec() -> bool {
        true
    }

    open spec fn eq_spec(&self, other: &[u8; N]) -> bool {
        self@ == other@
    }
}

impl<F: Format> PartialEq<&[u8]> for Bytes<F> {
    fn eq(&self, other: &&[u8]) -> bool {
        order::bytes_eq(self.bytes.as_slice(), *other)
    }
}

impl<F: Format> vstd::std_specs::cmp::PartialEqSpecImpl<&[u8]> for Bytes<F> {
    open spec fn obeys_eq_spec() -> bool {
        true
    }

    open spec fn eq_spec(&self, other: &&[u8]) -> bool {
        self@ == (*other)@
    }
}

impl<F: Format> PartialOrd for Bytes<F> {
    fn partial_cmp(&self, other: &Self) -> Option<Ordering> {
        Some(order::bytes_cmp(self.bytes.as_slice(), other.bytes.as_slice()))
    }
}

impl<F: Format> vstd::std_specs::cmp::PartialOrdSpecImpl for Bytes<F> {
    open spec fn obeys_partial_cmp_spec() -> bool {
        true
    }

    open spec fn partial_cmp_spec(&self, other: &Self) -> Option<Ordering> {
        Some(order::lex_cmp_spec(self@, other@))
    }
}

impl<F: Format> AsRef<[u8]> for Bytes<F> {
    fn as_ref(&self) -> (r: &[u8])
        ensures
            r@ == self@,
    {
        self.bytes.as_slice()
    }
}

impl<F: Format> AsMut<[u8]> for Bytes<F> {
    fn as_mut(&mut self) -> (r: &mut [u8])
        ensures
            r@ == old(self)@,
            final(r)@ == final(self)@,
    {
        self.bytes.as_mut_slice()
    }
}

impl<F: Format> Bytes<F> {
    /// Create a new, empty container.
    pub fn new() -> (r: Self)
        ensures
            r@ == Seq::<u8>::empty(),
    {
        Bytes { bytes: Vec::new(), tag: PhantomData }
    }

    /// Create a new, empty container whose buffer has room for at least
    /// `capacity` bytes before it grows.
    pub fn with_capacity(capacity: usize) -> (r: Self)
        ensures
            r@ == Seq::<u8>::empty(),
    {
        Bytes { bytes: Vec::with_capacity(capacity), tag: PhantomData }
    }

    /// Wrap an existing byte buffer under this tag; never fails.
    pub fn from(bytes: Vec<u8>) -> (r: Self)
        ensures
            r@ == bytes@,
    {
        Bytes { bytes, tag: PhantomData }
    }

    /// Consume `self` and return the underlying `Vec<u8>`.
    pub fn into_inner(self) -> (r: Vec<u8>)
        ensures
            r@ == self@,
    {
        self.bytes
    }

    /// Re-tag `self` with another wire format: the same buffer moves into
    /// the new container; nothing is validated, copied or changed.
    pub fn convert<G: Format>(self) -> (r: Bytes<G>)
        ensures
            r@ == self@,
    {
        Bytes { bytes: self.bytes, tag: PhantomData }
    }

    /// Read-only view of the bytes.
    pub fn as_byte_slice(&self) -> (r: &[u8])
        ensures
            r@ == self@,
    {
        self.bytes.as_slice()
    }

    /// How many bytes the container holds.
    pub fn len(&self) -> (r: usize)
        ensures
            r == self@.len(),
    {
        self.bytes.len()
    }

    /// Whether the container holds no bytes.
    pub fn is_empty(&self) -> (r: bool)
        ensures
            r <==> self@.len() == 0,
    {
        self.bytes.len() == 0
    }

    /// Append one byte at the end.
    pub fn push(&mut self, b: u8)
        ensures
            final(self)@ == old(self)@.push(b),
    {
        self.bytes.push(b);
    }

    /// Overwrite the byte at `i`; the length does not change.
    pub fn set(&mut self, i: usize, b: u8)
        requires
            i < old(self)@.len(),
        ensures
            final(self)@ == old(self)@.update(i as int, b),
    {
        self.bytes[i] = b;
    }

    /// Make room for at least `additional` more bytes; the contents do
    /// not change.
    pub fn reserve(&mut self, additional: usize)
        ensures
            final(self)@ == old(self)@,
    {
        self.bytes.reserve(additional);
    }
}

impl Bytes<Plain> {
    /// Emit the plain wire value: the bytes themselves, in order.
    pub fn encode_plain(&self) -> (r: Vec<u8>)
        ensures
            r@ == self@,
    {
        vstd::slice::slice_to_vec(self.bytes.as_slice())
    }

    /// Decode from a plain wire value, whether it arrived as a native
    /// byte-string or as an ordered sequence of byte values: any length
    /// is accepted, and the bytes are taken as they are.
    pub fn decode_plain(v: Vec<u8>) -> (r: Self)
        ensures
            r@ == v@,
    {
        Bytes { bytes: v, tag: PhantomData }
    }
}

impl Bytes<HexString> {
    /// Emit the hex wire value: two lowercase digits per byte, no prefix.
    pub fn encode_hex(&self) -> (r: String)
        ensures
            r@ == hexfmt::hex_encoding(self@),
            r@.len() == 2 * self@.len(),
    {
        hexfmt::hex_encode(self.bytes.as_slice())
    }

    /// Decode from a hex-string wire value: strip a single `"0x"` prefix
    /// if one is there; the rest must be an even count of hex digits,
    /// each pair one byte. An odd digit count and a character that is no
    /// hex digit each fail, in that order of checking.
    pub fn decode_hex(s: &str) -> (r: Result<Self, DecodeError>)
        ensures
            ({
                let t = hexfmt::strip_hex_prefix(s@);
                &&& r is Ok <==> (t.len() % 2 == 0 && hexfmt::all_hex_digits(t))
                &&& (r matches Ok(b) ==> b@ == hexfmt::hex_decoding(t))
                &&& (t.len() % 2 != 0 ==> r == Err::<Self, DecodeError>(
                    DecodeError::OddHexLength { digits: t.len() as usize },
                ))
                &&& (t.len() % 2 == 0 && !hexfmt::all_hex_digits(t) ==> exists|k: int|
                    {
                        &&& 0 <= k < t.len()
                        &&& !hexfmt::is_hex_digit(t[k])
                        &&& (forall|j: int| 0 <= j < k ==> hexfmt::is_hex_digit(#[trigger] t[j]))
                        &&& r == Err::<Self, DecodeError>(
                            DecodeError::InvalidHexDigit { character: t[k], index: k as usize },
                        )
                    })
            }),
    {
        match hexfmt::hex_decode(s) {
            Ok(v) => Ok(Bytes { bytes: v, tag: PhantomData }),
            Err(e) => Err(e),
        }
    }
}

/// Containers with the same bytes are equal whatever their tags, and
/// order the same way against any third byte sequence: comparison never
/// sees the tag.
pub proof fn lemma_cross_tag_eq_bytes<F: Format, G: Format>(a: Bytes<F>, b: Bytes<G>)
    requires
        a@ == b@,
    ensures
        vstd::std_specs::cmp::PartialEqSpec::eq_spec(&a, &b),
        vstd::std_specs::cmp::PartialEqSpec::eq_spec(&b, &a),
        forall|x: Seq<u8>| #[trigger] order::lex_cmp_spec(a@, x) == order::lex_cmp_spec(b@, x),
        forall|x: Seq<u8>| #[trigger] order::lex_cmp_spec(x, a@) == order::lex_cmp_spec(x, b@),
{
}

/// The hex wire value of a dynamic container round-trips: it is an even
/// count of hex digits, it never begins with `"0x"`, and decoding it
/// yields the container's bytes again.
pub proof fn lemma_hex_round_trip_dynamic<F: Format>(a: Bytes<F>)
    ensures
        ({
            let w = hexfmt::hex_encoding(a@);
            &&& hexfmt::strip_hex_prefix(w) == w
            &&& w.len() == 2 * a@.len()
            &&& w.len() % 2 == 0
            &&& hexfmt::all_hex_digits(w)
            &&& hexfmt::hex_decoding(w) == a@
        }),
{
    hexfmt::lemma_hex_round_trip(a@);
}

} // verus!
