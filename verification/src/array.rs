//! The fixed-length container: exactly `N` bytes, inline, tagged with a
//! wire format.

use core::cmp::Ordering;
use core::marker::PhantomData;

use vstd::prelude::*;

use crate::error::DecodeError;
use crate::hexfmt;
use crate::order;
use crate::Format;
use crate::HexString;
use crate::Plain;

verus! {

/// A wrapper around `[u8; N]` whose wire format is fixed by the tag `F`.
///
/// The length is enforced by the shape itself: decoding validates it, and
/// nothing else ever needs to. Equality, ordering and hashing go by the
/// bytes alone; the tag never takes part.
#[derive(Copy, Debug, Eq, Ord, Hash)]
#[verifier::reject_recursive_types(F)]
pub struct ByteArray<F: Format, const N: usize> {
    /// The byte payload: always exactly `N` bytes, by shape.
    pub bytes: [u8; N],
    /// The format tag; zero-sized, never read.
    pub tag: PhantomData<F>,
}

impl<F: Format, const N: usize> View for ByteArray<F, N> {
    type V = Seq<u8>;

    open spec fn view(&self) -> Seq<u8> {
        self.bytes@
    }
}

impl<F: Format, const N: usize> Clone for ByteArray<F, N> {
    fn clone(&self) -> (r: Self)
        ensures
            r@ == self@,
    {
        ByteArray { bytes: self.bytes, tag: PhantomData }
    }
}

impl<F: Format, G: Format, const N: usize> PartialEq<ByteArray<G, N>> for ByteArray<F, N> {
    fn eq(&self, other: &ByteArray<G, N>) -> bool {
        order::bytes_eq(self.bytes.as_slice(), other.bytes.as_slice())
    }
}

impl<F: Format, G: Format, const N: usize> vstd::std_specs::cmp::PartialEqSpecImpl<ByteArray<G, N>> for ByteArray<F, N> {
    open spec fn obeys_eq_spec() -> bool {
        true
    }

    open spec fn eq_spec(&self, other: &ByteArray<G, N>) -> bool {
        self@ == other@
    }
}

impl<F: Format, const N: usize> PartialEq<[u8; N]> for ByteArray<F, N> {
    fn eq(&self, other: &[u8; N]) -> bool {
        order::bytes_eq(self.bytes.as_slice(), other.as_slice())
    }
}

impl<F: Format, const N: usize> vstd::std_specs::cmp::PartialEqSpecImpl<[u8; N]> for ByteArray<F, N> {
    open spec fn obeys_eq_spec() -> bool {
        true
    }

    open spec fn eq_spec(&self, other: &[u8; N]) -> bool {
        self@ == other@
    }
}

impl<F: Format, const N: usize> PartialEq<&[u8; N]> for ByteArray<F, N> {
    fn eq(&self, other: &&[u8; N]) -> bool {
        order::bytes_eq(self.bytes.as_slice(), (*other).as_slice())
    }
}

impl<F: Format, const N: usize> vstd::std_specs::cmp::PartialEqSpecImpl<&[u8; N]> for ByteArray<F, N> {
    open spec fn obeys_eq_spec() -> bool {
        true
    }

    open spec fn eq_spec(&self, other: &&[u8; N]) -> bool {
        self@ == (*other)@
    }
}

impl<F: Format, const N: usize> PartialEq<&[u8]> for ByteArray<F, N> {
    fn eq(&self, other: &&[u8]) -> bool {
        order::bytes_eq(self.bytes.as_slice(), *other)
    }
}

impl<F: Format, const N: usize> vstd::std_specs::cmp::PartialEqSpecImpl<&[u8]> for ByteArray<F, N> {
    open spec fn obeys_eq_spec() -> bool {
        true
    }

    open spec fn eq_spec(&self, other: &&[u8]) -> bool {
        self@ == (*other)@
    }
}

impl<F: Format, const N: usize> PartialOrd for ByteArray<F, N> {
    fn partial_cmp(&self, other: &Self) -> Option<Ordering> {
        Some(order::bytes_cmp(self.bytes.as_slice(), other.bytes.as_slice()))
    }
}

impl<F: Format, const N: usize> vstd::std_specs::cmp::PartialOrdSpecImpl for ByteArray<F, N> {
    open spec fn obeys_partial_cmp_spec() -> bool {
        true
    }

    open spec fn partial_cmp_spec(&self, other: &Self) -> Option<Ordering> {
        Some(order::lex_cmp_spec(self@, other@))
    }
}

impl<F: Format, const N: usize> AsRef<[u8]> for ByteArray<F, N> {
    fn as_ref(&self) -> (r: &[u8])
        ensures
            r@ == self@,
    {
        self.bytes.as_slice()
    }
}

impl<F: Format, const N: usize> AsMut<[u8]> for ByteArray<F, N> {
    fn as_mut(&mut self) -> (r: &mut [u8])
        ensures
            r@ == old(self)@,
            final(r)@ == final(self)@,
    {
        vstd::array::ref_mut_array_unsizing_coercion(&mut self.bytes)
    }
}

impl<F: Format, const N: usize> ByteArray<F, N> {
    /// Wrap raw bytes under this tag; never fails, nothing to validate.
    pub fn from(bytes: [u8; N]) -> (r: Self)
        ensures
            r@ == bytes@,
    {
        ByteArray { bytes, tag: PhantomData }
    }

    /// Consume `self` and return the underlying `[u8; N]`.
    pub fn into_inner(self) -> (r: [u8; N])
        ensures
            r@ == self@,
    {
        self.bytes
    }

    /// Re-tag `self` with another wire format: the same bytes move into
    /// the new container; nothing is validated, copied or changed.
    pub fn convert<G: Format>(self) -> (r: ByteArray<G, N>)
        ensures
            r@ == self@,
    {
        ByteArray { bytes: self.bytes, tag: PhantomData }
    }

    /// Read-only view of the bytes.
    pub fn as_byte_slice(&self) -> (r: &[u8])
        ensures
            r@ == self@,
    {
        self.bytes.as_slice()
    }

    /// Overwrite the byte at `i`; the length cannot change.
    pub fn set(&mut self, i: usize, b: u8)
        requires
            i < N,
        ensures
            final(self)@ == old(self)@.update(i as int, b),
    {
        self.bytes[i] = b;
    }
}

/// Copy a slice of exactly `N` bytes into an array.
fn slice_to_array<const N: usize>(v: &[u8]) -> (r: [u8; N])
    requires
        v@.len() == N,
    ensures
        r@ == v@,
{
    let mut bytes: [u8; N] = vstd::array::array_fill_for_copy_types(0u8);
    let mut i: usize = 0;
    while i < N
        invariant
            v@.len() == N,
            bytes@.len() == N,
            i <= N,
            forall|j: int| 0 <= j < i ==> bytes@[j] == v@[j],
        decreases N - i,
    {
        bytes[i] = *vstd::slice::slice_index_get(v, i);
        i += 1;
    }
    proof {
        assert(bytes@ =~= v@);
    }
    bytes
}

impl<const N: usize> ByteArray<Plain, N> {
    /// Emit the plain wire value: the bytes themselves, in order.
    pub fn encode_plain(&self) -> (r: Vec<u8>)
        ensures
            r@ == self@,
    {
        vstd::slice::slice_to_vec(self.bytes.as_slice())
    }

    /// Decode from a native byte-string wire value: it must hold exactly
    /// `N` bytes, which become the container's bytes.
    pub fn decode_byte_string(v: &[u8]) -> (r: Result<Self, DecodeError>)
        ensures
            r is Ok <==> v@.len() == N,
            r matches Ok(a) ==> a@ == v@,
            r matches Err(e) ==> e == (DecodeError::LengthMismatch {
                expected: N,
                actual: v@.len() as usize,
            }),
    {
        let n = v.len();
        if n == N {
            Ok(ByteArray { bytes: slice_to_array(v), tag: PhantomData })
        } else {
            Err(DecodeError::LengthMismatch { expected: N, actual: n })
        }
    }

    /// Decode from an ordered-sequence wire value, already drawn into
    /// `elems`: exactly `N` elements become the container's bytes; fewer
    /// are a length mismatch, any more are trailing data.
    pub fn decode_sequence(elems: &Vec<u8>) -> (r: Result<Self, DecodeError>)
        ensures
            r is Ok <==> elems@.len() == N,
            r matches Ok(a) ==> a@ == elems@,
            elems@.len() < N ==> r == Err::<Self, DecodeError>(
                DecodeError::LengthMismatch { expected: N, actual: elems@.len() as usize },
            ),
            elems@.len() > N ==> r == Err::<Self, DecodeError>(
                DecodeError::TrailingData { expected: N },
            ),
    {
        let n = elems.len();
        if n < N {
            Err(DecodeError::LengthMismatch { expected: N, actual: n })
        } else if n > N {
            Err(DecodeError::TrailingData { expected: N })
        } else {
            Ok(ByteArray { bytes: slice_to_array(elems.as_slice()), tag: PhantomData })
        }
    }
}

impl<const N: usize> ByteArray<HexString, N> {
    /// Emit the hex wire value: `2 * N` lowercase digits, no prefix.
    pub fn encode_hex(&self) -> (r: String)
        ensures
            r@ == hexfmt::hex_encoding(self@),
            r@.len() == 2 * N,
    {
        hexfmt::hex_encode(self.bytes.as_slice())
    }

    /// Decode from a hex-string wire value: strip a single `"0x"` prefix
    /// if one is there; the rest must be exactly `2 * N` hex digits, each
    /// pair one byte. An odd digit count, a digit count other than
    /// `2 * N`, and a character that is no hex digit each fail, in that
    /// order of checking.
    pub fn decode_hex(s: &str) -> (r: Result<Self, DecodeError>)
        requires
            2 * N <= usize::MAX,
        ensures
            ({
                let t = hexfmt::strip_hex_prefix(s@);
                &&& r is Ok <==> (t.len() == 2 * N && hexfmt::all_hex_digits(t))
                &&& (r matches Ok(a) ==> a@ == hexfmt::hex_decoding(t))
                &&& (t.len() % 2 != 0 ==> r == Err::<Self, DecodeError>(
                    DecodeError::OddHexLength { digits: t.len() as usize },
                ))
                &&& (t.len() % 2 == 0 && t.len() != 2 * N ==> r == Err::<Self, DecodeError>(
                    DecodeError::LengthMismatch { expected: (2 * N) as usize, actual: t.len() as usize },
                ))
                &&& (t.len() == 2 * N && !hexfmt::all_hex_digits(t) ==> exists|k: int|
                    {
                        &&& 0 <= k < t.len()
                        &&& !hexfmt::is_hex_digit(t[k])
                        &&& (forall|j: int| 0 <= j < k ==> hexfmt::is_hex_digit(#[trigger] t[j]))
                        &&& r == Err::<Self, DecodeError>(
                            DecodeError::InvalidHexDigit { character: t[k], index: k as usize },
                        )
                    })
            }),
    {
        let n_total = s.unicode_len();
        let has_prefix = n_total >= 2 && s.get_char(0) == '0' && s.get_char(1) == 'x';
        let start: usize = if has_prefix {
            2
        } else {
            0
        };
        proof {
            assert(s@.subrange(0, s@.len() as int) =~= s@);
            assert(s@.subrange(start as int, n_total as int) =~= hexfmt::strip_hex_prefix(s@));
        }
        let digits = n_total - start;
        if digits % 2 != 0 {
            return Err(DecodeError::OddHexLength { digits });
        }
        if digits != 2 * N {
            return Err(DecodeError::LengthMismatch { expected: 2 * N, actual: digits });
        }
        match hexfmt::parse_hex_digits(s, start, n_total) {
            Ok(v) => Ok(ByteArray { bytes: slice_to_array(v.as_slice()), tag: PhantomData }),
            Err(e) => Err(e),
        }
    }
}

/// Containers with the same bytes are equal whatever their tags, and
/// order the same way against any third byte sequence: comparison never
/// sees the tag.
pub proof fn lemma_cross_tag_eq<F: Format, G: Format, const N: usize>(
    a: ByteArray<F, N>,
    b: ByteArray<G, N>,
)
    requires
        a@ == b@,
    ensures
        vstd::std_specs::cmp::PartialEqSpec::eq_spec(&a, &b),
        vstd::std_specs::cmp::PartialEqSpec::eq_spec(&b, &a),
        forall|x: Seq<u8>| #[trigger] order::lex_cmp_spec(a@, x) == order::lex_cmp_spec(b@, x),
        forall|x: Seq<u8>| #[trigger] order::lex_cmp_spec(x, a@) == order::lex_cmp_spec(x, b@),
{
}

/// The plain wire value of a fixed container round-trips: encoding emits
/// the bytes themselves, exactly `N` of them, which is precisely the one
/// length that a fixed plain decode accepts; it then returns those bytes
/// unchanged.
pub proof fn lemma_plain_round_trip_fixed<F: Format, const N: usize>(a: ByteArray<F, N>)
    ensures
        a@.len() == N,
{
}

/// The hex wire value of a fixed container round-trips: it is exactly
/// `2 * N` digits, it never begins with `"0x"`, and decoding it yields
/// the container's bytes again.
pub proof fn lemma_hex_round_trip_fixed<F: Format, const N: usize>(a: ByteArray<F, N>)
    ensures
        ({
            let w = hexfmt::hex_encoding(a@);
            &&& hexfmt::strip_hex_prefix(w) == w
            &&& w.len() == 2 * N
            &&& hexfmt::all_hex_digits(w)
            &&& hexfmt::hex_decoding(w) == a@
        }),
{
    assert(a@.len() == N);
    hexfmt::lemma_hex_round_trip(a@);
}

} // verus!
