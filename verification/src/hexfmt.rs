//! The hexadecimal wire format: lowercase digit pairs, one pair per byte,
//! most-significant nibble first, with a single optional `"0x"` prefix
//! tolerated on decode.

use vstd::prelude::*;
use vstd::string::StrSliceExecFns;
use vstd::string::StringExecFns;

use crate::error::DecodeError;

verus! {

/// Whether `c` is one of the characters `0-9`, `a-f` and `A-F`.
pub open spec fn is_hex_digit(c: char) -> bool {
    let u = c as u32;
    (48 <= u && u <= 57) || (97 <= u && u <= 102) || (65 <= u && u <= 70)
}

/// The numeric value of one hex digit; digits are read case-insensitively.
pub open spec fn hex_val(c: char) -> u8
    recommends
        is_hex_digit(c),
{
    let u = c as u32;
    if 48 <= u && u <= 57 {
        (u - 48) as u8
    } else if 97 <= u && u <= 102 {
        (u - 87) as u8
    } else {
        (u - 55) as u8
    }
}

/// The lowercase hex digit that encodes one nibble.
pub open spec fn hex_char_of_nibble(n: u8) -> char
    recommends
        n < 16,
{
    if n == 0 {
        '0'
    } else if n == 1 {
        '1'
    } else if n == 2 {
        '2'
    } else if n == 3 {
        '3'
    } else if n == 4 {
        '4'
    } else if n == 5 {
        '5'
    } else if n == 6 {
        '6'
    } else if n == 7 {
        '7'
    } else if n == 8 {
        '8'
    } else if n == 9 {
        '9'
    } else if n == 10 {
        'a'
    } else if n == 11 {
        'b'
    } else if n == 12 {
        'c'
    } else if n == 13 {
        'd'
    } else if n == 14 {
        'e'
    } else {
        'f'
    }
}

/// The hex encoding of a byte sequence: two lowercase digits per byte, in
/// byte order, most-significant nibble first, no prefix.
pub open spec fn hex_encoding(b: Seq<u8>) -> Seq<char> {
    Seq::new(
        b.len() * 2,
        |i: int|
            if i % 2 == 0 {
                hex_char_of_nibble((b[i / 2] / 16) as u8)
            } else {
                hex_char_of_nibble((b[i / 2] % 16) as u8)
            },
    )
}

/// Every character of `s` is a hex digit.
pub open spec fn all_hex_digits(s: Seq<char>) -> bool {
    forall|i: int| 0 <= i < s.len() ==> is_hex_digit(#[trigger] s[i])
}

/// The bytes named by an even-length, all-hex digit sequence: each adjacent
/// digit pair becomes one byte, most-significant nibble first.
pub open spec fn hex_decoding(s: Seq<char>) -> Seq<u8>
    recommends
        s.len() % 2 == 0,
        all_hex_digits(s),
{
    Seq::new(s.len() / 2, |i: int| (hex_val(s[2 * i]) * 16 + hex_val(s[2 * i + 1])) as u8)
}

/// `s` without a single leading `"0x"`, if it has one; otherwise `s` itself.
pub open spec fn strip_hex_prefix(s: Seq<char>) -> Seq<char> {
    if s.len() >= 2 && s[0] == '0' && s[1] == 'x' {
        s.subrange(2, s.len() as int)
    } else {
        s
    }
}

/// The numeric value of one hex digit character, or `None` where the
/// character is no hex digit.
pub fn hex_digit_value(c: char) -> (r: Option<u8>)
    ensures
        r is Some <==> is_hex_digit(c),
        r matches Some(v) ==> v == hex_val(c) && v < 16,
{
    let u = c as u32;
    if 48 <= u && u <= 57 {
        Some((u - 48) as u8)
    } else if 97 <= u && u <= 102 {
        Some((u - 87) as u8)
    } else if 65 <= u && u <= 70 {
        Some((u - 55) as u8)
    } else {
        None
    }
}

/// The one-character string that encodes one nibble as a lowercase hex
/// digit.
fn nibble_str(n: u8) -> (r: &'static str)
    requires
        n < 16,
    ensures
        r@ =~= seq![hex_char_of_nibble(n)],
{
    proof {
        reveal_strlit("0");
        reveal_strlit("1");
        reveal_strlit("2");
        reveal_strlit("3");
        reveal_strlit("4");
        reveal_strlit("5");
        reveal_strlit("6");
        reveal_strlit("7");
        reveal_strlit("8");
        reveal_strlit("9");
        reveal_strlit("a");
        reveal_strlit("b");
        reveal_strlit("c");
        reveal_strlit("d");
        reveal_strlit("e");
        reveal_strlit("f");
    }
    if n == 0 {
        "0"
    } else if n == 1 {
        "1"
    } else if n == 2 {
        "2"
    } else if n == 3 {
        "3"
    } else if n == 4 {
        "4"
    } else if n == 5 {
        "5"
    } else if n == 6 {
        "6"
    } else if n == 7 {
        "7"
    } else if n == 8 {
        "8"
    } else if n == 9 {
        "9"
    } else if n == 10 {
        "a"
    } else if n == 11 {
        "b"
    } else if n == 12 {
        "c"
    } else if n == 13 {
        "d"
    } else if n == 14 {
        "e"
    } else {
        "f"
    }
}

/// Encode a byte slice as a string of lowercase hex digit pairs, no prefix.
pub fn hex_encode(bytes: &[u8]) -> (r: String)
    ensures
        r@ == hex_encoding(bytes@),
        r@.len() == 2 * bytes@.len(),
{
    let n = bytes.len();
    let mut out = String::new();
    let mut i: usize = 0;
    while i < n
        invariant
            n == bytes@.len(),
            i <= n,
            out@ =~= hex_encoding(bytes@.subrange(0, i as int)),
        decreases n - i,
    {
        let b = *vstd::slice::slice_index_get(bytes, i);
        out.append(nibble_str(b / 16));
        out.append(nibble_str(b % 16));
        proof {
            let pre = bytes@.subrange(0, i as int);
            let post = bytes@.subrange(0, i + 1 as int);
            assert(post[i as int] == bytes@[i as int]);
            assert forall|j: int| 0 <= j < pre.len() implies post[j] == pre[j] by {}
            assert(out@ =~= hex_encoding(post));
        }
        i += 1;
    }
    proof {
        assert(bytes@.subrange(0, n as int) =~= bytes@);
    }
    out
}

/// Decode a hex string into bytes: strip a single `"0x"` prefix if one is
/// there, then read each adjacent digit pair, case-insensitively, into one
/// byte. Fails on an odd digit count or on the first character that is no
/// hex digit, with no partial result.
pub fn hex_decode(s: &str) -> (r: Result<Vec<u8>, DecodeError>)
    ensures
        ({
            let t = strip_hex_prefix(s@);
            &&& r is Ok <==> (t.len() % 2 == 0 && all_hex_digits(t))
            &&& (r matches Ok(v) ==> v@ == hex_decoding(t))
            &&& (t.len() % 2 != 0 ==> r == Err::<Vec<u8>, DecodeError>(
                DecodeError::OddHexLength { digits: t.len() as usize },
            ))
            &&& (t.len() % 2 == 0 && !all_hex_digits(t) ==> exists|k: int|
                {
                    &&& 0 <= k < t.len()
                    &&& !is_hex_digit(t[k])
                    &&& (forall|j: int| 0 <= j < k ==> is_hex_digit(#[trigger] t[j]))
                    &&& r == Err::<Vec<u8>, DecodeError>(
                        DecodeError::InvalidHexDigit { character: t[k], index: k as usize },
                    )
                })
        }),
{
    let n_total = s.unicode_len();
    let has_prefix = n_total >= 2 && s.get_char(0) == '0' && s.get_char(1) == 'x';
    let start: usize = if has_prefix {
        2
    } else {
        0
    };
    proof {
        assert(s@.subrange(0, s@.len() as int) =~= s@);
        assert(s@.subrange(start as int, n_total as int) =~= strip_hex_prefix(s@));
    }
    let digits = n_total - start;
    if digits % 2 != 0 {
        return Err(DecodeError::OddHexLength { digits });
    }
    parse_hex_digits(s, start, n_total)
}

/// Read the characters of `s` from `start` to its end (at index `end`),
/// each adjacent pair as one byte. The first character that is no hex
/// digit fails the parse.
pub(crate) fn parse_hex_digits(s: &str, start: usize, end: usize) -> (r: Result<
    Vec<u8>,
    DecodeError,
>)
    requires
        end == s@.len(),
        start <= end,
        (end - start) % 2 == 0,
    ensures
        ({
            let t = s@.subrange(start as int, s@.len() as int);
            &&& r is Ok <==> all_hex_digits(t)
            &&& (r matches Ok(v) ==> v@ == hex_decoding(t))
            &&& (!all_hex_digits(t) ==> exists|k: int|
                {
                    &&& 0 <= k < t.len()
                    &&& !is_hex_digit(t[k])
                    &&& (forall|j: int| 0 <= j < k ==> is_hex_digit(#[trigger] t[j]))
                    &&& r == Err::<Vec<u8>, DecodeError>(
                        DecodeError::InvalidHexDigit { character: t[k], index: k as usize },
                    )
                })
        }),
{
    let ghost n_total = s@.len();
    let ghost t = s@.subrange(start as int, n_total as int);
    let digits = end - start;
    let mut out: Vec<u8> = Vec::new();
    let mut i: usize = 0;
    while i < digits
        invariant
            s@.len() == n_total,
            start + digits == n_total,
            start + digits == end,
            t == s@.subrange(start as int, n_total as int),
            t.len() == digits,
            digits % 2 == 0,
            i % 2 == 0,
            i <= digits,
            forall|j: int| 0 <= j < i ==> is_hex_digit(#[trigger] t[j]),
            out@ =~= hex_decoding(t.subrange(0, i as int)),
        decreases digits - i,
    {
        let c1 = s.get_char(start + i);
        assert(c1 == t[i as int]);
        match hex_digit_value(c1) {
            None => {
                proof {
                    let k = i as int;
                    assert(!is_hex_digit(t[k]));
                    assert(!all_hex_digits(t));
                    assert(forall|j: int| 0 <= j < k ==> is_hex_digit(#[trigger] t[j]));
                }
                return Err(DecodeError::InvalidHexDigit { character: c1, index: i });
            },
            Some(hi) => {
                let c2 = s.get_char(start + i + 1);
                assert(c2 == t[i + 1 as int]);
                match hex_digit_value(c2) {
                    None => {
                        proof {
                            let k = i + 1 as int;
                            assert(is_hex_digit(t[i as int]));
                            assert(!is_hex_digit(t[k]));
                            assert(!all_hex_digits(t));
                            assert(forall|j: int| 0 <= j < k ==> is_hex_digit(#[trigger] t[j]));
                        }
                        return Err(DecodeError::InvalidHexDigit { character: c2, index: i + 1 });
                    },
                    Some(lo) => {
                        out.push(hi * 16 + lo);
                        proof {
                            let pre = t.subrange(0, i as int);
                            let post = t.subrange(0, i + 2 as int);
                            assert(post[i as int] == t[i as int]);
                            assert(post[i + 1 as int] == t[i + 1 as int]);
                            assert forall|j: int| 0 <= j < pre.len() implies post[j] == pre[j] by {}
                            assert(hex_decoding(post).len() == i / 2 + 1);
                            assert forall|k: int| 0 <= k < hex_decoding(post).len() implies
                                hex_decoding(post)[k] == out@[k] by {
                                if k < i / 2 {
                                    assert(post[2 * k] == pre[2 * k]);
                                    assert(post[2 * k + 1] == pre[2 * k + 1]);
                                } else {
                                    assert(2 * k == i);
                                }
                            }
                            assert(out@ =~= hex_decoding(post));
                        }
                        i += 2;
                    },
                }
            },
        }
    }
    proof {
        assert(t.subrange(0, digits as int) =~= t);
    }
    Ok(out)
}

/// A hex encoding holds twice as many characters as bytes, all of them
/// digits; it never begins with `"0x"`; and decoding it gives back exactly
/// the bytes it was made from.
pub proof fn lemma_hex_round_trip(b: Seq<u8>)
    ensures
        hex_encoding(b).len() == 2 * b.len(),
        hex_encoding(b).len() % 2 == 0,
        all_hex_digits(hex_encoding(b)),
        strip_hex_prefix(hex_encoding(b)) == hex_encoding(b),
        hex_decoding(hex_encoding(b)) == b,
{
    let e = hex_encoding(b);
    assert forall|n: u8| n < 16 implies is_hex_digit(hex_char_of_nibble(n)) && hex_val(
        hex_char_of_nibble(n),
    ) == n by {}
    assert forall|i: int| 0 <= i < e.len() implies is_hex_digit(#[trigger] e[i]) by {
        if i % 2 == 0 {
            assert(b[i / 2] / 16 < 16);
        } else {
            assert(b[i / 2] % 16 < 16);
        }
    }
    if e.len() >= 2 {
        assert(is_hex_digit(e[1]));
        assert(e[1] != 'x');
    }
    assert forall|i: int| 0 <= i < b.len() implies hex_decoding(e)[i] == b[i] by {
        assert(e[2 * i] == hex_char_of_nibble((b[i] / 16) as u8));
        assert(e[2 * i + 1] == hex_char_of_nibble((b[i] % 16) as u8));
        assert(hex_val(e[2 * i]) == b[i] / 16);
        assert(hex_val(e[2 * i + 1]) == b[i] % 16);
        assert((b[i] / 16) * 16 + b[i] % 16 == b[i]) by (nonlinear_arith);
    }
    assert(hex_decoding(e) =~= b);
}

/// Prepending `"0x"` to any character sequence changes nothing about what
/// it decodes to: the prefix is stripped before the digits are read.
pub proof fn lemma_hex_prefix_tolerance(s: Seq<char>)
    ensures
        strip_hex_prefix(seq!['0', 'x'] + s) == s,
{
    let p = seq!['0', 'x'] + s;
    assert(p[0] == '0');
    assert(p[1] == 'x');
    assert(p.subrange(2, p.len() as int) =~= s);
}

} // verus!
