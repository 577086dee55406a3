use bytekind::{ByteArray, Bytes, DecodeError, HexString, Plain};

#[test]
fn fails_if_wrong_length() {
    let plain_too_long: Vec<u8> = vec![1, 2, 3, 4, 5];
    ByteArray::<Plain, 4>::decode_sequence(&plain_too_long).unwrap_err();

    let plain_too_short: Vec<u8> = vec![1, 2, 3];
    ByteArray::<Plain, 4>::decode_sequence(&plain_too_short).unwrap_err();

    ByteArray::<HexString, 4>::decode_hex("0102030405").unwrap_err();

    ByteArray::<HexString, 4>::decode_hex("010203").unwrap_err();
}

#[test]
fn fixed_plain_rejections_name_expected_length() {
    let too_short = ByteArray::<Plain, 4>::decode_sequence(&vec![1, 2, 3]).unwrap_err();
    assert_eq!(too_short, DecodeError::LengthMismatch { expected: 4, actual: 3 });

    let trailing = ByteArray::<Plain, 4>::decode_sequence(&vec![1, 2, 3, 4, 5]).unwrap_err();
    assert_eq!(trailing, DecodeError::TrailingData { expected: 4 });

    let bytes: &[u8] = &[1, 2, 3, 4, 5];
    let long_string = ByteArray::<Plain, 4>::decode_byte_string(bytes).unwrap_err();
    assert_eq!(long_string, DecodeError::LengthMismatch { expected: 4, actual: 5 });
}

#[test]
fn fixed_hex_rejection_names_expected_digits() {
    let err = ByteArray::<HexString, 4>::decode_hex("010203").unwrap_err();
    assert_eq!(err, DecodeError::LengthMismatch { expected: 8, actual: 6 });

    let err = ByteArray::<HexString, 4>::decode_hex("0102030405").unwrap_err();
    assert_eq!(err, DecodeError::LengthMismatch { expected: 8, actual: 10 });

    let err = ByteArray::<HexString, 4>::decode_hex("0x010203").unwrap_err();
    assert_eq!(err, DecodeError::LengthMismatch { expected: 8, actual: 6 });
}

#[test]
fn invalid_digit_beats_no_length_error() {
    let err = Bytes::<HexString>::decode_hex("01g2").unwrap_err();
    assert_eq!(err, DecodeError::InvalidHexDigit { character: 'g', index: 2 });

    let err = ByteArray::<HexString, 2>::decode_hex("01g2").unwrap_err();
    assert_eq!(err, DecodeError::InvalidHexDigit { character: 'g', index: 2 });
}

#[test]
fn odd_digit_count_is_its_own_error() {
    let err = Bytes::<HexString>::decode_hex("010").unwrap_err();
    assert_eq!(err, DecodeError::OddHexLength { digits: 3 });

    let err = Bytes::<HexString>::decode_hex("0x0").unwrap_err();
    assert_eq!(err, DecodeError::OddHexLength { digits: 1 });

    let err = ByteArray::<HexString, 4>::decode_hex("01020").unwrap_err();
    assert_eq!(err, DecodeError::OddHexLength { digits: 5 });
}

#[test]
fn prefix_match_is_case_sensitive() {
    let err = Bytes::<HexString>::decode_hex("0X01").unwrap_err();
    assert_eq!(err, DecodeError::InvalidHexDigit { character: 'X', index: 1 });
}

#[test]
fn first_invalid_digit_is_reported() {
    let err = Bytes::<HexString>::decode_hex("00zz").unwrap_err();
    assert_eq!(err, DecodeError::InvalidHexDigit { character: 'z', index: 2 });

    let err = Bytes::<HexString>::decode_hex("0xq0z0").unwrap_err();
    assert_eq!(err, DecodeError::InvalidHexDigit { character: 'q', index: 0 });
}

#[test]
fn non_ascii_character_is_an_invalid_digit() {
    let err = Bytes::<HexString>::decode_hex("0é").unwrap_err();
    assert_eq!(err, DecodeError::InvalidHexDigit { character: 'é', index: 1 });
}

#[test]
fn dynamic_hex_accepts_any_even_length() {
    let short: Bytes<HexString> = Bytes::decode_hex("ff").unwrap();
    assert_eq!(short, vec![255]);

    let long: Bytes<HexString> = Bytes::decode_hex("000102030405060708090a0b").unwrap();
    assert_eq!(long, vec![0, 1, 2, 3, 4, 5, 6, 7, 8, 9, 10, 11]);
}
