use bytekind::{ByteArray, Bytes, HexString, Plain};

#[test]
fn parses_with_leading_0x() {
    let byte_array: ByteArray<HexString, 1> = ByteArray::decode_hex("0x00").unwrap();
    assert_eq!(byte_array, [0]);
}

#[test]
fn serialize_deserialize_sanity() {
    let plain: ByteArray<Plain, 4> = ByteArray::decode_sequence(&vec![1, 2, 3, 4]).unwrap();
    let hex: ByteArray<HexString, 4> = ByteArray::decode_hex("01020304").unwrap();

    assert_eq!(plain.encode_plain(), vec![1, 2, 3, 4]);
    assert_eq!(hex.encode_hex(), "01020304");
}

#[test]
fn simple_example() {
    let hex: Bytes<HexString> = Bytes::decode_hex("01020304").unwrap();
    let plain: Bytes<Plain> = Bytes::decode_plain(vec![1, 2, 3, 4]);

    assert_eq!(hex, vec![1, 2, 3, 4]);
    assert_eq!(plain, vec![1, 2, 3, 4]);

    assert_eq!(hex.encode_hex(), "01020304");
    assert_eq!(plain.encode_plain(), vec![1, 2, 3, 4]);
}

#[test]
fn round_trip_fixed_both_tags() {
    let plain: ByteArray<Plain, 4> = ByteArray::from([9, 0, 255, 16]);
    let wire = plain.encode_plain();
    let back: ByteArray<Plain, 4> = ByteArray::decode_sequence(&wire).unwrap();
    assert_eq!(back, plain);
    let back: ByteArray<Plain, 4> = ByteArray::decode_byte_string(wire.as_slice()).unwrap();
    assert_eq!(back, plain);

    let hex: ByteArray<HexString, 4> = ByteArray::from([9, 0, 255, 16]);
    let wire = hex.encode_hex();
    let back: ByteArray<HexString, 4> = ByteArray::decode_hex(&wire).unwrap();
    assert_eq!(back, hex);
}

#[test]
fn round_trip_dynamic_both_tags() {
    for bytes in [vec![], vec![0], vec![1, 2, 3, 4, 5, 6, 7], vec![255, 254, 0, 1]] {
        let plain: Bytes<Plain> = Bytes::from(bytes.clone());
        let back: Bytes<Plain> = Bytes::decode_plain(plain.encode_plain());
        assert_eq!(back, bytes);

        let hex: Bytes<HexString> = Bytes::from(bytes.clone());
        let back: Bytes<HexString> = Bytes::decode_hex(&hex.encode_hex()).unwrap();
        assert_eq!(back, bytes);
    }
}

#[test]
fn prefix_tolerance() {
    let bytes = vec![171, 205, 1, 0];
    let hex: Bytes<HexString> = Bytes::from(bytes.clone());
    let wire = hex.encode_hex();
    assert_eq!(wire, "abcd0100");

    let bare: Bytes<HexString> = Bytes::decode_hex(&wire).unwrap();
    let mut prefixed_wire = String::from("0x");
    prefixed_wire.push_str(&wire);
    let prefixed: Bytes<HexString> = Bytes::decode_hex(&prefixed_wire).unwrap();

    assert_eq!(bare, bytes);
    assert_eq!(prefixed, bytes);
    assert_eq!(bare, prefixed);

    let fixed: ByteArray<HexString, 4> = ByteArray::decode_hex(&prefixed_wire).unwrap();
    assert_eq!(fixed, [171, 205, 1, 0]);
}

#[test]
fn concrete_scenario() {
    let plain: ByteArray<Plain, 4> = ByteArray::from([1, 2, 3, 4]);
    assert_eq!(plain.encode_plain(), vec![1, 2, 3, 4]);

    let hex: ByteArray<HexString, 4> = ByteArray::from([1, 2, 3, 4]);
    assert_eq!(hex.encode_hex(), "01020304");

    let decoded: ByteArray<HexString, 4> = ByteArray::decode_hex("0x01020304").unwrap();
    assert_eq!(decoded, [1, 2, 3, 4]);
}

#[test]
fn encode_is_lowercase_and_decode_any_case() {
    let hex: Bytes<HexString> = Bytes::from(vec![0xab, 0xcd, 0xef]);
    assert_eq!(hex.encode_hex(), "abcdef");

    let upper: Bytes<HexString> = Bytes::decode_hex("ABCDEF").unwrap();
    assert_eq!(upper, vec![0xab, 0xcd, 0xef]);

    let mixed: Bytes<HexString> = Bytes::decode_hex("AbCdEf").unwrap();
    assert_eq!(mixed, vec![0xab, 0xcd, 0xef]);
}

#[test]
fn empty_hex_wire() {
    let empty: Bytes<HexString> = Bytes::new();
    assert_eq!(empty.encode_hex(), "");

    let decoded: Bytes<HexString> = Bytes::decode_hex("").unwrap();
    assert!(decoded.is_empty());

    let decoded: Bytes<HexString> = Bytes::decode_hex("0x").unwrap();
    assert!(decoded.is_empty());
}
