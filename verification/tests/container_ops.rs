use std::collections::hash_map::DefaultHasher;
use std::hash::{Hash, Hasher};

use bytekind::{ByteArray, Bytes, HexString, Plain};

fn hash_of<T: Hash>(t: &T) -> u64 {
    let mut hasher = DefaultHasher::new();
    t.hash(&mut hasher);
    hasher.finish()
}

#[test]
fn cross_tag_equality_hash_and_order() {
    let plain: ByteArray<Plain, 4> = ByteArray::from([1, 2, 3, 4]);
    let hex: ByteArray<HexString, 4> = ByteArray::from([1, 2, 3, 4]);

    assert!(plain == hex);
    assert!(hex == plain);
    assert_eq!(hash_of(&plain), hash_of(&hex));

    let plain_big: ByteArray<Plain, 4> = ByteArray::from([1, 2, 3, 5]);
    let hex_big: ByteArray<HexString, 4> = ByteArray::from([1, 2, 3, 5]);
    assert_eq!(plain.cmp(&plain_big), hex.cmp(&hex_big));
    assert_eq!(plain.partial_cmp(&plain_big), hex.partial_cmp(&hex_big));
    assert_eq!(plain_big.cmp(&plain), hex_big.cmp(&hex));
}

#[test]
fn cross_tag_equality_hash_and_order_dynamic() {
    let plain: Bytes<Plain> = Bytes::from(vec![1, 2, 3, 4]);
    let hex: Bytes<HexString> = Bytes::from(vec![1, 2, 3, 4]);

    assert!(plain == hex);
    assert!(hex == plain);
    assert_eq!(hash_of(&plain), hash_of(&hex));

    let plain_longer: Bytes<Plain> = Bytes::from(vec![1, 2, 3, 4, 0]);
    let hex_longer: Bytes<HexString> = Bytes::from(vec![1, 2, 3, 4, 0]);
    assert_eq!(plain.cmp(&plain_longer), hex.cmp(&hex_longer));
    assert_eq!(plain.partial_cmp(&plain_longer), hex.partial_cmp(&hex_longer));
}

#[test]
fn conversion_preserves_value() {
    let plain: Bytes<Plain> = Bytes::from(vec![7, 8, 9]);
    let converted: Bytes<HexString> = plain.clone().convert();
    assert_eq!(converted.clone().into_inner(), plain.into_inner());

    let fixed: ByteArray<Plain, 3> = ByteArray::from([7, 8, 9]);
    let converted: ByteArray<HexString, 3> = fixed.convert();
    assert_eq!(converted.into_inner(), fixed.into_inner());
    assert_eq!(converted, fixed);
}

#[test]
fn constructors_and_growth() {
    let mut empty: Bytes<Plain> = Bytes::new();
    assert!(empty.is_empty());
    assert_eq!(empty.len(), 0);

    let roomy: Bytes<Plain> = Bytes::with_capacity(64);
    assert!(roomy.is_empty());

    empty.push(5);
    empty.push(6);
    assert_eq!(empty.len(), 2);
    assert_eq!(empty, vec![5, 6]);

    empty.reserve(100);
    assert_eq!(empty, vec![5, 6]);

    empty.set(0, 50);
    assert_eq!(empty, vec![50, 6]);
}

#[test]
fn slice_views_and_mutation() {
    let mut fixed: ByteArray<Plain, 3> = ByteArray::from([1, 2, 3]);
    assert_eq!(fixed.as_byte_slice(), &[1, 2, 3]);
    assert_eq!(fixed.as_ref(), &[1, 2, 3]);

    fixed.set(1, 20);
    assert_eq!(fixed.into_inner(), [1, 20, 3]);

    let mut dynamic: Bytes<Plain> = Bytes::from(vec![1, 2, 3]);
    assert_eq!(dynamic.as_byte_slice(), &[1, 2, 3]);
    {
        let view: &mut [u8] = dynamic.as_mut();
        view[2] = 30;
    }
    assert_eq!(dynamic.into_inner(), vec![1, 2, 30]);

    let mut fixed: ByteArray<HexString, 2> = ByteArray::from([0, 0]);
    {
        let view: &mut [u8] = fixed.as_mut();
        view[0] = 255;
    }
    assert_eq!(fixed.into_inner(), [255, 0]);
}
