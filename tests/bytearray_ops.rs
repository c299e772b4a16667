use serde_byte_array::{serialize, ByteArray};
use std::cmp::Ordering;
use std::collections::hash_map::DefaultHasher;
use std::hash::{Hash, Hasher};

fn hash_of<T: Hash>(v: &T) -> u64 {
    let mut h = DefaultHasher::new();
    v.hash(&mut h);
    h.finish()
}

#[test]
fn buffer_and_array_are_interchangeable() {
    let raw = [1u8, 2, 3, 4];
    let b = ByteArray::new(raw);
    assert!(b == raw);
    assert_eq!(b.partial_cmp(&raw), Some(Ordering::Equal));
    assert_eq!(hash_of(&b), hash_of(&raw));
    assert_eq!(serialize(&b), serialize(&raw));
}

#[test]
fn conversions() {
    let b = ByteArray::from([7u8, 8, 9]);
    assert_eq!(b.as_slice(), &[7, 8, 9]);
    assert_eq!(b.into_array(), [7, 8, 9]);
    let a: [u8; 3] = b.into();
    assert_eq!(a, [7, 8, 9]);
    let c: ByteArray<3> = [7u8, 8, 9].into();
    assert_eq!(b, c);
    let r: &[u8; 3] = b.as_ref();
    assert_eq!(r, &[7, 8, 9]);
    let s: &[u8] = b.as_ref();
    assert_eq!(s, &[7, 8, 9]);
    assert_eq!(b.iter().copied().collect::<Vec<u8>>(), vec![7, 8, 9]);
    assert_eq!((&b).into_iter().count(), 3);
}

#[test]
fn try_from_slice_checks_length() {
    let ok: Result<ByteArray<2>, _> = ByteArray::try_from(&[5u8, 6][..]);
    assert_eq!(ok.unwrap(), ByteArray::new([5, 6]));
    assert!(ByteArray::<2>::try_from(&[5u8][..]).is_err());
    assert!(ByteArray::<2>::try_from_slice(&[5u8, 6, 7]).is_err());
}

#[test]
fn default_is_all_zero() {
    let d = ByteArray::<5>::default();
    assert_eq!(d.into_array(), [0; 5]);
}

#[test]
fn mutation_through_deref() {
    let mut b = ByteArray::new([0u8; 3]);
    b[1] = 42;
    let m: &mut [u8] = b.as_mut();
    m[2] = 7;
    assert_eq!(b.into_array(), [0, 42, 7]);
}

#[test]
fn lexicographic_order() {
    let a = ByteArray::new([1u8, 2, 3]);
    let b = ByteArray::new([1u8, 3, 0]);
    assert!(a < b);
    assert_eq!(a.partial_cmp(&b), Some(Ordering::Less));
    assert_eq!(b.partial_cmp(&a), Some(Ordering::Greater));
    assert_eq!(a.cmp(&b), Ordering::Less);
    assert!(a != b);
    assert!(a > [0u8, 9, 9]);
}
