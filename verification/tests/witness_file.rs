use num_bigint::{BigInt, Sign};
use rapidsnark::{parse_bigints_to_witness, BigIntValue};
use std::str::FromStr;

const MODULUS: &str =
    "21888242871839275222246405745257275088548364400416034343698204186575808495617";

fn value_of(b: &BigInt) -> BigIntValue {
    let (sign, magnitude) = b.to_u32_digits();
    BigIntValue { negative: sign == Sign::Minus, magnitude }
}

fn small(v: i64) -> BigIntValue {
    value_of(&BigInt::from(v))
}

fn expected_header(n: usize) -> Vec<u8> {
    let mut h = Vec::new();
    h.extend_from_slice(b"wtns");
    h.extend_from_slice(&2u32.to_le_bytes());
    h.extend_from_slice(&2u32.to_le_bytes());
    h.extend_from_slice(&1u32.to_le_bytes());
    h.extend_from_slice(&40u64.to_le_bytes());
    h.extend_from_slice(&32u32.to_le_bytes());
    h.extend_from_slice(&BigInt::from_str(MODULUS).unwrap().to_signed_bytes_le());
    h.extend_from_slice(&(n as u32).to_le_bytes());
    h.extend_from_slice(&2u32.to_le_bytes());
    h.extend_from_slice(&(n as u64 * 32).to_le_bytes());
    h
}

fn chunk(bytes: &[u8], i: usize) -> &[u8] {
    &bytes[76 + 32 * i..76 + 32 * i + 32]
}

#[test]
fn empty_witness_is_the_header_alone() {
    let bytes = parse_bigints_to_witness(Vec::new()).unwrap();
    assert_eq!(bytes.len(), 76);
    assert_eq!(bytes, expected_header(0));
}

#[test]
fn header_names_the_bn254_scalar_field() {
    let bytes = parse_bigints_to_witness(vec![small(7)]).unwrap();
    assert_eq!(&bytes[0..4], b"wtns");
    let q = BigInt::from_bytes_le(Sign::Plus, &bytes[28..60]);
    assert_eq!(q, BigInt::from_str(MODULUS).unwrap());
    assert_eq!(&bytes[28..32], &[0x01, 0x00, 0x00, 0xf0]);
}

#[test]
fn header_counts_values_and_section_size() {
    let values: Vec<BigIntValue> = (0..5).map(small).collect();
    let bytes = parse_bigints_to_witness(values).unwrap();
    assert_eq!(bytes.len(), 76 + 5 * 32);
    assert_eq!(&bytes[..76], &expected_header(5)[..]);
    assert_eq!(u32::from_le_bytes(bytes[60..64].try_into().unwrap()), 5);
    assert_eq!(u64::from_le_bytes(bytes[68..76].try_into().unwrap()), 160);
}

#[test]
fn small_values_are_little_endian_and_zero_padded() {
    let bytes = parse_bigints_to_witness(vec![small(1), small(255), small(256), small(0)]).unwrap();
    let mut one = [0u8; 32];
    one[0] = 1;
    assert_eq!(chunk(&bytes, 0), &one);
    let mut b255 = [0u8; 32];
    b255[0] = 255;
    assert_eq!(chunk(&bytes, 1), &b255);
    let mut b256 = [0u8; 32];
    b256[1] = 1;
    assert_eq!(chunk(&bytes, 2), &b256);
    assert_eq!(chunk(&bytes, 3), &[0u8; 32]);
}

#[test]
fn values_below_two_to_the_256_read_back() {
    let values = vec![
        BigInt::from_str(MODULUS).unwrap() - 1,
        (BigInt::from(1) << 255) + 12345,
        (BigInt::from(1) << 256) - 1,
        BigInt::from(u64::MAX),
    ];
    let bytes = parse_bigints_to_witness(values.iter().map(value_of).collect()).unwrap();
    for (i, v) in values.iter().enumerate() {
        assert_eq!(&BigInt::from_bytes_le(Sign::Plus, chunk(&bytes, i)), v);
    }
}

#[test]
fn negative_values_keep_their_twos_complement_bytes_and_pad_with_zeros() {
    let bytes = parse_bigints_to_witness(vec![small(-1), small(-256)]).unwrap();
    let mut minus_one = [0u8; 32];
    minus_one[0] = 0xff;
    assert_eq!(chunk(&bytes, 0), &minus_one);
    let mut minus_256 = [0u8; 32];
    minus_256[1] = 0xff;
    assert_eq!(chunk(&bytes, 1), &minus_256);
}

#[test]
fn values_of_two_to_the_256_and_above_are_cut_to_32_bytes() {
    let big = (BigInt::from(1) << 256) + 5;
    let bytes = parse_bigints_to_witness(vec![value_of(&big)]).unwrap();
    let mut five = [0u8; 32];
    five[0] = 5;
    assert_eq!(chunk(&bytes, 0), &five);
}

#[test]
fn digits_with_a_negative_sign_and_no_magnitude_are_zero() {
    let zero = BigIntValue { negative: true, magnitude: vec![0, 0] };
    let bytes = parse_bigints_to_witness(vec![zero]).unwrap();
    assert_eq!(chunk(&bytes, 0), &[0u8; 32]);
}

#[test]
fn matches_num_bigint_encoding_for_many_values() {
    let mut values = Vec::new();
    let mut x = BigInt::from(1);
    for k in 0..40 {
        values.push(x.clone());
        values.push(-x.clone());
        x = x * 37 + k;
    }
    let bytes = parse_bigints_to_witness(values.iter().map(value_of).collect()).unwrap();
    assert_eq!(bytes.len(), 76 + 32 * values.len());
    for (i, v) in values.iter().enumerate() {
        let mut expected = v.to_signed_bytes_le();
        expected.resize(32, 0);
        assert_eq!(chunk(&bytes, i), &expected[..]);
    }
}

#[test]
fn header_bytes_are_concrete() {
    let bytes = parse_bigints_to_witness(vec![small(9)]).unwrap();
    assert_eq!(
        &bytes[0..28],
        &[
            0x77, 0x74, 0x6e, 0x73, 2, 0, 0, 0, 2, 0, 0, 0, 1, 0, 0, 0, 40, 0, 0, 0, 0, 0, 0, 0, 32, 0, 0, 0
        ]
    );
    assert_eq!(&bytes[60..64], &[1, 0, 0, 0]);
    assert_eq!(&bytes[64..68], &[2, 0, 0, 0]);
    assert_eq!(&bytes[68..76], &[32, 0, 0, 0, 0, 0, 0, 0]);
}

#[test]
fn header_depends_only_on_the_count() {
    let a = parse_bigints_to_witness(vec![small(1), small(-5), small(70000)]).unwrap();
    let b = parse_bigints_to_witness(vec![small(0), small(3), small(2)]).unwrap();
    assert_eq!(&a[..76], &b[..76]);
    assert_ne!(a, b);
}

#[test]
fn witness_sections_concatenate() {
    let xs = [3i64, -7, 255];
    let ys = [1i64 << 40, 0];
    let a = parse_bigints_to_witness(xs.iter().map(|v| small(*v)).collect()).unwrap();
    let b = parse_bigints_to_witness(ys.iter().map(|v| small(*v)).collect()).unwrap();
    let c = parse_bigints_to_witness(xs.iter().chain(ys.iter()).map(|v| small(*v)).collect()).unwrap();
    let mut joined = a[76..].to_vec();
    joined.extend_from_slice(&b[76..]);
    assert_eq!(&c[76..], &joined[..]);
}
