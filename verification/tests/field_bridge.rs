use acvm::FieldElement;
use ark_ff::{BigInteger, PrimeField};
use curve_acir::field::{from_backend, to_backend, CurveScalar, FieldValue};

/// The big-endian bytes of the order of the BN254 scalar field.
const MODULUS: [u8; 32] = [
    0x30, 0x64, 0x4e, 0x72, 0xe1, 0x31, 0xa0, 0x29, 0xb8, 0x50, 0x45, 0xb6, 0x81, 0x81, 0x58, 0x5d,
    0x28, 0x33, 0xe8, 0x48, 0x79, 0xb9, 0x70, 0x91, 0x43, 0xe1, 0xf5, 0x93, 0xf0, 0x00, 0x00, 0x01,
];

fn small(n: u8) -> [u8; 32] {
    let mut bytes = [0u8; 32];
    bytes[31] = n;
    bytes
}

fn modulus_plus(n: u8) -> [u8; 32] {
    let mut bytes = MODULUS;
    bytes[31] += n;
    bytes
}

#[test]
fn modulus_constant_is_that_of_both_fields() {
    assert_eq!(FieldElement::modulus().to_bytes_be(), MODULUS.to_vec());
    assert_eq!(ark_bn254::Fr::MODULUS.to_bytes_be(), MODULUS.to_vec());
}

#[test]
fn zero_is_all_zero_bytes() {
    assert_eq!(FieldValue::zero().to_be_bytes(), [0u8; 32]);
    assert_eq!(FieldValue::zero().to_be_bytes().to_vec(), FieldElement::zero().to_be_bytes());
}

#[test]
fn field_value_keeps_a_canonical_encoding() {
    let six = FieldValue::from_be_bytes_reduce(&small(6));
    assert_eq!(six.to_be_bytes(), small(6));
    assert_eq!(six.to_be_bytes().to_vec(), FieldElement::from(6_i128).to_be_bytes());
}

#[test]
fn field_value_reduces_modulo_the_characteristic() {
    assert_eq!(FieldValue::from_be_bytes_reduce(&MODULUS).to_be_bytes(), [0u8; 32]);
    assert_eq!(FieldValue::from_be_bytes_reduce(&modulus_plus(5)).to_be_bytes(), small(5));
    assert_eq!(FieldValue::from_be_bytes_reduce(&[0xff; 32]).to_be_bytes().to_vec(),
        FieldElement::from_be_bytes_reduce(&[0xff; 32]).to_be_bytes());
}

#[test]
fn field_value_reads_short_and_long_encodings() {
    assert_eq!(FieldValue::from_be_bytes_reduce(&[]).to_be_bytes(), [0u8; 32]);
    assert_eq!(FieldValue::from_be_bytes_reduce(&[1, 2]).to_be_bytes(), {
        let mut bytes = [0u8; 32];
        bytes[30] = 1;
        bytes[31] = 2;
        bytes
    });
    // 2^256 = 5 * modulus + remainder
    let mut two_pow_256 = [0u8; 33];
    two_pow_256[0] = 1;
    let expected = FieldElement::from_be_bytes_reduce(&two_pow_256).to_be_bytes();
    assert_eq!(FieldValue::from_be_bytes_reduce(&two_pow_256).to_be_bytes().to_vec(), expected);
    assert_ne!(expected, vec![0u8; 32]);
}

#[test]
fn scalar_reduces_modulo_the_order() {
    assert_eq!(CurveScalar::from_be_bytes_mod_order(&small(9)).to_be_bytes(), small(9));
    assert_eq!(CurveScalar::from_be_bytes_mod_order(&MODULUS).to_be_bytes(), [0u8; 32]);
    assert_eq!(CurveScalar::from_be_bytes_mod_order(&modulus_plus(7)).to_be_bytes(), small(7));
    let reduced = ark_bn254::Fr::from_be_bytes_mod_order(&[0xff; 32]);
    assert_eq!(
        CurveScalar::from_be_bytes_mod_order(&[0xff; 32]).to_be_bytes().to_vec(),
        reduced.into_bigint().to_bytes_be()
    );
}

#[test]
fn to_backend_preserves_the_value() {
    let six = FieldValue::from_be_bytes_reduce(&small(6));
    assert_eq!(to_backend(&six).to_be_bytes(), small(6));
    assert_eq!(to_backend(&FieldValue::zero()).to_be_bytes(), [0u8; 32]);
    let minus_one = FieldValue::from_be_bytes_reduce(&(-FieldElement::one()).to_be_bytes());
    let mut expected = MODULUS;
    expected[31] -= 1;
    assert_eq!(to_backend(&minus_one).to_be_bytes(), expected);
}

#[test]
fn to_backend_agrees_with_the_scalar_field() {
    let element = FieldElement::from(123456789_i128) * FieldElement::from(987654321_i128);
    let value = FieldValue::from_be_bytes_reduce(&element.to_be_bytes());
    let scalar = to_backend(&value);
    assert_eq!(scalar.to_be_bytes().to_vec(), element.into_repr().into_bigint().to_bytes_be());
}

#[test]
fn from_backend_preserves_the_value() {
    let scalar = CurveScalar::from_be_bytes_mod_order(&small(42));
    assert_eq!(from_backend(&scalar).to_be_bytes(), small(42));
    assert_eq!(from_backend(&scalar), FieldValue::from_be_bytes_reduce(&small(42)));
}

#[test]
fn round_trip_gives_the_value_back() {
    let mut samples: Vec<FieldValue> = vec![
        FieldValue::zero(),
        FieldValue::from_be_bytes_reduce(&small(1)),
        FieldValue::from_be_bytes_reduce(&small(6)),
        FieldValue::from_be_bytes_reduce(&(-FieldElement::one()).to_be_bytes()),
        FieldValue::from_be_bytes_reduce(&[0xab; 32]),
    ];
    let mut element = FieldElement::from(3_i128);
    for _ in 0..50 {
        element = element * element + FieldElement::one();
        samples.push(FieldValue::from_be_bytes_reduce(&element.to_be_bytes()));
    }
    for value in samples {
        assert_eq!(from_backend(&to_backend(&value)), value);
    }
}
