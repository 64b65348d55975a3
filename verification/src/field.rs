//! The field bridge: field values of the circuit and scalars of the backend,
//! both held by their canonical 32-byte big-endian encoding, and the two
//! conversions between them.

use ark_ff::{BigInteger, PrimeField};
use vstd::prelude::*;

verus! {

/// An element of the field that circuits are written over.
#[derive(Clone, Copy, Debug, PartialEq, Eq)]
pub struct FieldValue {
    bytes: [u8; 32],
}

/// An element of the backend's scalar field.
#[derive(Clone, Copy, Debug, PartialEq, Eq)]
pub struct CurveScalar {
    bytes: [u8; 32],
}

impl View for FieldValue {
    type V = nat;

    closed spec fn view(&self) -> nat {
        be_value(self.bytes@)
    }
}

impl View for CurveScalar {
    type V = nat;

    closed spec fn view(&self) -> nat {
        be_value(self.bytes@)
    }
}

/// The natural number that `bytes` encode, most significant byte first.
pub open spec fn be_value(bytes: Seq<u8>) -> nat
    decreases bytes.len(),
{
    if bytes.len() == 0 {
        0
    } else {
        be_value(bytes.drop_last()) * 256 + bytes.last() as nat
    }
}

/// The characteristic of the field that circuits are written over.
pub open spec fn field_modulus() -> nat {
    21888242871839275222246405745257275088548364400416034343698204186575808495617nat
}

/// The order of the backend's scalar field.
pub open spec fn scalar_modulus() -> nat {
    21888242871839275222246405745257275088548364400416034343698204186575808495617nat
}

/// The scalar that stands for the field value `value` in the backend.
pub open spec fn scalar_of(value: nat) -> nat {
    value % scalar_modulus()
}

/// The field value that stands for the backend scalar `scalar` in a circuit.
pub open spec fn field_of(scalar: nat) -> nat {
    scalar % field_modulus()
}

/// Reduces a big-endian number into the backend's scalar field with
/// `ark_ff::PrimeField::from_be_bytes_mod_order` on `ark_bn254::Fr`, and hands
/// the scalar back as the 32 big-endian bytes of its integer representative.
/// Trusted: the bytes returned encode the input's value modulo the order of
/// the scalar field.
#[verifier::external_body]
fn scalar_bytes_mod_order(bytes: &[u8]) -> (encoded: [u8; 32])
    ensures
        be_value(encoded@) == be_value(bytes@) % scalar_modulus(),
{
    let scalar = ark_bn254::Fr::from_be_bytes_mod_order(bytes);
    let digits: Vec<u8> = scalar.into_bigint().to_bytes_be();
    let mut encoded = [0u8; 32];
    encoded.copy_from_slice(&digits);
    encoded
}

/// Reduces a big-endian number into the circuit field with
/// `acvm::FieldElement::from_be_bytes_reduce`, and hands the element back as
/// the 32 bytes of `acvm::FieldElement::to_be_bytes`.
/// Trusted: the bytes returned encode the input's value modulo the
/// characteristic of the circuit field.
#[verifier::external_body]
fn field_bytes_reduce(bytes: &[u8]) -> (encoded: [u8; 32])
    ensures
        be_value(encoded@) == be_value(bytes@) % field_modulus(),
{
    let element = acvm::FieldElement::from_be_bytes_reduce(bytes);
    let digits: Vec<u8> = element.to_be_bytes();
    let mut encoded = [0u8; 32];
    encoded.copy_from_slice(&digits);
    encoded
}

impl FieldValue {
    #[verifier::type_invariant]
    spec fn canonical(&self) -> bool {
        be_value(self.bytes@) < field_modulus()
    }

    /// The additive identity of the field.
    pub fn zero() -> (value: FieldValue)
        ensures
            value@ == 0,
    {
        let bytes: [u8; 32] = [0u8; 32];
        proof {
            lemma_be_value_of_zeros(bytes@);
        }
        FieldValue { bytes }
    }

    /// The field element whose value is the big-endian number `bytes`, reduced
    /// modulo the characteristic of the field.
    pub fn from_be_bytes_reduce(bytes: &[u8]) -> (value: FieldValue)
        ensures
            value@ == be_value(bytes@) % field_modulus(),
    {
        FieldValue { bytes: field_bytes_reduce(bytes) }
    }

    /// The canonical encoding: 32 bytes, most significant first.
    pub fn to_be_bytes(&self) -> (bytes: [u8; 32])
        ensures
            be_value(bytes@) == self@,
            self@ < field_modulus(),
    {
        proof {
            use_type_invariant(self);
        }
        self.bytes
    }
}

impl CurveScalar {
    #[verifier::type_invariant]
    spec fn canonical(&self) -> bool {
        be_value(self.bytes@) < scalar_modulus()
    }

    /// The scalar whose value is the big-endian number `bytes`, reduced modulo
    /// the order of the scalar field.
    pub fn from_be_bytes_mod_order(bytes: &[u8]) -> (scalar: CurveScalar)
        ensures
            scalar@ == be_value(bytes@) % scalar_modulus(),
    {
        CurveScalar { bytes: scalar_bytes_mod_order(bytes) }
    }

    /// The canonical encoding: 32 bytes, most significant first.
    pub fn to_be_bytes(&self) -> (bytes: [u8; 32])
        ensures
            be_value(bytes@) == self@,
            self@ < scalar_modulus(),
    {
        proof {
            use_type_invariant(self);
        }
        self.bytes
    }
}

/// Converts a field value of the circuit into the backend's scalar: the
/// scalar with the same canonical encoding, and so the same value.
pub fn to_backend(value: &FieldValue) -> (scalar: CurveScalar)
    ensures
        scalar@ == scalar_of(value@),
        scalar@ == value@,
{
    proof {
        use_type_invariant(value);
    }
    CurveScalar { bytes: scalar_bytes_mod_order(value.bytes.as_slice()) }
}

/// Converts a scalar of the backend into a field value of the circuit: the
/// field value with the same canonical encoding, and so the same value.
pub fn from_backend(scalar: &CurveScalar) -> (value: FieldValue)
    ensures
        value@ == field_of(scalar@),
        value@ == scalar@,
{
    proof {
        use_type_invariant(scalar);
    }
    FieldValue { bytes: field_bytes_reduce(scalar.bytes.as_slice()) }
}

/// A sequence of zero bytes encodes zero.
proof fn lemma_be_value_of_zeros(bytes: Seq<u8>)
    requires
        forall|i: int| 0 <= i < bytes.len() ==> bytes[i] == 0,
    ensures
        be_value(bytes) == 0,
    decreases bytes.len(),
{
    if bytes.len() > 0 {
        lemma_be_value_of_zeros(bytes.drop_last());
    }
}

/// Two encodings of one length that encode the same number are the same
/// bytes.
pub proof fn lemma_be_value_injective(a: Seq<u8>, b: Seq<u8>)
    requires
        a.len() == b.len(),
        be_value(a) == be_value(b),
    ensures
        a == b,
    decreases a.len(),
{
    if a.len() > 0 {
        lemma_be_value_injective(a.drop_last(), b.drop_last());
        assert(a =~= a.drop_last().push(a.last()));
        assert(b =~= b.drop_last().push(b.last()));
    }
}

impl FieldValue {
    /// A field value is determined by the number it stands for.
    pub proof fn lemma_view_injective(a: FieldValue, b: FieldValue)
        requires
            a@ == b@,
        ensures
            a == b,
    {
        lemma_be_value_injective(a.bytes@, b.bytes@);
        assert(a.bytes =~= b.bytes);
    }
}

impl CurveScalar {
    /// A scalar is determined by the number it stands for.
    pub proof fn lemma_view_injective(a: CurveScalar, b: CurveScalar)
        requires
            a@ == b@,
        ensures
            a == b,
    {
        lemma_be_value_injective(a.bytes@, b.bytes@);
        assert(a.bytes =~= b.bytes);
    }
}

/// Every canonical field value is below the order of the scalar field, and
/// the order of the scalar field fits the 32 bytes of an encoding: no field
/// value is out of the backend's reach.
pub proof fn lemma_field_fits_scalar_field()
    ensures
        field_modulus() <= scalar_modulus(),
        scalar_modulus() < 0x1_0000_0000_0000_0000_0000_0000_0000_0000_0000_0000_0000_0000_0000_0000_0000_0000_0000int,
{
}

/// A field value that the scalar field can represent comes back unchanged
/// from the conversion to the backend and back: where `scalar` is what
/// `to_backend` gives for `value`, and `back` is what `from_backend` gives
/// for `scalar`, `back` is `value`.
pub proof fn lemma_round_trip(value: FieldValue, scalar: CurveScalar, back: FieldValue)
    requires
        value@ < field_modulus(),
        value@ < scalar_modulus(),
        scalar@ == scalar_of(value@),
        back@ == field_of(scalar@),
    ensures
        scalar@ == value@,
        back == value,
{
    FieldValue::lemma_view_injective(back, value);
}

} // verus!
