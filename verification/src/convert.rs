//! Conversions between the library's integers and the values of the
//! big-integer and BabyJubJub crates.

use crate::encoding::{be_bytes, be_value, dec_value, le_bytes, DecStrError};
use crate::uint::{pow2_256, pow2_512, U256, U512};
use vstd::prelude::*;

verus! {

/// `BigInt` of `num-bigint`: a signed integer of any size, carried through
/// without being looked into.
#[verifier::external_type_specification]
#[verifier::external_body]
pub struct ExBigInt(num_bigint::BigInt);

/// `Point` of `babyjubjub-rs`: a point on the curve, carried through
/// without being looked into.
#[verifier::external_type_specification]
#[verifier::external_body]
pub struct ExPoint(babyjubjub_rs::Point);

/// `Signature` of `babyjubjub-rs`: a signature on the curve, carried
/// through without being looked into.
#[verifier::external_type_specification]
#[verifier::external_body]
pub struct ExSignature(babyjubjub_rs::Signature);

/// The sign of a big integer.
#[derive(Clone, Copy, Debug, PartialEq, Eq, Structural)]
pub enum Sign {
    Minus,
    NoSign,
    Plus,
}

/// Why a value is no signature.
#[derive(Debug)]
pub enum SignatureError {
    /// The text is no decimal number of 512 bits.
    Text(DecStrError),
    /// The bytes are no signature on the curve; the curve library's words.
    Curve(String),
}

/// `BigInt::from_bytes_be` of `num-bigint`, with sign `Plus`: the big
/// integer that the bytes stand for, most significant first. Nothing is
/// claimed of the result.
#[verifier::external_body]
fn bigint_from_bytes_be(bytes: &[u8; 32]) -> (r: num_bigint::BigInt) {
    num_bigint::BigInt::from_bytes_be(num_bigint::Sign::Plus, &bytes[..])
}

/// `BigInt::to_bytes_be` of `num-bigint`: the sign of a big integer and the
/// bytes of its magnitude, most significant first. Nothing is claimed of
/// the result.
#[verifier::external_body]
fn bigint_to_bytes_be(value: &num_bigint::BigInt) -> (r: (Sign, Vec<u8>)) {
    let (sign, bytes) = value.to_bytes_be();
    match sign {
        num_bigint::Sign::Minus => (Sign::Minus, bytes),
        num_bigint::Sign::NoSign => (Sign::NoSign, bytes),
        num_bigint::Sign::Plus => (Sign::Plus, bytes),
    }
}

/// What `decompress_point` of `babyjubjub-rs` finds wrong with 32 bytes:
/// its message, or `None` where the bytes encode a point.
pub uninterp spec fn point_fault(bytes: Seq<u8>) -> Option<Seq<char>>;

/// What `decompress_signature` of `babyjubjub-rs` finds wrong with 64
/// bytes: its message, or `None` where the bytes encode a signature.
pub uninterp spec fn signature_fault(bytes: Seq<u8>) -> Option<Seq<char>>;

/// `decompress_point` of `babyjubjub-rs`: the curve point that 32 bytes
/// encode, or the reason why they encode none. Whether it decodes, and the
/// reason where it does not, depend on the bytes alone. Nothing is claimed
/// of the point.
#[verifier::external_body]
fn curve_decompress_point(bytes: [u8; 32]) -> (r: Result<babyjubjub_rs::Point, String>)
    ensures
        r is Ok <==> point_fault(bytes@) is None,
        r matches Err(reason) ==> point_fault(bytes@) == Some(reason@),
{
    babyjubjub_rs::decompress_point(bytes)
}

/// `decompress_signature` of `babyjubjub-rs`: the signature that 64 bytes
/// encode, or the reason why they encode none. Whether it decodes, and the
/// reason where it does not, depend on the bytes alone. Nothing is claimed
/// of the signature.
#[verifier::external_body]
fn curve_decompress_signature(bytes: &[u8; 64]) -> (r: Result<babyjubjub_rs::Signature, String>)
    ensures
        r is Ok <==> signature_fault(bytes@) is None,
        r matches Err(reason) ==> signature_fault(bytes@) == Some(reason@),
{
    babyjubjub_rs::decompress_signature(bytes)
}

/// What becomes of the curve library's answer on a signature: the
/// signature as it is, or its reason as a `Curve` error.
pub fn signature_outcome(decoded: Result<babyjubjub_rs::Signature, String>) -> (r: Result<
    babyjubjub_rs::Signature,
    SignatureError,
>)
    ensures
        match decoded {
            Ok(signature) => r == Ok::<babyjubjub_rs::Signature, SignatureError>(signature),
            Err(reason) => r == Err::<babyjubjub_rs::Signature, SignatureError>(
                SignatureError::Curve(reason),
            ),
        },
{
    match decoded {
        Ok(signature) => Ok(signature),
        Err(reason) => Err(SignatureError::Curve(reason)),
    }
}

/// The 256-bit number with the given sign and magnitude, the magnitude as
/// bytes with the most significant first. There is none where the sign is
/// minus or the magnitude has more than 32 bytes.
pub fn u256_from_sign_magnitude(sign: Sign, magnitude: &[u8]) -> (r: Option<U256>)
    ensures
        r is Some <==> sign != Sign::Minus && magnitude@.len() <= 32,
        r matches Some(v) ==> v@ == be_value(magnitude@),
{
    match sign {
        Sign::Minus => None,
        _ => U256::from_big_endian(magnitude),
    }
}

/// Values that may stand for a 256-bit number.
pub trait ToU256 {
    /// The 256-bit number, where the value is one.
    fn to_u256(&self) -> Option<U256>;
}

impl ToU256 for num_bigint::BigInt {
    /// The big integer as a 256-bit number; `None` where it is negative or
    /// too large.
    fn to_u256(&self) -> (r: Option<U256>) {
        let (sign, magnitude) = bigint_to_bytes_be(self);
        u256_from_sign_magnitude(sign, magnitude.as_slice())
    }
}

/// Values that can be written as a big integer.
pub trait ToBigInt {
    /// The value as a big integer.
    fn to_big_int(&self) -> num_bigint::BigInt;
}

impl ToBigInt for U256 {
    /// The big integer made from the 32 bytes of the number, most
    /// significant first, with sign `Plus`.
    fn to_big_int(&self) -> (r: num_bigint::BigInt) {
        let bytes = self.to_big_endian();
        bigint_from_bytes_be(&bytes)
    }
}

/// Values that may encode a signature on the curve.
pub trait ToBabyJubjubSignature {
    /// The signature, or why the value encodes none.
    fn to_babyjubjub_signature(&self) -> Result<babyjubjub_rs::Signature, SignatureError>;
}

impl ToBabyJubjubSignature for U512 {
    /// The signature that the 64 bytes of the number encode, least
    /// significant byte first. There is one exactly where the curve library
    /// finds no fault with those bytes; else the error holds its reason.
    fn to_babyjubjub_signature(&self) -> (r: Result<babyjubjub_rs::Signature, SignatureError>)
        ensures
            r is Ok <==> signature_fault(le_bytes(self@, 64)) is None,
            r matches Err(e) ==> e matches SignatureError::Curve(reason) && signature_fault(
                le_bytes(self@, 64),
            ) == Some(reason@),
    {
        let bytes = self.to_little_endian();
        signature_outcome(curve_decompress_signature(&bytes))
    }
}

impl ToBabyJubjubSignature for String {
    /// The signature that the text encodes: the text is read as a decimal
    /// number of 512 bits, and the number as a signature.
    fn to_babyjubjub_signature(&self) -> (r: Result<babyjubjub_rs::Signature, SignatureError>)
        ensures
            dec_value(self@, pow2_512()) matches Err(fault) ==> r matches Err(
                SignatureError::Text(e),
            ) && e == fault,
            dec_value(self@, pow2_512()) is Ok ==> (r matches Err(e) ==> e is Curve),
    {
        match U512::from_dec_str(self.as_str()) {
            Ok(number) => number.to_babyjubjub_signature(),
            Err(fault) => Err(SignatureError::Text(fault)),
        }
    }
}

/// Values that may encode a point on the curve.
pub trait ToBabyJubjubPoint {
    /// The point, or the curve library's reason why the value encodes none.
    fn to_babyjubjub_point(&self) -> Result<babyjubjub_rs::Point, String>;
}

impl ToBabyJubjubPoint for U256 {
    /// The point that the 32 bytes of the number encode, most significant
    /// byte first. There is one exactly where the curve library finds no
    /// fault with those bytes; else the error is its reason.
    fn to_babyjubjub_point(&self) -> (r: Result<babyjubjub_rs::Point, String>)
        ensures
            r is Ok <==> point_fault(be_bytes(self@, 32)) is None,
            r matches Err(reason) ==> point_fault(be_bytes(self@, 32)) == Some(reason@),
    {
        curve_decompress_point(self.to_big_endian())
    }
}

/// A private key on the curve: its 32 bytes.
pub struct PrivateKey {
    pub key: [u8; 32],
}

impl PrivateKey {
    /// The key whose bytes are the 32 bytes of the number, most significant
    /// first.
    pub fn from_u256(key: U256) -> (r: PrivateKey)
        ensures
            be_value(r.key@) == key@,
    {
        PrivateKey { key: key.to_big_endian() }
    }

    /// The key written as a decimal number of 256 bits, or the first fault
    /// in the text.
    pub fn from_dec_str(text: &str) -> (r: Result<PrivateKey, DecStrError>)
        ensures
            match r {
                Ok(secret) => dec_value(text@, pow2_256()) == Ok::<nat, DecStrError>(
                    be_value(secret.key@),
                ),
                Err(fault) => dec_value(text@, pow2_256()) == Err::<nat, DecStrError>(fault),
            },
    {
        match U256::from_dec_str(text) {
            Ok(number) => Ok(PrivateKey::from_u256(number)),
            Err(fault) => Err(fault),
        }
    }
}

} // verus!
