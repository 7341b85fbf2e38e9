//! Numbers as bytes and as decimal text. The conversions themselves are
//! those of `ethers-core`.

use crate::uint::{pow2_256, pow2_512, U256, U512};
use vstd::prelude::*;

verus! {

/// The number that a byte string stands for, most significant byte first.
pub open spec fn be_value(bytes: Seq<u8>) -> nat
    decreases bytes.len(),
{
    if bytes.len() == 0 {
        0
    } else {
        be_value(bytes.drop_last()) * 256 + bytes.last() as nat
    }
}

/// The number that a byte string stands for, least significant byte first.
pub open spec fn le_value(bytes: Seq<u8>) -> nat {
    be_value(bytes.reverse())
}

/// The `len` bytes that stand for a number, most significant first. Where
/// the number does not fit, its upper part is left out.
pub open spec fn be_bytes(n: nat, len: nat) -> Seq<u8>
    decreases len,
{
    if len == 0 {
        Seq::empty()
    } else {
        be_bytes(n / 256, (len - 1) as nat).push((n % 256) as u8)
    }
}

/// The `len` bytes that stand for a number, least significant first.
pub open spec fn le_bytes(n: nat, len: nat) -> Seq<u8> {
    be_bytes(n, len).reverse()
}

/// A byte string is the encoding of the number it stands for, most
/// significant byte first.
pub proof fn lemma_be_bytes_of_value(bytes: Seq<u8>)
    ensures
        be_bytes(be_value(bytes), bytes.len()) == bytes,
    decreases bytes.len(),
{
    if bytes.len() > 0 {
        let front = bytes.drop_last();
        let value = be_value(bytes);
        lemma_be_bytes_of_value(front);
        assert(value == be_value(front) * 256 + bytes.last() as nat);
        assert(value / 256 == be_value(front));
        assert(value % 256 == bytes.last() as nat);
        assert(be_bytes(value, bytes.len()) == be_bytes(value / 256, front.len()).push(
            (value % 256) as u8,
        ));
        assert(front.push(bytes.last()) =~= bytes);
    } else {
        assert(bytes =~= Seq::<u8>::empty());
    }
}

/// A byte string is the encoding of the number it stands for, least
/// significant byte first.
pub proof fn lemma_le_bytes_of_value(bytes: Seq<u8>)
    ensures
        le_bytes(le_value(bytes), bytes.len()) == bytes,
{
    lemma_be_bytes_of_value(bytes.reverse());
    assert(bytes.reverse().len() == bytes.len());
    assert(bytes.reverse().reverse() =~= bytes);
}

/// Why a text is not a decimal number of the wanted width.
#[derive(Clone, Copy, Debug, PartialEq, Eq, Structural)]
pub enum DecStrError {
    /// A character that is no digit from 0 to 9.
    InvalidCharacter,
    /// The number does not fit the width.
    InvalidLength,
}

/// The digit that a character stands for, if it is one of 0 to 9.
pub open spec fn dec_digit(c: char) -> Option<nat> {
    if 48 <= c as u32 && c as u32 <= 57 {
        Some((c as u32 - 48) as nat)
    } else {
        None
    }
}

/// The number that a decimal text stands for, read from the left, with the
/// first fault found on the way: a character that is no digit, or a value
/// that has reached `limit`. The empty text stands for zero.
pub open spec fn dec_value(text: Seq<char>, limit: nat) -> Result<nat, DecStrError>
    decreases text.len(),
{
    if text.len() == 0 {
        Ok(0)
    } else {
        match dec_value(text.drop_last(), limit) {
            Err(e) => Err(e),
            Ok(v) => match dec_digit(text.last()) {
                None => Err(DecStrError::InvalidCharacter),
                Some(d) => if 10 * v + d < limit {
                    Ok(10 * v + d)
                } else {
                    Err(DecStrError::InvalidLength)
                },
            },
        }
    }
}

/// What a parse gave, with the number in place of its limbs.
pub open spec fn parsed(r: Result<U256, DecStrError>) -> Result<nat, DecStrError> {
    match r {
        Ok(v) => Ok(v@),
        Err(e) => Err(e),
    }
}

/// What a 512-bit parse gave, with the number in place of its limbs.
pub open spec fn parsed_wide(r: Result<U512, DecStrError>) -> Result<nat, DecStrError> {
    match r {
        Ok(v) => Ok(v@),
        Err(e) => Err(e),
    }
}

/// `U256::to_big_endian` of `ethers-core`, on the same limbs: the 32 bytes
/// of the number, most significant first.
#[verifier::external_body]
fn ethers_to_big_endian(a: U256) -> (r: [u8; 32])
    ensures
        be_value(r@) == a@,
{
    let mut bytes = [0u8; 32];
    ethers_core::types::U256([a.l0, a.l1, a.l2, a.l3]).to_big_endian(&mut bytes);
    bytes
}

/// `U256::to_little_endian` of `ethers-core`, on the same limbs: the 32
/// bytes of the number, least significant first.
#[verifier::external_body]
fn ethers_to_little_endian(a: U256) -> (r: [u8; 32])
    ensures
        le_value(r@) == a@,
{
    let mut bytes = [0u8; 32];
    ethers_core::types::U256([a.l0, a.l1, a.l2, a.l3]).to_little_endian(&mut bytes);
    bytes
}

/// `U512::to_little_endian` of `ethers-core`, on the same limbs: the 64
/// bytes of the number, least significant first.
#[verifier::external_body]
fn ethers_wide_to_little_endian(a: U512) -> (r: [u8; 64])
    ensures
        le_value(r@) == a@,
{
    let mut bytes = [0u8; 64];
    ethers_core::types::U512([a.l0, a.l1, a.l2, a.l3, a.l4, a.l5, a.l6, a.l7]).to_little_endian(
        &mut bytes,
    );
    bytes
}

/// `U256::from_big_endian` of `ethers-core`: the limbs of the number that
/// at most 32 bytes stand for, most significant first.
#[verifier::external_body]
fn ethers_from_big_endian(bytes: &[u8]) -> (r: U256)
    requires
        bytes@.len() <= 32,
    ensures
        r@ == be_value(bytes@),
{
    let v = ethers_core::types::U256::from_big_endian(bytes);
    U256 { l0: v.0[0], l1: v.0[1], l2: v.0[2], l3: v.0[3] }
}

/// `U256::from_dec_str` of `ethers-core`: the limbs of the number that a
/// decimal text stands for, or the fault it reports.
#[verifier::external_body]
fn ethers_from_dec_str(text: &str) -> (r: Result<U256, DecStrError>)
    ensures
        parsed(r) == dec_value(text@, pow2_256()),
{
    match ethers_core::types::U256::from_dec_str(text) {
        Ok(v) => Ok(U256 { l0: v.0[0], l1: v.0[1], l2: v.0[2], l3: v.0[3] }),
        Err(ethers_core::abi::ethereum_types::FromDecStrErr::InvalidCharacter) => Err(
            DecStrError::InvalidCharacter,
        ),
        Err(ethers_core::abi::ethereum_types::FromDecStrErr::InvalidLength) => Err(
            DecStrError::InvalidLength,
        ),
    }
}

/// `U512::from_dec_str` of `ethers-core`: the limbs of the number that a
/// decimal text stands for, or the fault it reports.
#[verifier::external_body]
fn ethers_wide_from_dec_str(text: &str) -> (r: Result<U512, DecStrError>)
    ensures
        parsed_wide(r) == dec_value(text@, pow2_512()),
{
    match ethers_core::types::U512::from_dec_str(text) {
        Ok(v) => {
            let l = v.0;
            Ok(U512 { l0: l[0], l1: l[1], l2: l[2], l3: l[3], l4: l[4], l5: l[5], l6: l[6], l7: l[7] })
        },
        Err(ethers_core::abi::ethereum_types::FromDecStrErr::InvalidCharacter) => Err(
            DecStrError::InvalidCharacter,
        ),
        Err(ethers_core::abi::ethereum_types::FromDecStrErr::InvalidLength) => Err(
            DecStrError::InvalidLength,
        ),
    }
}

impl U256 {
    /// The 32 bytes of the number, most significant first.
    pub fn to_big_endian(&self) -> (r: [u8; 32])
        ensures
            be_value(r@) == self@,
            r@ == be_bytes(self@, 32),
    {
        let bytes = ethers_to_big_endian(*self);
        proof {
            lemma_be_bytes_of_value(bytes@);
        }
        bytes
    }

    /// The 32 bytes of the number, least significant first.
    pub fn to_little_endian(&self) -> (r: [u8; 32])
        ensures
            le_value(r@) == self@,
    {
        ethers_to_little_endian(*self)
    }

    /// The number that the bytes stand for, most significant first; `None`
    /// where there are more than 32 bytes.
    pub fn from_big_endian(bytes: &[u8]) -> (r: Option<U256>)
        ensures
            r is Some <==> bytes@.len() <= 32,
            r matches Some(v) ==> v@ == be_value(bytes@),
    {
        if bytes.len() <= 32 {
            Some(ethers_from_big_endian(bytes))
        } else {
            None
        }
    }

    /// The number that a decimal text stands for, or the first fault in it.
    pub fn from_dec_str(text: &str) -> (r: Result<U256, DecStrError>)
        ensures
            parsed(r) == dec_value(text@, pow2_256()),
    {
        ethers_from_dec_str(text)
    }
}

impl U512 {
    /// The 64 bytes of the number, least significant first.
    pub fn to_little_endian(&self) -> (r: [u8; 64])
        ensures
            le_value(r@) == self@,
            r@ == le_bytes(self@, 64),
    {
        let bytes = ethers_wide_to_little_endian(*self);
        proof {
            lemma_le_bytes_of_value(bytes@);
        }
        bytes
    }

    /// The number that a decimal text stands for, or the first fault in it.
    pub fn from_dec_str(text: &str) -> (r: Result<U512, DecStrError>)
        ensures
            parsed_wide(r) == dec_value(text@, pow2_512()),
    {
        ethers_wide_from_dec_str(text)
    }
}

} // verus!
