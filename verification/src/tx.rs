//! Transactions as they arrive, and as the sequencer works on them.

use crate::account::Address;
use crate::encoding::{dec_value, DecStrError};
use crate::uint::{pow2_256, U256};
use vstd::prelude::*;

verus! {

/// What a transaction asks for. All three kinds move value from the sender
/// to the recipient in the same way.
#[derive(Clone, Copy, Debug, PartialEq, Eq, Structural)]
pub enum TxKind {
    Transfer,
    Deposit,
    Withdraw,
}

/// A public key, as the 256-bit number that encodes it.
#[derive(Clone, Copy, Debug, PartialEq, Eq, Structural)]
pub struct PublicKey(pub U256);

impl PublicKey {
    /// The key written as a decimal number of 256 bits, or the first fault
    /// in the text.
    pub fn from_dec_str(text: &str) -> (r: Result<PublicKey, DecStrError>)
        ensures
            match r {
                Ok(key) => dec_value(text@, pow2_256()) == Ok::<nat, DecStrError>(key.0@),
                Err(fault) => dec_value(text@, pow2_256()) == Err::<nat, DecStrError>(fault),
            },
    {
        match U256::from_dec_str(text) {
            Ok(value) => Ok(PublicKey(value)),
            Err(fault) => Err(fault),
        }
    }
}

/// A transfer of `value` from `sender` to `to`, numbered by `nonce`.
#[derive(Clone, Copy, Debug, PartialEq, Eq, Structural)]
pub struct Tx {
    pub kind: TxKind,
    pub sender: PublicKey,
    pub to: PublicKey,
    pub nonce: U256,
    pub value: U256,
}

/// The digest of a transaction: the number zero, for every transaction.
pub fn hash_tx(tx: &Tx) -> (r: U256)
    ensures
        r@ == 0,
        r == (U256 { l0: 0, l1: 0, l2: 0, l3: 0 }),
{
    U256::zero()
}

/// A transaction with the signature that came with it. The signature is
/// carried as it is and never looked into.
#[derive(Debug)]
pub struct SignedTx {
    pub tx: Tx,
    pub signature: String,
}

impl SignedTx {
    /// A copy with the same transaction and the same signature text.
    pub fn duplicate(&self) -> (r: SignedTx)
        ensures
            r == *self,
    {
        SignedTx { tx: self.tx, signature: self.signature.clone() }
    }
}

/// A signed transaction together with what was worked out about it before
/// it reached the sequencer: the account addresses that belong to its two
/// public keys, and whether its signature verified.
#[derive(Debug)]
pub struct ResolvedTx {
    pub signed: SignedTx,
    pub sender_addr: Address,
    pub to_addr: Address,
    pub signature_ok: bool,
}

impl ResolvedTx {
    /// A copy that is equal in every field.
    pub fn duplicate(&self) -> (r: ResolvedTx)
        ensures
            r == *self,
    {
        ResolvedTx {
            signed: self.signed.duplicate(),
            sender_addr: self.sender_addr,
            to_addr: self.to_addr,
            signature_ok: self.signature_ok,
        }
    }
}

} // verus!
