//! The admission filter: the checks a transaction must pass against a
//! snapshot before it may change the chain.

use crate::account::{Account, Address};
use crate::state::State;
use crate::tx::ResolvedTx;
use vstd::prelude::*;

verus! {

/// Why a transaction was turned away.
#[derive(Clone, Copy, Debug, PartialEq, Eq, Structural)]
pub enum AdmissionError {
    /// The signature did not verify.
    BadSignature,
    /// Sender and recipient are the same key.
    SelfTransfer,
    /// The sender holds less than the transaction moves.
    InsufficientBalance,
    /// The nonce is not above the sender's current one.
    NonceTooLow,
}

/// The verdict of the admission filter: the first check that fails, in the
/// order signature, self-transfer, balance, nonce.
pub open spec fn admission(state: Map<Address, Account>, tx: ResolvedTx) -> Result<
    (),
    AdmissionError,
> {
    let sender = state[tx.sender_addr];
    if !tx.signature_ok {
        Err(AdmissionError::BadSignature)
    } else if tx.signed.tx.sender == tx.signed.tx.to {
        Err(AdmissionError::SelfTransfer)
    } else if sender.balance@ < tx.signed.tx.value@ {
        Err(AdmissionError::InsufficientBalance)
    } else if sender.nonce@ >= tx.signed.tx.nonce@ {
        Err(AdmissionError::NonceTooLow)
    } else {
        Ok(())
    }
}

/// Checks a transaction against a snapshot. Nothing is changed.
pub fn validate_tx(state: &State, tx: &ResolvedTx) -> (r: Result<(), AdmissionError>)
    ensures
        r == admission(state@, *tx),
        !tx.signature_ok ==> r == Err::<(), AdmissionError>(AdmissionError::BadSignature),
        tx.signature_ok && tx.signed.tx.sender == tx.signed.tx.to ==> r == Err::<
            (),
            AdmissionError,
        >(AdmissionError::SelfTransfer),
        tx.signature_ok && tx.signed.tx.sender != tx.signed.tx.to && state@[tx.sender_addr].balance@
            < tx.signed.tx.value@ ==> r == Err::<(), AdmissionError>(
            AdmissionError::InsufficientBalance,
        ),
        tx.signature_ok && tx.signed.tx.sender != tx.signed.tx.to && state@[tx.sender_addr].balance@
            >= tx.signed.tx.value@ && state@[tx.sender_addr].nonce@ >= tx.signed.tx.nonce@ ==> r
            == Err::<(), AdmissionError>(AdmissionError::NonceTooLow),
        r is Ok <==> tx.signature_ok && tx.signed.tx.sender != tx.signed.tx.to
            && state@[tx.sender_addr].balance@ >= tx.signed.tx.value@
            && state@[tx.sender_addr].nonce@ < tx.signed.tx.nonce@,
{
    if !tx.signature_ok {
        return Err(AdmissionError::BadSignature);
    }
    let account = state.get(&tx.sender_addr);
    if tx.signed.tx.sender == tx.signed.tx.to {
        Err(AdmissionError::SelfTransfer)
    } else if account.balance.lt(&tx.signed.tx.value) {
        Err(AdmissionError::InsufficientBalance)
    } else if !account.nonce.lt(&tx.signed.tx.nonce) {
        Err(AdmissionError::NonceTooLow)
    } else {
        Ok(())
    }
}

} // verus!
