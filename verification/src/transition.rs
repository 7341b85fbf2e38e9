//! The state transition function, and the chain of snapshots that a batch
//! of transactions produces.

use crate::account::{Account, Address};
use crate::admission::admission;
use crate::state::State;
use crate::tx::ResolvedTx;
use crate::uint::{lemma_u256_of_self, pow2_256, u256_of};
use vstd::prelude::*;

verus! {

/// Whether a transaction can be applied to a snapshot without a balance
/// leaving the 256-bit range: the sender holds at least the value, and the
/// recipient's balance has room for it.
pub open spec fn can_apply(state: Map<Address, Account>, tx: ResolvedTx) -> bool {
    &&& tx.signed.tx.value@ <= state[tx.sender_addr].balance@
    &&& state[tx.to_addr].balance@ + tx.signed.tx.value@ < pow2_256()
}

/// The sender's account after the transaction: debited, with the
/// transaction's nonce.
pub open spec fn debited(state: Map<Address, Account>, tx: ResolvedTx) -> Account {
    Account {
        address: tx.sender_addr,
        balance: u256_of((state[tx.sender_addr].balance@ - tx.signed.tx.value@) as nat),
        nonce: tx.signed.tx.nonce,
    }
}

/// The recipient's account after the transaction: credited, with the nonce
/// it had in the snapshot before.
pub open spec fn credited(state: Map<Address, Account>, tx: ResolvedTx) -> Account {
    Account {
        address: tx.to_addr,
        balance: u256_of(state[tx.to_addr].balance@ + tx.signed.tx.value@),
        nonce: state[tx.to_addr].nonce,
    }
}

/// The mapping after the transaction. Both accounts are read from the
/// snapshot before; the sender is written first, the recipient second.
pub open spec fn applied(state: Map<Address, Account>, tx: ResolvedTx) -> Map<Address, Account> {
    state.insert(tx.sender_addr, debited(state, tx)).insert(tx.to_addr, credited(state, tx))
}

/// The mapping after the first `k` transactions of a batch.
pub open spec fn state_after(start: Map<Address, Account>, txs: Seq<ResolvedTx>, k: nat) -> Map<
    Address,
    Account,
>
    decreases k,
{
    if k == 0 {
        start
    } else {
        applied(state_after(start, txs, (k - 1) as nat), txs[k - 1])
    }
}

/// Whether the first `k` transactions of a batch can be applied one after
/// the other.
pub open spec fn applicable_upto(
    start: Map<Address, Account>,
    txs: Seq<ResolvedTx>,
    k: nat,
) -> bool {
    forall|i: nat| i < k ==> can_apply(#[trigger] state_after(start, txs, i), txs[i as int])
}

/// A transaction changes no account but the sender's and the recipient's.
pub proof fn lemma_applied_touches_only_parties(
    state: Map<Address, Account>,
    tx: ResolvedTx,
    addr: Address,
)
    requires
        addr != tx.sender_addr,
        addr != tx.to_addr,
        state.dom().contains(addr),
    ensures
        applied(state, tx)[addr] == state[addr],
{
}

/// A transaction that passes admission against a snapshot can be debited
/// from its sender in that snapshot.
pub proof fn lemma_admitted_can_debit(state: Map<Address, Account>, tx: ResolvedTx)
    requires
        admission(state, tx) is Ok,
    ensures
        tx.signed.tx.value@ <= state[tx.sender_addr].balance@,
{
}

/// Nonces rise strictly: applying a transaction that passes admission
/// leaves its sender with a nonce above the one it had, so the same
/// transaction does not pass admission a second time. Sender and recipient
/// must have different addresses.
pub proof fn lemma_admitted_nonce_rises(state: Map<Address, Account>, tx: ResolvedTx)
    requires
        admission(state, tx) is Ok,
        tx.sender_addr != tx.to_addr,
    ensures
        applied(state, tx)[tx.sender_addr].nonce@ > state[tx.sender_addr].nonce@,
        admission(applied(state, tx), tx) is Err,
{
}

/// Why a transaction could not be applied to a snapshot.
#[derive(Clone, Copy, Debug, PartialEq, Eq, Structural)]
pub enum ApplyError {
    /// The sender holds less than the transaction moves.
    Underflow,
    /// The recipient's balance would leave the 256-bit range.
    Overflow,
}

/// The transaction of a batch at which the chain could not go on.
#[derive(Clone, Copy, Debug, PartialEq, Eq, Structural)]
pub struct ChainError {
    pub index: usize,
    pub cause: ApplyError,
}

/// Applies a transaction that passed admission: debits the sender and sets
/// its nonce, credits the recipient. The snapshot passed in is left as it
/// was.
///
/// Nothing is validated here. The total of all balances stays the same
/// where the two keys of the transaction have different addresses. Where
/// they share one address the credit is written over the debit, and the
/// total grows by the value of the transaction.
pub fn apply_tx(state: &State, tx: &ResolvedTx) -> (r: State)
    requires
        can_apply(state@, *tx),
    ensures
        r@ == applied(state@, *tx),
        forall|addr: Address|
            addr != tx.sender_addr && addr != tx.to_addr ==> #[trigger] r@[addr] == state@[addr],
        tx.sender_addr != tx.to_addr ==> r.total_balance() == state.total_balance(),
        tx.sender_addr != tx.to_addr ==> r@[tx.sender_addr].balance@ + tx.signed.tx.value@
            == state@[tx.sender_addr].balance@ && r@[tx.sender_addr].nonce == tx.signed.tx.nonce,
        tx.sender_addr != tx.to_addr ==> r@[tx.to_addr].balance@ == state@[tx.to_addr].balance@
            + tx.signed.tx.value@ && r@[tx.to_addr].nonce == state@[tx.to_addr].nonce,
        tx.sender_addr == tx.to_addr ==> r.total_balance() == state.total_balance()
            + tx.signed.tx.value@,
{
    let sender = state.get(&tx.sender_addr);
    let recipient = state.get(&tx.to_addr);
    let value = tx.signed.tx.value;
    let lowered = sender.balance.checked_sub(&value).unwrap();
    let raised = recipient.balance.checked_add(&value).unwrap();
    let new_sender = Account::new(tx.sender_addr, lowered, tx.signed.tx.nonce);
    let new_recipient = Account::new(tx.to_addr, raised, recipient.nonce);
    proof {
        lemma_u256_of_self(lowered);
        lemma_u256_of_self(raised);
        assert(new_sender == debited(state@, *tx));
        assert(new_recipient == credited(state@, *tx));
    }
    let mid = state.update(&tx.sender_addr, new_sender);
    let next = mid.update(&tx.to_addr, new_recipient);
    proof {
        state.lemma_view_total();
        mid.lemma_view_total();
        next.lemma_view_total();
    }
    next
}

/// Applies a transaction where that is possible, and says why where it is
/// not. The snapshot passed in is left as it was.
pub fn checked_apply_tx(state: &State, tx: &ResolvedTx) -> (r: Result<State, ApplyError>)
    ensures
        r is Ok <==> can_apply(state@, *tx),
        r matches Ok(next) ==> {
            &&& next@ == applied(state@, *tx)
            &&& forall|addr: Address|
                addr != tx.sender_addr && addr != tx.to_addr ==> #[trigger] next@[addr]
                    == state@[addr]
            &&& tx.sender_addr != tx.to_addr ==> next.total_balance() == state.total_balance()
            &&& tx.sender_addr != tx.to_addr ==> next@[tx.sender_addr].balance@
                + tx.signed.tx.value@ == state@[tx.sender_addr].balance@
                && next@[tx.sender_addr].nonce == tx.signed.tx.nonce
            &&& tx.sender_addr != tx.to_addr ==> next@[tx.to_addr].balance@
                == state@[tx.to_addr].balance@ + tx.signed.tx.value@ && next@[tx.to_addr].nonce
                == state@[tx.to_addr].nonce
        },
        r matches Err(e) ==> (e == ApplyError::Underflow <==> state@[tx.sender_addr].balance@
            < tx.signed.tx.value@),
{
    let sender = state.get(&tx.sender_addr);
    if sender.balance.lt(&tx.signed.tx.value) {
        return Err(ApplyError::Underflow);
    }
    let recipient = state.get(&tx.to_addr);
    if recipient.balance.checked_add(&tx.signed.tx.value).is_none() {
        return Err(ApplyError::Overflow);
    }
    Ok(apply_tx(state, tx))
}

/// Folds the transition function over a batch, starting from `start`.
///
/// The result is the chain of snapshots: `start` first, then the snapshot
/// after each transaction. Where some transaction cannot be applied to the
/// snapshot before it, the result is the first such transaction and the
/// reason.
pub fn build_chain(start: &State, txs: &Vec<ResolvedTx>) -> (r: Result<Vec<State>, ChainError>)
    ensures
        r is Ok <==> applicable_upto(start@, txs@, txs@.len()),
        r matches Ok(chain) ==> {
            &&& chain@.len() == txs@.len() + 1
            &&& chain@[0] == *start
            &&& forall|k: int|
                0 <= k <= txs@.len() ==> (#[trigger] chain@[k])@ == state_after(
                    start@,
                    txs@,
                    k as nat,
                )
            &&& forall|k: int, addr: Address|
                0 <= k < txs@.len() && addr != txs@[k].sender_addr && addr != txs@[k].to_addr
                    ==> #[trigger] chain@[k + 1]@[addr] == chain@[k]@[addr]
            &&& forall|k: int|
                0 <= k <= txs@.len() && (forall|i: int|
                    0 <= i < k ==> (#[trigger] txs@[i]).sender_addr != txs@[i].to_addr)
                    ==> (#[trigger] chain@[k]).total_balance() == start.total_balance()
        },
        r matches Err(e) ==> {
            &&& e.index < txs@.len()
            &&& applicable_upto(start@, txs@, e.index as nat)
            &&& !can_apply(state_after(start@, txs@, e.index as nat), txs@[e.index as int])
            &&& e.cause == ApplyError::Underflow <==> state_after(
                start@,
                txs@,
                e.index as nat,
            )[txs@[e.index as int].sender_addr].balance@ < txs@[e.index as int].signed.tx.value@
        },
{
    let mut chain: Vec<State> = Vec::new();
    chain.push(start.duplicate());
    let mut i: usize = 0;
    while i < txs.len()
        invariant
            0 <= i <= txs@.len(),
            chain@.len() == i + 1,
            chain@[0] == *start,
            applicable_upto(start@, txs@, i as nat),
            forall|k: int|
                0 <= k <= i ==> (#[trigger] chain@[k])@ == state_after(start@, txs@, k as nat),
            forall|k: int, addr: Address|
                0 <= k < i && addr != txs@[k].sender_addr && addr != txs@[k].to_addr
                    ==> #[trigger] chain@[k + 1]@[addr] == chain@[k]@[addr],
            forall|k: int|
                0 <= k <= i && (forall|j: int|
                    0 <= j < k ==> (#[trigger] txs@[j]).sender_addr != txs@[j].to_addr)
                    ==> (#[trigger] chain@[k]).total_balance() == start.total_balance(),
        decreases txs@.len() - i,
    {
        let ghost before = chain@;
        match checked_apply_tx(&chain[i], &txs[i]) {
            Ok(next) => {
                chain.push(next);
            },
            Err(cause) => {
                proof {
                    assert(!can_apply(state_after(start@, txs@, i as nat), txs@[i as int]));
                }
                return Err(ChainError { index: i, cause });
            },
        }
        proof {
            assert(forall|k: int| 0 <= k <= i ==> chain@[k] == before[k]);
            assert(chain@[i as int + 1]@ == state_after(start@, txs@, (i + 1) as nat));
            assert forall|k: int|
                0 <= k <= i + 1 && (forall|j: int|
                    0 <= j < k ==> (#[trigger] txs@[j]).sender_addr != txs@[j].to_addr) implies (
            #[trigger] chain@[k]).total_balance() == start.total_balance() by {
                if k == i + 1 {
                    assert(txs@[i as int].sender_addr != txs@[i as int].to_addr);
                    assert(chain@[i as int].total_balance() == start.total_balance());
                }
            }
        }
        i += 1;
    }
    Ok(chain)
}

} // verus!
