use trollup_sequencer::account::{Account, Address};
use trollup_sequencer::admission::{validate_tx, AdmissionError};
use trollup_sequencer::state::State;
use trollup_sequencer::transition::{
    apply_tx, build_chain, checked_apply_tx, ApplyError, ChainError,
};
use trollup_sequencer::tx::{PublicKey, ResolvedTx, SignedTx, Tx, TxKind};
use trollup_sequencer::uint::U256;

fn addr(n: u64) -> Address {
    Address { hi: 0, lo: n as u128 }
}

fn transfer(sender: u64, to: u64, nonce: u64, value: u64) -> ResolvedTx {
    ResolvedTx {
        signed: SignedTx {
            tx: Tx {
                kind: TxKind::Transfer,
                sender: PublicKey(U256::from_u64(sender)),
                to: PublicKey(U256::from_u64(to)),
                nonce: U256::from_u64(nonce),
                value: U256::from_u64(value),
            },
            signature: String::from("sig"),
        },
        sender_addr: addr(sender),
        to_addr: addr(to),
        signature_ok: true,
    }
}

fn account(n: u64, balance: u64, nonce: u64) -> Account {
    Account::new(addr(n), U256::from_u64(balance), U256::from_u64(nonce))
}

fn funded(owner: u64, balance: u64, nonce: u64) -> State {
    State::new().update(&addr(owner), account(owner, balance, nonce))
}

#[test]
fn apply_debits_sender_and_credits_recipient() {
    let state = funded(1, 100, 0);
    let next = apply_tx(&state, &transfer(1, 2, 1, 40));
    assert_eq!(next.get(&addr(1)), account(1, 60, 1));
    assert_eq!(next.get(&addr(2)), account(2, 40, 0));
}

#[test]
fn apply_keeps_the_recipients_nonce() {
    let state = funded(1, 100, 0).update(&addr(2), account(2, 5, 9));
    let next = apply_tx(&state, &transfer(1, 2, 3, 10));
    assert_eq!(next.get(&addr(2)), account(2, 15, 9));
    assert_eq!(next.get(&addr(1)), account(1, 90, 3));
}

#[test]
fn apply_leaves_the_input_snapshot_intact() {
    let state = funded(1, 100, 0);
    let _next = apply_tx(&state, &transfer(1, 2, 1, 40));
    assert_eq!(state.get(&addr(1)), account(1, 100, 0));
    assert_eq!(state.get(&addr(2)), Account::empty(addr(2)));
}

#[test]
fn apply_conserves_the_total_value() {
    let state = funded(1, 100, 0).update(&addr(2), account(2, 7, 0)).update(&addr(3), account(3, 11, 0));
    let next = apply_tx(&state, &transfer(1, 2, 1, 40));
    let before: u64 = 100 + 7 + 11;
    let after = next
        .get(&addr(1))
        .balance
        .checked_add(&next.get(&addr(2)).balance)
        .unwrap()
        .checked_add(&next.get(&addr(3)).balance)
        .unwrap();
    assert_eq!(after, U256::from_u64(before));
}

#[test]
fn apply_moves_value_across_limbs() {
    let big = U256 { l0: 0, l1: 1, l2: 0, l3: 0 };
    let state = State::new()
        .update(&addr(1), Account::new(addr(1), big, U256::zero()))
        .update(&addr(2), Account::new(addr(2), U256 { l0: u64::MAX, l1: 0, l2: 0, l3: 0 }, U256::zero()));
    let next = apply_tx(&state, &transfer(1, 2, 1, 1));
    assert_eq!(next.get(&addr(1)).balance, U256 { l0: u64::MAX, l1: 0, l2: 0, l3: 0 });
    assert_eq!(next.get(&addr(2)).balance, U256 { l0: 0, l1: 1, l2: 0, l3: 0 });
}

#[test]
fn apply_treats_all_kinds_as_a_transfer() {
    let state = funded(1, 100, 0);
    let mut deposit = transfer(1, 2, 1, 40);
    deposit.signed.tx.kind = TxKind::Deposit;
    let mut withdraw = transfer(1, 2, 1, 40);
    withdraw.signed.tx.kind = TxKind::Withdraw;
    let a = apply_tx(&state, &deposit);
    let b = apply_tx(&state, &withdraw);
    assert_eq!(a.get(&addr(1)), account(1, 60, 1));
    assert_eq!(a.get(&addr(2)), account(2, 40, 0));
    assert_eq!(b.get(&addr(1)), account(1, 60, 1));
    assert_eq!(b.get(&addr(2)), account(2, 40, 0));
}

#[test]
fn checked_apply_reports_underflow() {
    let state = funded(1, 100, 0);
    assert_eq!(checked_apply_tx(&state, &transfer(1, 2, 1, 101)).err(), Some(ApplyError::Underflow));
}

#[test]
fn checked_apply_reports_overflow() {
    let max = U256 { l0: u64::MAX, l1: u64::MAX, l2: u64::MAX, l3: u64::MAX };
    let state = funded(1, 100, 0).update(&addr(2), Account::new(addr(2), max, U256::zero()));
    assert_eq!(checked_apply_tx(&state, &transfer(1, 2, 1, 1)).err(), Some(ApplyError::Overflow));
    assert!(checked_apply_tx(&state, &transfer(1, 2, 1, 0)).is_ok());
}

#[test]
fn checked_apply_applies_where_possible() {
    let state = funded(1, 100, 0);
    let next = checked_apply_tx(&state, &transfer(1, 2, 1, 100)).unwrap();
    assert_eq!(next.get(&addr(1)), account(1, 0, 1));
    assert_eq!(next.get(&addr(2)), account(2, 100, 0));
}

#[test]
fn chain_of_empty_batch_is_the_start_alone() {
    let state = funded(1, 100, 0);
    let chain = build_chain(&state, &Vec::new()).unwrap();
    assert_eq!(chain.len(), 1);
    assert_eq!(chain[0].get(&addr(1)), account(1, 100, 0));
}

#[test]
fn chain_has_one_more_snapshot_than_transactions() {
    let state = funded(1, 100, 0);
    let txs = vec![transfer(1, 2, 1, 40), transfer(2, 3, 1, 15), transfer(1, 3, 2, 5)];
    let chain = build_chain(&state, &txs).unwrap();
    assert_eq!(chain.len(), 4);
    assert_eq!(chain[0].get(&addr(1)), account(1, 100, 0));
    assert_eq!(chain[1].get(&addr(1)), account(1, 60, 1));
    assert_eq!(chain[1].get(&addr(2)), account(2, 40, 0));
    assert_eq!(chain[2].get(&addr(2)), account(2, 25, 1));
    assert_eq!(chain[2].get(&addr(3)), account(3, 15, 0));
    assert_eq!(chain[3].get(&addr(1)), account(1, 55, 2));
    assert_eq!(chain[3].get(&addr(3)), account(3, 20, 0));
}

#[test]
fn chain_step_changes_only_sender_and_recipient() {
    let state = funded(1, 100, 0).update(&addr(4), account(4, 9, 2));
    let txs = vec![transfer(1, 2, 1, 40), transfer(2, 3, 1, 15)];
    let chain = build_chain(&state, &txs).unwrap();
    for i in 0..txs.len() {
        for who in [1u64, 2, 3, 4, 5] {
            if addr(who) != txs[i].sender_addr && addr(who) != txs[i].to_addr {
                assert_eq!(chain[i + 1].get(&addr(who)), chain[i].get(&addr(who)));
            }
        }
    }
    assert_eq!(chain[2].get(&addr(4)), account(4, 9, 2));
}

#[test]
fn chain_stops_at_the_first_transaction_that_cannot_be_applied() {
    let state = funded(1, 100, 0);
    let txs = vec![transfer(1, 2, 1, 60), transfer(1, 3, 2, 60), transfer(2, 3, 1, 1)];
    assert_eq!(validate_tx(&state, &txs[0]), Ok(()));
    assert_eq!(validate_tx(&state, &txs[1]), Ok(()));
    assert_eq!(
        build_chain(&state, &txs).err(),
        Some(ChainError { index: 1, cause: ApplyError::Underflow })
    );
}

#[test]
fn end_to_end_scenario() {
    let a = 1;
    let b = 2;
    let state = funded(a, 100, 0);
    let first = transfer(a, b, 1, 40);
    assert_eq!(validate_tx(&state, &first), Ok(()));
    let state = apply_tx(&state, &first);
    assert_eq!(state.get(&addr(a)).balance, U256::from_u64(60));
    assert_eq!(state.get(&addr(a)).nonce, U256::from_u64(1));
    assert_eq!(state.get(&addr(b)).balance, U256::from_u64(40));
    assert_eq!(validate_tx(&state, &transfer(a, b, 1, 40)), Err(AdmissionError::NonceTooLow));
    assert_eq!(validate_tx(&state, &transfer(a, a, 2, 1)), Err(AdmissionError::SelfTransfer));
    assert_eq!(
        validate_tx(&state, &transfer(a, b, 2, 1000)),
        Err(AdmissionError::InsufficientBalance)
    );
}

#[test]
fn apply_with_one_address_for_both_keys_writes_the_credit_over_the_debit() {
    let state = funded(1, 100, 4);
    let mut tx = transfer(1, 2, 5, 30);
    tx.to_addr = addr(1);
    let next = apply_tx(&state, &tx);
    assert_eq!(next.get(&addr(1)), account(1, 130, 4));
    assert_eq!(next.get(&addr(2)), Account::empty(addr(2)));
}
