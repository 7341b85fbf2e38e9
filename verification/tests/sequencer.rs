use trollup_sequencer::account::{Account, Address};
use trollup_sequencer::sequencer::{Action, Event, Phase, Sequencer};
use trollup_sequencer::state::State;
use trollup_sequencer::transition::{ApplyError, ChainError};
use trollup_sequencer::tx::{PublicKey, ResolvedTx, SignedTx, Tx, TxKind};
use trollup_sequencer::uint::U256;

type Node = Sequencer<String, String>;

fn addr(n: u64) -> Address {
    Address { hi: 0, lo: n as u128 }
}

fn transfer(sender: u64, to: u64, nonce: u64, value: u64) -> ResolvedTx {
    ResolvedTx {
        signed: SignedTx {
            tx: Tx {
                kind: TxKind::Transfer,
                sender: PublicKey(U256::from_u64(sender)),
                to: PublicKey(U256::from_u64(to)),
                nonce: U256::from_u64(nonce),
                value: U256::from_u64(value),
            },
            signature: format!("sig-{nonce}"),
        },
        sender_addr: addr(sender),
        to_addr: addr(to),
        signature_ok: true,
    }
}

fn account(n: u64, balance: u64, nonce: u64) -> Account {
    Account::new(addr(n), U256::from_u64(balance), U256::from_u64(nonce))
}

fn funded(owner: u64, balance: u64, nonce: u64) -> State {
    State::new().update(&addr(owner), account(owner, balance, nonce))
}

fn proved(text: &str) -> Result<String, String> {
    Ok(String::from(text))
}

fn failure(text: &str) -> Result<String, String> {
    Err(String::from(text))
}

#[test]
fn new_sequencer_waits_for_a_transaction() {
    let node = Node::new(funded(1, 100, 0), 1);
    assert_eq!(node.current_phase(), Phase::AwaitingTx);
    assert_eq!(node.pending_len(), 0);
    assert_eq!(node.state().get(&addr(1)), account(1, 100, 0));
}

#[test]
fn below_the_threshold_no_batch_is_cut() {
    let mut node = Node::new(funded(1, 100, 0), 3);
    assert!(matches!(node.on_tx(transfer(1, 2, 1, 10)), Action::AwaitTx));
    assert!(matches!(node.on_tx(transfer(1, 2, 2, 10)), Action::AwaitTx));
    assert_eq!(node.current_phase(), Phase::AwaitingTx);
    assert_eq!(node.pending_len(), 2);
    assert_eq!(node.state().get(&addr(1)), account(1, 100, 0));
}

#[test]
fn at_the_threshold_the_batch_is_cut_and_proofs_requested() {
    let mut node = Node::new(funded(1, 100, 0), 2);
    assert!(matches!(node.on_tx(transfer(1, 2, 1, 40)), Action::AwaitTx));
    let action = node.on_tx(transfer(1, 3, 2, 10));
    let requests = match action {
        Action::Prove(requests) => requests,
        other => panic!("unexpected action {other:?}"),
    };
    assert_eq!(node.current_phase(), Phase::Proving);
    assert_eq!(node.pending_len(), 0);
    assert_eq!(requests.len(), 2);
    assert_eq!(requests[0].index, 0);
    assert_eq!(requests[0].tx.signature, "sig-1");
    assert_eq!(requests[0].pre.get(&addr(1)), account(1, 100, 0));
    assert_eq!(requests[0].post.get(&addr(1)), account(1, 60, 1));
    assert_eq!(requests[1].index, 1);
    assert_eq!(requests[1].tx.signature, "sig-2");
    assert_eq!(requests[1].pre.get(&addr(1)), account(1, 60, 1));
    assert_eq!(requests[1].post.get(&addr(1)), account(1, 50, 2));
    assert_eq!(requests[1].post.get(&addr(3)), account(3, 10, 0));
    assert_eq!(node.state().get(&addr(1)), account(1, 50, 2));
    assert_eq!(node.state().get(&addr(2)), account(2, 40, 0));
    assert_eq!(node.state().get(&addr(3)), account(3, 10, 0));
}

#[test]
fn rejected_transactions_are_dropped_from_the_batch() {
    let mut node = Node::new(funded(1, 100, 0), 3);
    node.on_tx(transfer(1, 1, 1, 10));
    node.on_tx(transfer(1, 2, 1, 1000));
    let action = node.on_tx(transfer(1, 2, 1, 40));
    let requests = match action {
        Action::Prove(requests) => requests,
        other => panic!("unexpected action {other:?}"),
    };
    assert_eq!(requests.len(), 1);
    assert_eq!(requests[0].tx.tx.value, U256::from_u64(40));
    assert_eq!(node.pending_len(), 0);
}

#[test]
fn a_batch_with_no_admitted_transaction_goes_back_to_waiting() {
    let mut node = Node::new(funded(1, 100, 0), 1);
    assert!(matches!(node.on_tx(transfer(1, 1, 1, 10)), Action::AwaitTx));
    assert_eq!(node.current_phase(), Phase::AwaitingTx);
    assert_eq!(node.pending_len(), 0);
    assert_eq!(node.state().get(&addr(1)), account(1, 100, 0));
}

#[test]
fn proofs_are_submitted_in_batch_order_whatever_resolves_first() {
    let mut node = Node::new(funded(1, 100, 0), 2);
    node.on_tx(transfer(1, 2, 1, 40));
    node.on_tx(transfer(1, 3, 2, 10));
    assert!(matches!(node.on_proof(1, proved("second")), Action::AwaitProofs));
    assert_eq!(node.current_phase(), Phase::Proving);
    match node.on_proof(0, proved("first")) {
        Action::Submit { index, proof } => {
            assert_eq!(index, 0);
            assert_eq!(proof, "first");
        }
        other => panic!("unexpected action {other:?}"),
    }
    assert_eq!(node.current_phase(), Phase::Submitting);
    match node.on_step_done() {
        Action::Submit { index, proof } => {
            assert_eq!(index, 1);
            assert_eq!(proof, "second");
        }
        other => panic!("unexpected action {other:?}"),
    }
    assert!(matches!(node.on_step_done(), Action::AwaitTx));
    assert_eq!(node.current_phase(), Phase::AwaitingTx);
}

#[test]
fn a_failed_proof_is_skipped_and_the_others_are_submitted() {
    let mut node = Node::new(funded(1, 100, 0), 3);
    node.on_tx(transfer(1, 2, 1, 10));
    node.on_tx(transfer(1, 2, 2, 10));
    node.on_tx(transfer(1, 2, 3, 10));
    node.on_proof(2, proved("c"));
    node.on_proof(1, failure("prover crashed"));
    let mut action = node.on_proof(0, proved("a"));
    let mut seen = Vec::new();
    loop {
        match action {
            Action::Submit { index, proof } => seen.push(format!("submit {index} {proof}")),
            Action::Skip { index, error } => seen.push(format!("skip {index} {error}")),
            Action::AwaitTx => break,
            other => panic!("unexpected action {other:?}"),
        }
        action = node.on_step_done();
    }
    assert_eq!(seen, vec!["submit 0 a", "skip 1 prover crashed", "submit 2 c"]);
    assert_eq!(node.current_phase(), Phase::AwaitingTx);
}

#[test]
fn state_stays_advanced_when_a_proof_fails() {
    let mut node = Node::new(funded(1, 100, 0), 1);
    node.on_tx(transfer(1, 2, 1, 40));
    assert!(matches!(node.on_proof(0, failure("no")), Action::Skip { index: 0, .. }));
    assert!(matches!(node.on_step_done(), Action::AwaitTx));
    assert_eq!(node.state().get(&addr(1)), account(1, 60, 1));
    assert_eq!(node.state().get(&addr(2)), account(2, 40, 0));
}

#[test]
fn a_second_outcome_for_one_position_is_out_of_turn() {
    let mut node = Node::new(funded(1, 100, 0), 2);
    node.on_tx(transfer(1, 2, 1, 10));
    node.on_tx(transfer(1, 2, 2, 10));
    assert!(matches!(node.on_proof(0, proved("a")), Action::AwaitProofs));
    assert!(matches!(node.on_proof(0, proved("again")), Action::OutOfTurn));
    assert!(matches!(node.on_proof(2, proved("nowhere")), Action::OutOfTurn));
    assert_eq!(node.current_phase(), Phase::Proving);
    assert!(matches!(node.on_proof(1, proved("b")), Action::Submit { index: 0, .. }));
}

#[test]
fn the_next_batch_starts_from_the_advanced_state() {
    let mut node = Node::new(funded(1, 100, 0), 1);
    node.on_tx(transfer(1, 2, 1, 40));
    node.on_proof(0, proved("p"));
    node.on_step_done();
    assert!(matches!(node.on_tx(transfer(1, 2, 1, 40)), Action::AwaitTx));
    let action = node.on_tx(transfer(2, 3, 1, 25));
    let requests = match action {
        Action::Prove(requests) => requests,
        other => panic!("unexpected action {other:?}"),
    };
    assert_eq!(requests.len(), 1);
    assert_eq!(requests[0].pre.get(&addr(2)), account(2, 40, 0));
    assert_eq!(requests[0].post.get(&addr(2)), account(2, 15, 1));
    assert_eq!(requests[0].post.get(&addr(3)), account(3, 25, 0));
}

#[test]
fn a_batch_that_cannot_be_applied_halts_the_loop() {
    let mut node = Node::new(funded(1, 100, 0), 2);
    node.on_tx(transfer(1, 2, 1, 60));
    let action = node.on_tx(transfer(1, 3, 2, 60));
    match action {
        Action::Halt(e) => assert_eq!(e, ChainError { index: 1, cause: ApplyError::Underflow }),
        other => panic!("unexpected action {other:?}"),
    }
    assert_eq!(node.current_phase(), Phase::Halted);
    assert_eq!(node.state().get(&addr(1)), account(1, 100, 0));
    assert_eq!(node.pending_len(), 0);
    assert!(matches!(node.step(Event::TxArrived(transfer(1, 2, 1, 1))), Action::OutOfTurn));
}

#[test]
fn closing_the_intake_ends_the_loop() {
    let mut node = Node::new(funded(1, 100, 0), 5);
    node.on_tx(transfer(1, 2, 1, 10));
    assert!(matches!(node.on_closed(), Action::Exit));
    assert_eq!(node.current_phase(), Phase::Closed);
    assert!(matches!(node.step(Event::TxArrived(transfer(1, 2, 2, 1))), Action::OutOfTurn));
    assert!(matches!(node.step(Event::IntakeClosed), Action::OutOfTurn));
    assert_eq!(node.pending_len(), 1);
}

#[test]
fn step_runs_a_whole_round() {
    let mut node = Node::new(funded(1, 100, 0), 1);
    let action = node.step(Event::TxArrived(transfer(1, 2, 1, 40)));
    assert!(matches!(action, Action::Prove(ref requests) if requests.len() == 1));
    let action = node.step(Event::ProofResolved { index: 0, outcome: proved("p") });
    assert!(matches!(action, Action::Submit { index: 0, ref proof } if proof == "p"));
    assert!(matches!(node.step(Event::StepDone), Action::AwaitTx));
    assert!(matches!(node.step(Event::IntakeClosed), Action::Exit));
    assert_eq!(node.state().get(&addr(2)), account(2, 40, 0));
}

#[test]
fn step_refuses_events_that_do_not_fit_the_phase() {
    let mut node = Node::new(funded(1, 100, 0), 1);
    assert!(matches!(node.step(Event::StepDone), Action::OutOfTurn));
    assert!(matches!(
        node.step(Event::ProofResolved { index: 0, outcome: proved("p") }),
        Action::OutOfTurn
    ));
    assert_eq!(node.current_phase(), Phase::AwaitingTx);
    node.step(Event::TxArrived(transfer(1, 2, 1, 40)));
    assert!(matches!(node.step(Event::TxArrived(transfer(1, 2, 2, 1))), Action::OutOfTurn));
    assert!(matches!(node.step(Event::IntakeClosed), Action::OutOfTurn));
    assert!(matches!(node.step(Event::StepDone), Action::OutOfTurn));
    assert_eq!(node.current_phase(), Phase::Proving);
    assert_eq!(node.pending_len(), 0);
}
