//! The sequencer loop as a state machine.
//!
//! The sequencer holds the authoritative snapshot and the mempool. It is
//! told what happened (a transaction arrived, a proof request resolved, a
//! settlement step was carried out, the intake closed) and answers with what
//! is to be done next. Waiting, proving and submitting are done by whoever
//! drives it.

use crate::account::{Account, Address};
use crate::dispatch::{complete, proof_requests, resolved, Collector, ProofRequest};
use crate::mempool::{admitted, Mempool};
use crate::settlement::{plan, submission_plan, SettlementQueue, Submission};
use crate::state::State;
use crate::transition::{applicable_upto, build_chain, can_apply, state_after, ChainError};
use crate::tx::ResolvedTx;
use vstd::prelude::*;

verus! {

/// Where the loop stands.
#[derive(Clone, Copy, Debug, PartialEq, Eq, Structural)]
pub enum Phase {
    /// Waiting for the next transaction.
    AwaitingTx,
    /// Proof requests of a batch are out; not all have resolved.
    Proving,
    /// The outcomes of a batch are being settled, one at a time.
    Submitting,
    /// A batch could not be applied; nothing more is done.
    Halted,
    /// The intake closed; the loop has ended.
    Closed,
}

/// What happened.
#[derive(Debug)]
pub enum Event<P, E> {
    /// A transaction came in.
    TxArrived(ResolvedTx),
    /// The proof request for the transaction at `index` resolved.
    ProofResolved { index: usize, outcome: Result<P, E> },
    /// The settlement step handed out last was carried out, whatever its
    /// result.
    StepDone,
    /// The intake closed for good.
    IntakeClosed,
}

/// What is to be done next.
#[derive(Debug)]
pub enum Action<P, E> {
    /// Wait for the next transaction.
    AwaitTx,
    /// Start all these proof requests; report each as it resolves.
    Prove(Vec<ProofRequest>),
    /// Go on waiting for the proof requests that are out.
    AwaitProofs,
    /// Submit this proof alone, wait for the answer, then report the step.
    Submit { index: usize, proof: P },
    /// Note this failed proof request, then report the step.
    Skip { index: usize, error: E },
    /// Stop: the batch could not be applied.
    Halt(ChainError),
    /// End the loop.
    Exit,
    /// The event does not belong to the current phase; nothing changed.
    OutOfTurn,
}

/// The action that carries out a settlement step.
pub open spec fn action_for<P, E>(step: Submission<P, E>) -> Action<P, E> {
    match step {
        Submission::Submit { index, proof } => Action::Submit { index, proof },
        Submission::Skip { index, error } => Action::Skip { index, error },
    }
}

/// What the loop holds for the batch in flight, by phase.
#[derive(Debug)]
enum Stage<P, E> {
    AwaitingTx,
    Proving(Collector<Result<P, E>>),
    Submitting(SettlementQueue<P, E>),
    Halted,
    Closed,
}

/// The sequencer: the authoritative snapshot, the mempool, and the outcomes
/// or settlement steps of the batch in flight.
#[derive(Debug)]
pub struct Sequencer<P, E> {
    state: State,
    mempool: Mempool,
    stage: Stage<P, E>,
}

impl<P, E> Sequencer<P, E> {
    /// The authoritative account mapping.
    pub closed spec fn snapshot(&self) -> Map<Address, Account> {
        self.state@
    }

    /// The sum of all balances in the authoritative snapshot.
    pub closed spec fn total_balance(&self) -> nat {
        self.state.total_balance()
    }

    /// The buffered transactions, oldest first.
    pub closed spec fn pending(&self) -> Seq<ResolvedTx> {
        self.mempool.pending()
    }

    /// The least number of buffered transactions at which a batch is cut.
    pub closed spec fn threshold(&self) -> usize {
        self.mempool.threshold()
    }

    /// Where the loop stands.
    pub closed spec fn phase(&self) -> Phase {
        match self.stage {
            Stage::AwaitingTx => Phase::AwaitingTx,
            Stage::Proving(_) => Phase::Proving,
            Stage::Submitting(_) => Phase::Submitting,
            Stage::Halted => Phase::Halted,
            Stage::Closed => Phase::Closed,
        }
    }

    /// The outcomes of the batch in flight, by position; empty outside
    /// `Proving`.
    pub closed spec fn outcomes(&self) -> Seq<Option<Result<P, E>>> {
        match self.stage {
            Stage::Proving(collector) => collector.slots(),
            _ => Seq::empty(),
        }
    }

    /// The settlement steps that follow the one handed out last; empty
    /// outside `Submitting`.
    pub closed spec fn remaining(&self) -> Seq<Submission<P, E>> {
        match self.stage {
            Stage::Submitting(queue) => queue.remaining(),
            _ => Seq::empty(),
        }
    }

    /// While proving, at least one outcome is outstanding. This holds of a
    /// new sequencer and every handler keeps it.
    pub open spec fn consistent(&self) -> bool {
        self.phase() == Phase::Proving ==> !complete(self.outcomes())
    }

    /// Whether two sequencers are in the same condition.
    pub open spec fn same(&self, other: &Sequencer<P, E>) -> bool {
        &&& self.snapshot() == other.snapshot()
        &&& self.total_balance() == other.total_balance()
        &&& self.pending() == other.pending()
        &&& self.threshold() == other.threshold()
        &&& self.phase() == other.phase()
        &&& self.outcomes() == other.outcomes()
        &&& self.remaining() == other.remaining()
    }

    /// A sequencer that starts from `genesis`, with an empty mempool, and
    /// waits for the first transaction.
    pub fn new(genesis: State, min_batch: usize) -> (r: Sequencer<P, E>)
        ensures
            r.consistent(),
            r.snapshot() == genesis@,
            r.total_balance() == genesis.total_balance(),
            r.pending() == Seq::<ResolvedTx>::empty(),
            r.threshold() == min_batch,
            r.phase() == Phase::AwaitingTx,
            r.outcomes().len() == 0,
            r.remaining().len() == 0,
    {
        Sequencer { state: genesis, mempool: Mempool::new(min_batch), stage: Stage::AwaitingTx }
    }

    /// Where the loop stands.
    pub fn current_phase(&self) -> (r: Phase)
        ensures
            r == self.phase(),
    {
        match &self.stage {
            Stage::AwaitingTx => Phase::AwaitingTx,
            Stage::Proving(_) => Phase::Proving,
            Stage::Submitting(_) => Phase::Submitting,
            Stage::Halted => Phase::Halted,
            Stage::Closed => Phase::Closed,
        }
    }

    /// The authoritative snapshot.
    pub fn state(&self) -> (r: &State)
        ensures
            r@ == self.snapshot(),
            r.total_balance() == self.total_balance(),
    {
        &self.state
    }

    /// The number of buffered transactions.
    pub fn pending_len(&self) -> (r: usize)
        ensures
            r == self.pending().len(),
    {
        self.mempool.len()
    }

    /// A transaction arrived.
    ///
    /// While the loop waits for one, the transaction is buffered. Below the
    /// threshold nothing else happens. From the threshold on, the buffer is
    /// emptied, the transactions that pass admission against the
    /// authoritative snapshot form the batch, the transition function is
    /// folded over the batch, the last snapshot of the chain becomes the
    /// authoritative one, and one proof request per transaction is handed
    /// out. An empty batch goes straight back to waiting. A batch that
    /// cannot be applied halts the loop and leaves the authoritative
    /// snapshot as it was. In any other phase the transaction is out of
    /// turn.
    pub fn on_tx(&mut self, tx: ResolvedTx) -> (r: Action<P, E>)
        ensures
            after_tx(old(self), tx, final(self), r),
            old(self).consistent() ==> final(self).consistent(),
    {
        match &self.stage {
            Stage::AwaitingTx => {},
            _ => {
                return Action::OutOfTurn;
            },
        }
        self.mempool.push(tx);
        if !self.mempool.is_ready() {
            return Action::AwaitTx;
        }
        let txs = self.mempool.drain_valid(&self.state);
        let mut chain = match build_chain(&self.state, &txs) {
            Ok(chain) => chain,
            Err(e) => {
                self.stage = Stage::Halted;
                return Action::Halt(e);
            },
        };
        let requests = proof_requests(&chain, &txs);
        let ghost full = chain@;
        let last = chain.pop().unwrap();
        proof {
            assert(last == full[txs@.len() as int]);
        }
        self.state = last;
        if txs.len() == 0 {
            return Action::AwaitTx;
        }
        let collector = Collector::new(txs.len());
        proof {
            assert(collector.slots()[0] is None);
        }
        self.stage = Stage::Proving(collector);
        Action::Prove(requests)
    }

    /// The intake closed. While the loop waits for a transaction, the loop
    /// ends; in any other phase the event is out of turn.
    pub fn on_closed(&mut self) -> (r: Action<P, E>)
        ensures
            after_closed(old(self), final(self), r),
            old(self).consistent() ==> final(self).consistent(),
    {
        match &self.stage {
            Stage::AwaitingTx => {},
            _ => {
                return Action::OutOfTurn;
            },
        }
        self.stage = Stage::Closed;
        Action::Exit
    }

    /// A proof request resolved.
    ///
    /// While proving, the outcome is filed under its position. While
    /// outcomes are outstanding the loop goes on waiting. With the last one,
    /// the outcomes become the settlement steps of the batch, in the order
    /// of the batch, and the first step is handed out. An outcome for a
    /// position that does not exist or already has one, or in any other
    /// phase, is out of turn.
    pub fn on_proof(&mut self, index: usize, outcome: Result<P, E>) -> (r: Action<P, E>)
        ensures
            after_proof(old(self), index, outcome, final(self), r),
            old(self).consistent() ==> final(self).consistent(),
    {
        let mut stage = Stage::AwaitingTx;
        core::mem::swap(&mut self.stage, &mut stage);
        match stage {
            Stage::Proving(mut collector) => {
                match collector.record(index, outcome) {
                    Ok(()) => {},
                    Err(_) => {
                        self.stage = Stage::Proving(collector);
                        return Action::OutOfTurn;
                    },
                }
                if !collector.is_complete() {
                    self.stage = Stage::Proving(collector);
                    return Action::AwaitProofs;
                }
                let mut queue = submission_plan(collector.take_results());
                let first = queue.next();
                self.stage = Stage::Submitting(queue);
                match first {
                    Some(Submission::Submit { index, proof }) => Action::Submit { index, proof },
                    Some(Submission::Skip { index, error }) => Action::Skip { index, error },
                    None => Action::OutOfTurn,
                }
            },
            other => {
                self.stage = other;
                Action::OutOfTurn
            },
        }
    }

    /// The settlement step handed out last was carried out: the proof was
    /// submitted and answered, or the failed request was noted. Whatever the
    /// answer was, the next step is handed out; after the last one the loop
    /// waits for the next transaction. Outside `Submitting` the event is out
    /// of turn.
    pub fn on_step_done(&mut self) -> (r: Action<P, E>)
        ensures
            after_step_done(old(self), final(self), r),
            old(self).consistent() ==> final(self).consistent(),
    {
        let mut stage = Stage::AwaitingTx;
        core::mem::swap(&mut self.stage, &mut stage);
        match stage {
            Stage::Submitting(mut queue) => {
                match queue.next() {
                    Some(Submission::Submit { index, proof }) => {
                        self.stage = Stage::Submitting(queue);
                        Action::Submit { index, proof }
                    },
                    Some(Submission::Skip { index, error }) => {
                        self.stage = Stage::Submitting(queue);
                        Action::Skip { index, error }
                    },
                    None => Action::AwaitTx,
                }
            },
            other => {
                self.stage = other;
                Action::OutOfTurn
            },
        }
    }

    /// Takes one event and says what is to be done next: a transaction as
    /// `on_tx` does, a resolved request as `on_proof`, a finished step as
    /// `on_step_done`, the closing of the intake as `on_closed`.
    pub fn step(&mut self, event: Event<P, E>) -> (r: Action<P, E>)
        ensures
            match event {
                Event::TxArrived(tx) => after_tx(old(self), tx, final(self), r),
                Event::ProofResolved { index, outcome } => after_proof(
                    old(self),
                    index,
                    outcome,
                    final(self),
                    r,
                ),
                Event::StepDone => after_step_done(old(self), final(self), r),
                Event::IntakeClosed => after_closed(old(self), final(self), r),
            },
            old(self).consistent() ==> final(self).consistent(),
    {
        match event {
            Event::TxArrived(tx) => self.on_tx(tx),
            Event::ProofResolved { index, outcome } => self.on_proof(index, outcome),
            Event::StepDone => self.on_step_done(),
            Event::IntakeClosed => self.on_closed(),
        }
    }
}

/// An event out of turn: the answer says so and nothing has changed.
pub open spec fn out_of_turn<P, E>(
    pre: &Sequencer<P, E>,
    post: &Sequencer<P, E>,
    r: Action<P, E>,
) -> bool {
    r is OutOfTurn && post.same(pre)
}

/// What `on_tx` does: `pre` is the sequencer before, `post` after, `r` the
/// answer.
pub open spec fn after_tx<P, E>(
    pre: &Sequencer<P, E>,
    tx: ResolvedTx,
    post: &Sequencer<P, E>,
    r: Action<P, E>,
) -> bool {
    let buffered = pre.pending().push(tx);
    let start = pre.snapshot();
    let batch = admitted(start, buffered);
    if pre.phase() != Phase::AwaitingTx {
        out_of_turn(pre, post, r)
    } else if buffered.len() < pre.threshold() {
        &&& post.threshold() == pre.threshold()
        &&& post.remaining().len() == 0
        &&& r is AwaitTx
        &&& post.phase() == Phase::AwaitingTx
        &&& post.pending() == buffered
        &&& post.snapshot() == start
        &&& post.total_balance() == pre.total_balance()
        &&& post.outcomes().len() == 0
    } else if !applicable_upto(start, batch, batch.len()) {
        &&& post.threshold() == pre.threshold()
        &&& post.remaining().len() == 0
        &&& r matches Action::Halt(e)
        &&& e.index < batch.len()
        &&& applicable_upto(start, batch, e.index as nat)
        &&& !can_apply(state_after(start, batch, e.index as nat), batch[e.index as int])
        &&& post.phase() == Phase::Halted
        &&& post.pending() == Seq::<ResolvedTx>::empty()
        &&& post.snapshot() == start
        &&& post.total_balance() == pre.total_balance()
        &&& post.outcomes().len() == 0
    } else {
        &&& post.threshold() == pre.threshold()
        &&& post.remaining().len() == 0
        &&& post.pending() == Seq::<ResolvedTx>::empty()
        &&& post.snapshot() == state_after(start, batch, batch.len())
        &&& (forall|i: int|
            0 <= i < batch.len() ==> (#[trigger] batch[i]).sender_addr != batch[i].to_addr)
            ==> post.total_balance() == pre.total_balance()
        &&& post.outcomes().len() == batch.len()
        &&& forall|i: int| 0 <= i < batch.len() ==> (#[trigger] post.outcomes()[i]) is None
        &&& batch.len() == 0 ==> r is AwaitTx && post.phase() == Phase::AwaitingTx
        &&& batch.len() > 0 ==> {
            &&& post.phase() == Phase::Proving
            &&& r matches Action::Prove(requests)
            &&& requests@.len() == batch.len()
            &&& forall|i: int|
                0 <= i < batch.len() ==> {
                    &&& (#[trigger] requests@[i]).index == i
                    &&& requests@[i].tx == batch[i].signed
                    &&& requests@[i].pre@ == state_after(start, batch, i as nat)
                    &&& requests@[i].post@ == state_after(start, batch, (i + 1) as nat)
                }
        }
    }
}

/// What `on_proof` does: `pre` is the sequencer before, `post` after, `r`
/// the answer.
pub open spec fn after_proof<P, E>(
    pre: &Sequencer<P, E>,
    index: usize,
    outcome: Result<P, E>,
    post: &Sequencer<P, E>,
    r: Action<P, E>,
) -> bool {
    let slots = pre.outcomes();
    let filled = slots.update(index as int, Some(outcome));
    let steps = plan(resolved(filled));
    if pre.phase() != Phase::Proving || index >= slots.len() || slots[index as int] is Some {
        out_of_turn(pre, post, r)
    } else {
        &&& post.snapshot() == pre.snapshot()
        &&& post.total_balance() == pre.total_balance()
        &&& post.pending() == pre.pending()
        &&& post.threshold() == pre.threshold()
        &&& if !complete(filled) {
            &&& r is AwaitProofs
            &&& post.phase() == Phase::Proving
            &&& post.outcomes() == filled
            &&& post.remaining().len() == 0
        } else {
            &&& r == action_for(steps[0])
            &&& post.phase() == Phase::Submitting
            &&& post.outcomes().len() == 0
            &&& post.remaining() == steps.subrange(1, steps.len() as int)
        }
    }
}

/// What `on_step_done` does: `pre` is the sequencer before, `post` after,
/// `r` the answer.
pub open spec fn after_step_done<P, E>(
    pre: &Sequencer<P, E>,
    post: &Sequencer<P, E>,
    r: Action<P, E>,
) -> bool {
    if pre.phase() != Phase::Submitting {
        out_of_turn(pre, post, r)
    } else {
        &&& post.snapshot() == pre.snapshot()
        &&& post.total_balance() == pre.total_balance()
        &&& post.pending() == pre.pending()
        &&& post.threshold() == pre.threshold()
        &&& post.outcomes().len() == 0
        &&& if pre.remaining().len() == 0 {
            &&& r is AwaitTx
            &&& post.phase() == Phase::AwaitingTx
            &&& post.remaining().len() == 0
        } else {
            &&& r == action_for(pre.remaining()[0])
            &&& post.phase() == Phase::Submitting
            &&& post.remaining() == pre.remaining().subrange(1, pre.remaining().len() as int)
        }
    }
}

/// What `on_closed` does: `pre` is the sequencer before, `post` after, `r`
/// the answer.
pub open spec fn after_closed<P, E>(
    pre: &Sequencer<P, E>,
    post: &Sequencer<P, E>,
    r: Action<P, E>,
) -> bool {
    if pre.phase() != Phase::AwaitingTx {
        out_of_turn(pre, post, r)
    } else {
        &&& r is Exit
        &&& post.phase() == Phase::Closed
        &&& post.snapshot() == pre.snapshot()
        &&& post.total_balance() == pre.total_balance()
        &&& post.pending() == pre.pending()
        &&& post.threshold() == pre.threshold()
        &&& post.outcomes().len() == 0
        &&& post.remaining().len() == 0
    }
}

} // verus!
