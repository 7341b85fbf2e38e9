//! Settlement: what is done with the outcomes of a batch, one after the
//! other and in the order of the batch.
//!
//! A proof is submitted on its own and the next step waits for it. A
//! failed proof request is skipped. Neither a skipped position nor a
//! submission that the settlement layer turned down stops the steps that
//! follow.

use std::collections::VecDeque;
use vstd::prelude::*;

verus! {

/// One step of settlement, for the transaction at `index` of the batch.
#[derive(Debug)]
pub enum Submission<P, E> {
    /// Submit this proof to the settlement layer, alone.
    Submit { index: usize, proof: P },
    /// The proof request failed with this error: nothing to submit.
    Skip { index: usize, error: E },
}

/// The step that belongs to the outcome at a position.
pub open spec fn step_for<P, E>(index: int, outcome: Result<P, E>) -> Submission<P, E> {
    match outcome {
        Ok(proof) => Submission::Submit { index: index as usize, proof },
        Err(error) => Submission::Skip { index: index as usize, error },
    }
}

/// The steps for the outcomes of a batch: one per position, in order.
pub open spec fn plan<P, E>(outcomes: Seq<Result<P, E>>) -> Seq<Submission<P, E>> {
    Seq::new(outcomes.len(), |i: int| step_for(i, outcomes[i]))
}

/// Every proof of a batch is submitted, whatever became of the others:
/// the plan has a step for each position, it submits exactly where the proof
/// request succeeded, and it keeps the order of the batch.
pub proof fn lemma_plan_submits_every_proof<P, E>(outcomes: Seq<Result<P, E>>, k: int)
    requires
        0 <= k < outcomes.len(),
    ensures
        plan(outcomes).len() == outcomes.len(),
        outcomes[k] is Ok <==> plan(outcomes)[k] is Submit,
        outcomes[k] matches Ok(proof) ==> plan(outcomes)[k] == (Submission::Submit::<P, E> {
            index: k as usize,
            proof,
        }),
        outcomes[k] matches Err(error) ==> plan(outcomes)[k] == (Submission::Skip::<P, E> {
            index: k as usize,
            error,
        }),
{
}

/// Turns the outcomes of a batch into the steps of settlement.
pub fn submission_plan<P, E>(outcomes: Vec<Result<P, E>>) -> (r: SettlementQueue<P, E>)
    ensures
        r.remaining() == plan(outcomes@),
{
    let ghost all = outcomes@;
    let mut steps: VecDeque<Submission<P, E>> = VecDeque::new();
    for outcome in iter: outcomes
        invariant
            iter.seq() == all,
            steps@.len() == iter.index(),
            forall|i: int| 0 <= i < steps@.len() ==> #[trigger] steps@[i] == step_for(i, all[i]),
    {
        let index: usize = steps.len();
        match outcome {
            Ok(proof) => {
                steps.push_back(Submission::Submit { index, proof });
            },
            Err(error) => {
                steps.push_back(Submission::Skip { index, error });
            },
        }
    }
    proof {
        assert(steps@ =~= plan(all));
    }
    SettlementQueue { steps }
}

/// The settlement steps of a batch that are still to be taken.
#[derive(Debug)]
pub struct SettlementQueue<P, E> {
    steps: VecDeque<Submission<P, E>>,
}

impl<P, E> SettlementQueue<P, E> {
    /// The steps still to be taken, next first.
    pub closed spec fn remaining(&self) -> Seq<Submission<P, E>> {
        self.steps@
    }

    /// A queue with nothing to do.
    pub fn new() -> (r: SettlementQueue<P, E>)
        ensures
            r.remaining() == Seq::<Submission<P, E>>::empty(),
    {
        SettlementQueue { steps: VecDeque::new() }
    }

    /// The number of steps still to be taken.
    pub fn len(&self) -> (r: usize)
        ensures
            r == self.remaining().len(),
    {
        self.steps.len()
    }

    /// Takes the next step off the queue; `None` where none is left.
    pub fn next(&mut self) -> (r: Option<Submission<P, E>>)
        ensures
            old(self).remaining().len() == 0 ==> r is None && final(self).remaining() == old(
                self,
            ).remaining(),
            old(self).remaining().len() > 0 ==> r == Some(old(self).remaining()[0])
                && final(self).remaining() == old(self).remaining().subrange(
                1,
                old(self).remaining().len() as int,
            ),
    {
        self.steps.pop_front()
    }
}

} // verus!
