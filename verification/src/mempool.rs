//! The mempool: transactions that arrived and were not yet cut into a
//! batch, in the order of their arrival.

use crate::account::{Account, Address};
use crate::admission::{admission, validate_tx};
use crate::state::State;
use crate::tx::ResolvedTx;
use vstd::prelude::*;

verus! {

/// The transactions of `pending` that pass admission against `state`, in
/// the order they have in `pending`.
pub open spec fn admitted(state: Map<Address, Account>, pending: Seq<ResolvedTx>) -> Seq<
    ResolvedTx,
> {
    pending.filter(|tx: ResolvedTx| admission(state, tx) is Ok)
}

/// A buffer of pending transactions with the least number that makes a
/// batch.
#[derive(Debug)]
pub struct Mempool {
    txs: Vec<ResolvedTx>,
    min_batch: usize,
}

impl Mempool {
    /// The buffered transactions, oldest first.
    pub closed spec fn pending(&self) -> Seq<ResolvedTx> {
        self.txs@
    }

    /// The least number of buffered transactions at which a batch is cut.
    pub closed spec fn threshold(&self) -> usize {
        self.min_batch
    }

    /// An empty mempool with the given threshold.
    pub fn new(min_batch: usize) -> (r: Mempool)
        ensures
            r.pending() == Seq::<ResolvedTx>::empty(),
            r.threshold() == min_batch,
    {
        Mempool { txs: Vec::new(), min_batch }
    }

    /// Appends a transaction behind those already buffered.
    pub fn push(&mut self, tx: ResolvedTx)
        ensures
            final(self).pending() == old(self).pending().push(tx),
            final(self).threshold() == old(self).threshold(),
    {
        self.txs.push(tx);
    }

    /// The number of buffered transactions.
    pub fn len(&self) -> (r: usize)
        ensures
            r == self.pending().len(),
    {
        self.txs.len()
    }

    /// The configured threshold.
    pub fn min_batch(&self) -> (r: usize)
        ensures
            r == self.threshold(),
    {
        self.min_batch
    }

    /// Whether enough transactions are buffered to cut a batch.
    pub fn is_ready(&self) -> (r: bool)
        ensures
            r == (self.pending().len() >= self.threshold()),
    {
        self.txs.len() >= self.min_batch
    }

    /// Empties the buffer and returns, in arrival order, the transactions
    /// that pass admission against `state`. The others are discarded.
    pub fn drain_valid(&mut self, state: &State) -> (r: Vec<ResolvedTx>)
        ensures
            final(self).pending() == Seq::<ResolvedTx>::empty(),
            final(self).threshold() == old(self).threshold(),
            r@ == admitted(state@, old(self).pending()),
    {
        let mut taken: Vec<ResolvedTx> = Vec::new();
        core::mem::swap(&mut self.txs, &mut taken);
        let ghost all = taken@;
        let ghost pred = |tx: ResolvedTx| admission(state@, tx) is Ok;
        let mut kept: Vec<ResolvedTx> = Vec::new();
        proof {
            assert(all.subrange(0, 0) =~= Seq::<ResolvedTx>::empty());
            assert(Seq::<ResolvedTx>::empty().filter(pred) =~= Seq::<ResolvedTx>::empty()) by {
                reveal(Seq::filter);
            }
        }
        for tx in iter: taken
            invariant
                iter.seq() == all,
                pred == (|tx: ResolvedTx| admission(state@, tx) is Ok),
                kept@ == all.subrange(0, iter.index() as int).filter(pred),
        {
            let ghost k = iter.index() as int;
            proof {
                assert(all.subrange(0, k + 1) =~= all.subrange(0, k).push(tx));
                all.subrange(0, k).lemma_filter_push(tx, pred);
            }
            if validate_tx(state, &tx).is_ok() {
                kept.push(tx);
            }
        }
        proof {
            assert(all.subrange(0, all.len() as int) =~= all);
        }
        kept
    }
}

} // verus!
