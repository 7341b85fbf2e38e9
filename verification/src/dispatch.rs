//! Proof dispatch: one request per transaction of a batch, and the
//! collection of their outcomes by position.
//!
//! The requests may be worked on in any order and at the same time. An
//! outcome is filed under the position of its transaction, so what comes out
//! is ordered as the batch is, whichever request finished first.

use crate::state::State;
use crate::tx::{ResolvedTx, SignedTx};
use vstd::prelude::*;

verus! {

/// A request to prove that the transaction at `index` of a batch takes the
/// snapshot `pre` to the snapshot `post`.
#[derive(Debug)]
pub struct ProofRequest {
    pub index: usize,
    pub tx: SignedTx,
    pub pre: State,
    pub post: State,
}

/// How many requests a chain and a batch give: one for each transaction
/// that has a snapshot before and after it.
pub open spec fn request_count(chain_len: nat, batch_len: nat) -> nat {
    if chain_len == 0 {
        0
    } else if chain_len - 1 < batch_len {
        (chain_len - 1) as nat
    } else {
        batch_len
    }
}

/// Pairs each transaction with the snapshots before and after it: request
/// `i` holds transaction `i`, `chain[i]` and `chain[i + 1]`.
pub fn proof_requests(chain: &Vec<State>, txs: &Vec<ResolvedTx>) -> (r: Vec<ProofRequest>)
    ensures
        r@.len() == request_count(chain@.len(), txs@.len()),
        forall|i: int|
            0 <= i < r@.len() ==> {
                &&& (#[trigger] r@[i]).index == i
                &&& r@[i].tx == txs@[i].signed
                &&& r@[i].pre == chain@[i]
                &&& r@[i].post == chain@[i + 1]
            },
{
    let mut requests: Vec<ProofRequest> = Vec::new();
    if chain.len() == 0 {
        return requests;
    }
    let windows: usize = chain.len() - 1;
    let count: usize = if windows < txs.len() {
        windows
    } else {
        txs.len()
    };
    let mut i: usize = 0;
    while i < count
        invariant
            0 <= i <= count,
            count < chain@.len(),
            count <= txs@.len(),
            requests@.len() == i,
            forall|k: int|
                0 <= k < i ==> {
                    &&& (#[trigger] requests@[k]).index == k
                    &&& requests@[k].tx == txs@[k].signed
                    &&& requests@[k].pre == chain@[k]
                    &&& requests@[k].post == chain@[k + 1]
                },
        decreases count - i,
    {
        requests.push(
            ProofRequest {
                index: i,
                tx: txs[i].signed.duplicate(),
                pre: chain[i].duplicate(),
                post: chain[i + 1].duplicate(),
            },
        );
        i += 1;
    }
    requests
}

/// How many positions of a sequence of slots are still empty.
pub open spec fn missing<R>(slots: Seq<Option<R>>) -> nat
    decreases slots.len(),
{
    if slots.len() == 0 {
        0
    } else {
        missing(slots.drop_last()) + if slots.last() is None {
            1nat
        } else {
            0nat
        }
    }
}

/// Whether no slot is empty.
pub open spec fn complete<R>(slots: Seq<Option<R>>) -> bool {
    forall|i: int| 0 <= i < slots.len() ==> (#[trigger] slots[i]) is Some
}

/// The outcomes of a sequence of slots none of which is empty.
pub open spec fn resolved<R>(slots: Seq<Option<R>>) -> Seq<R> {
    Seq::new(slots.len(), |i: int| slots[i]->Some_0)
}

/// Filling an empty slot leaves one fewer empty.
pub proof fn lemma_missing_fill<R>(slots: Seq<Option<R>>, index: int, value: R)
    requires
        0 <= index < slots.len(),
        slots[index] is None,
    ensures
        missing(slots.update(index, Some(value))) + 1 == missing(slots),
    decreases slots.len(),
{
    let filled = slots.update(index, Some(value));
    if index == slots.len() - 1 {
        assert(filled.drop_last() =~= slots.drop_last());
    } else {
        assert(filled.drop_last() =~= slots.drop_last().update(index, Some(value)));
        lemma_missing_fill(slots.drop_last(), index, value);
    }
}

/// No slot is empty exactly where none is counted as missing.
pub proof fn lemma_missing_zero<R>(slots: Seq<Option<R>>)
    ensures
        missing(slots) == 0 <==> complete(slots),
    decreases slots.len(),
{
    if slots.len() > 0 {
        lemma_missing_zero(slots.drop_last());
        if missing(slots) == 0 {
            assert forall|i: int| 0 <= i < slots.len() implies (#[trigger] slots[i]) is Some by {
                if i < slots.len() - 1 {
                    assert(slots.drop_last()[i] is Some);
                }
            }
        } else if forall|i: int| 0 <= i < slots.len() ==> (#[trigger] slots[i]) is Some {
            assert forall|i: int| 0 <= i < slots.drop_last().len() implies (
            #[trigger] slots.drop_last()[i]) is Some by {
                assert(slots[i] is Some);
            }
            assert(slots.last() is Some);
        }
    }
}

/// Filling two different positions gives the same slots in either order.
pub proof fn lemma_record_order<R>(slots: Seq<Option<R>>, i: int, a: R, j: int, b: R)
    requires
        0 <= i < slots.len(),
        0 <= j < slots.len(),
        i != j,
    ensures
        slots.update(i, Some(a)).update(j, Some(b)) == slots.update(j, Some(b)).update(
            i,
            Some(a),
        ),
{
    assert(slots.update(i, Some(a)).update(j, Some(b)) =~= slots.update(j, Some(b)).update(
        i,
        Some(a),
    ));
}

/// The slots of a collector with the count of those still empty.
#[derive(Debug)]
struct Slots<R> {
    items: Vec<Option<R>>,
    unresolved: usize,
}

/// The outcomes of the requests of one batch, one slot per position.
#[derive(Debug)]
pub struct Collector<R> {
    inner: Slots<R>,
}

impl<R> Collector<R> {
    /// The slots: `Some` where the outcome of that position has come in.
    pub closed spec fn slots(&self) -> Seq<Option<R>> {
        self.inner.items@
    }

    /// The invariant of every collector: the count of outstanding outcomes
    /// is right.
    #[verifier::type_invariant]
    pub closed spec fn counted(&self) -> bool {
        self.inner.unresolved == missing(self.inner.items@)
    }

    /// A collector that waits for `count` outcomes.
    pub fn new(count: usize) -> (r: Collector<R>)
        ensures
            r.slots().len() == count,
            forall|i: int| 0 <= i < count ==> (#[trigger] r.slots()[i]) is None,
    {
        let mut items: Vec<Option<R>> = Vec::new();
        let mut i: usize = 0;
        while i < count
            invariant
                0 <= i <= count,
                items@.len() == i,
                missing(items@) == i,
                forall|k: int| 0 <= k < i ==> (#[trigger] items@[k]) is None,
            decreases count - i,
        {
            proof {
                assert(items@.push(None).drop_last() =~= items@);
            }
            items.push(None);
            i += 1;
        }
        Collector { inner: Slots { items, unresolved: count } }
    }

    /// The number of positions.
    pub fn len(&self) -> (r: usize)
        ensures
            r == self.slots().len(),
    {
        self.inner.items.len()
    }

    /// The number of positions whose outcome has not come in.
    pub fn outstanding(&self) -> (r: usize)
        ensures
            r == missing(self.slots()),
    {
        proof {
            use_type_invariant(self);
        }
        self.inner.unresolved
    }

    /// Whether every outcome has come in.
    pub fn is_complete(&self) -> (r: bool)
        ensures
            r == complete(self.slots()),
    {
        proof {
            use_type_invariant(self);
            lemma_missing_zero(self.inner.items@);
        }
        self.inner.unresolved == 0
    }

    /// Files an outcome under its position. An outcome for a position that
    /// does not exist, or that already has one, is handed back and changes
    /// nothing.
    pub fn record(&mut self, index: usize, outcome: R) -> (r: Result<(), R>)
        ensures
            r is Ok <==> index < old(self).slots().len() && old(self).slots()[index as int] is None,
            r is Ok ==> final(self).slots() == old(self).slots().update(
                index as int,
                Some(outcome),
            ),
            r matches Err(back) ==> back == outcome && final(self).slots() == old(self).slots(),
    {
        proof {
            use_type_invariant(&*self);
        }
        if index >= self.inner.items.len() {
            return Err(outcome);
        }
        if self.inner.items[index].is_some() {
            return Err(outcome);
        }
        let mut taken = Slots { items: Vec::new(), unresolved: 0 };
        core::mem::swap(&mut self.inner, &mut taken);
        proof {
            lemma_missing_fill(taken.items@, index as int, outcome);
        }
        taken.items.set(index, Some(outcome));
        taken.unresolved = taken.unresolved - 1;
        self.inner = taken;
        Ok(())
    }

    /// The outcomes in the order of their positions, where all have come
    /// in; `None` where one is outstanding.
    pub fn into_results(self) -> (r: Option<Vec<R>>)
        ensures
            r is Some <==> complete(self.slots()),
            r matches Some(results) ==> results@ == resolved(self.slots()),
    {
        if self.is_complete() {
            Some(self.take_results())
        } else {
            None
        }
    }

    /// The outcomes in the order of their positions, once all have come in.
    pub fn take_results(self) -> (r: Vec<R>)
        requires
            complete(self.slots()),
        ensures
            r@ == resolved(self.slots()),
    {
        let ghost all = self.inner.items@;
        proof {
            assert forall|i: int| 0 <= i < all.len() implies (#[trigger] all[i]) is Some by {
                assert(self.slots()[i] is Some);
            }
        }
        let mut results: Vec<R> = Vec::new();
        for slot in iter: self.inner.items
            invariant
                iter.seq() == all,
                forall|i: int| 0 <= i < all.len() ==> (#[trigger] all[i]) is Some,
                results@.len() == iter.index(),
                forall|i: int| 0 <= i < results@.len() ==> all[i] == Some(#[trigger] results@[i]),
        {
            assert(all[iter.index() as int] is Some);
            if let Some(outcome) = slot {
                results.push(outcome);
            }
        }
        proof {
            assert(results@ =~= resolved(all));
        }
        results
    }
}

} // verus!
