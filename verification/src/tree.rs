//! The two tiers of the aggregation tree as folds: a transaction's segment
//! proofs into one proof, and a block's transaction proofs into one proof.
use vstd::prelude::*;
use crate::ops::{OperationFailure, SegmentAggProof, TxnAggProof};
use crate::proofs::{
    finish_transaction,
    reinterpreted,
    transaction_step,
    SegmentAggregatableProof,
    TransactionStep,
    TxnAggregatableProof,
};
use crate::ordering::{in_order, well_tagged};
use crate::public_values::{folded, lemma_folded_ends, lemma_folded_keeps_block, PublicValues};

verus! {

/// The public values of each of `proofs`.
pub open spec fn segment_values<P>(proofs: Seq<SegmentAggregatableProof<P>>) -> Seq<PublicValues> {
    Seq::new(proofs.len(), |i: int| proofs[i].p_vals())
}

impl SegmentAggProof {
    /// The strict left-to-right fold of `proofs`, where the capability
    /// answered the combination that takes in the element at place `i + 1`
    /// with `outcomes[i]`. The first failure ends the fold.
    pub open spec fn folded<P, E>(
        self,
        proofs: Seq<SegmentAggregatableProof<P>>,
        outcomes: Seq<Result<P, E>>,
    ) -> Result<SegmentAggregatableProof<P>, OperationFailure<E>>
        recommends
            proofs.len() >= 1,
            outcomes.len() + 1 == proofs.len(),
        decreases proofs.len(),
    {
        if proofs.len() <= 1 {
            Ok(proofs[0])
        } else {
            match self.folded(proofs.drop_last(), outcomes.drop_last()) {
                Err(failure) => Err(failure),
                Ok(acc) => self.combined(acc, proofs.last(), false, outcomes.last()),
            }
        }
    }

    /// A fold that has failed stays failed, with the same failure, however
    /// many elements follow.
    pub proof fn lemma_failure_ends_fold<P, E>(
        self,
        proofs: Seq<SegmentAggregatableProof<P>>,
        outcomes: Seq<Result<P, E>>,
        upto: int,
    )
        requires
            1 <= upto <= proofs.len(),
            outcomes.len() + 1 == proofs.len(),
            self.folded(proofs.subrange(0, upto), outcomes.subrange(0, upto - 1)).is_err(),
        ensures
            self.folded(proofs, outcomes) == self.folded(
                proofs.subrange(0, upto),
                outcomes.subrange(0, upto - 1),
            ),
        decreases proofs.len() - upto,
    {
        if upto == proofs.len() {
            assert(proofs.subrange(0, upto) =~= proofs);
            assert(outcomes.subrange(0, upto - 1) =~= outcomes);
        } else {
            assert(proofs.drop_last().subrange(0, upto) =~= proofs.subrange(0, upto));
            assert(outcomes.drop_last().subrange(0, upto - 1) =~= outcomes.subrange(0, upto - 1));
            self.lemma_failure_ends_fold(proofs.drop_last(), outcomes.drop_last(), upto);
        }
    }

    /// A fold of two or more elements that succeeds gives one aggregate,
    /// whose public values are the fold of the elements' public values: it
    /// starts where the first element starts and ends where the last ends.
    pub proof fn lemma_fold_aggregates<P, E>(
        self,
        proofs: Seq<SegmentAggregatableProof<P>>,
        outcomes: Seq<Result<P, E>>,
    )
        requires
            proofs.len() >= 1,
            outcomes.len() + 1 == proofs.len(),
            self.folded(proofs, outcomes).is_ok(),
        ensures
            proofs.len() >= 2 ==> self.folded(proofs, outcomes)->Ok_0 is Agg,
            proofs.len() == 1 ==> self.folded(proofs, outcomes)->Ok_0 == proofs[0],
            self.folded(proofs, outcomes)->Ok_0.p_vals() == folded(segment_values(proofs)),
        decreases proofs.len(),
    {
        let values = segment_values(proofs);
        if proofs.len() >= 2 {
            self.lemma_fold_aggregates(proofs.drop_last(), outcomes.drop_last());
            assert(values.drop_last() =~= segment_values(proofs.drop_last()));
            assert(values.last() == proofs.last().p_vals());
        }
    }

    /// Folds `proofs` strictly from left to right. `outcomes[i]` is the
    /// capability's answer to the combination that takes in the element at
    /// place `i + 1`. A single element is the result as it stands: nothing
    /// is combined. The first failure ends the fold and is the result.
    #[verifier::loop_isolation(false)]
    pub fn fold<P, E>(&self, proofs: Vec<SegmentAggregatableProof<P>>, outcomes: Vec<Result<P, E>>) -> (r: Result<
        SegmentAggregatableProof<P>,
        OperationFailure<E>,
    >)
        requires
            proofs.len() >= 1,
            outcomes.len() + 1 == proofs.len(),
        ensures
            r == self.folded(proofs@, outcomes@),
    {
        let ghost all_proofs = proofs@;
        let ghost all_outcomes = outcomes@;
        let mut rest = proofs;
        let mut answers_left = outcomes;
        let mut acc = rest.remove(0);
        let ghost mut done: int = 1;
        assert(all_proofs.subrange(0, 1)[0] == all_proofs[0]);
        while answers_left.len() > 0
            invariant
                1 <= done <= all_proofs.len(),
                all_outcomes.len() + 1 == all_proofs.len(),
                rest@ == all_proofs.subrange(done, all_proofs.len() as int),
                answers_left@ == all_outcomes.subrange(done - 1, all_outcomes.len() as int),
                Ok::<SegmentAggregatableProof<P>, OperationFailure<E>>(acc) == self.folded(
                    all_proofs.subrange(0, done),
                    all_outcomes.subrange(0, done - 1),
                ),
            decreases answers_left.len(),
        {
            let next = rest.remove(0);
            let outcome = answers_left.remove(0);
            proof {
                let longer = all_proofs.subrange(0, done + 1);
                let answers = all_outcomes.subrange(0, done);
                assert(longer.drop_last() =~= all_proofs.subrange(0, done));
                assert(answers.drop_last() =~= all_outcomes.subrange(0, done - 1));
                assert(longer.last() == next);
                assert(answers.last() == outcome);
                assert(rest@ =~= all_proofs.subrange(done + 1, all_proofs.len() as int));
                assert(answers_left@ =~= all_outcomes.subrange(done, all_outcomes.len() as int));
            }
            match self.combine(&acc, &next, false, outcome) {
                Ok(combined) => {
                    acc = combined;
                },
                Err(failure) => {
                    proof {
                        self.lemma_failure_ends_fold(all_proofs, all_outcomes, done + 1);
                    }
                    return Err(failure);
                },
            }
            proof {
                done = done + 1;
            }
        }
        proof {
            assert(all_proofs.subrange(0, done) =~= all_proofs);
            assert(all_outcomes.subrange(0, done - 1) =~= all_outcomes);
        }
        Ok(acc)
    }
}

/// The public values of each of `proofs`.
pub open spec fn transaction_values<P>(proofs: Seq<TxnAggregatableProof<P>>) -> Seq<PublicValues> {
    Seq::new(proofs.len(), |i: int| proofs[i].p_vals())
}

impl TxnAggProof {
    /// The strict left-to-right fold of `proofs`, where the capability
    /// answered the combination that takes in the element at place `i + 1`
    /// with `outcomes[i]`. The first failure ends the fold.
    pub open spec fn folded<P, E>(
        self,
        proofs: Seq<TxnAggregatableProof<P>>,
        outcomes: Seq<Result<P, E>>,
    ) -> Result<TxnAggregatableProof<P>, OperationFailure<E>>
        recommends
            proofs.len() >= 1,
            outcomes.len() + 1 == proofs.len(),
        decreases proofs.len(),
    {
        if proofs.len() <= 1 {
            Ok(proofs[0])
        } else {
            match self.folded(proofs.drop_last(), outcomes.drop_last()) {
                Err(failure) => Err(failure),
                Ok(acc) => self.combined(acc, proofs.last(), outcomes.last()),
            }
        }
    }

    /// A fold that has failed stays failed, with the same failure, however
    /// many elements follow.
    pub proof fn lemma_failure_ends_fold<P, E>(
        self,
        proofs: Seq<TxnAggregatableProof<P>>,
        outcomes: Seq<Result<P, E>>,
        upto: int,
    )
        requires
            1 <= upto <= proofs.len(),
            outcomes.len() + 1 == proofs.len(),
            self.folded(proofs.subrange(0, upto), outcomes.subrange(0, upto - 1)).is_err(),
        ensures
            self.folded(proofs, outcomes) == self.folded(
                proofs.subrange(0, upto),
                outcomes.subrange(0, upto - 1),
            ),
        decreases proofs.len() - upto,
    {
        if upto == proofs.len() {
            assert(proofs.subrange(0, upto) =~= proofs);
            assert(outcomes.subrange(0, upto - 1) =~= outcomes);
        } else {
            assert(proofs.drop_last().subrange(0, upto) =~= proofs.subrange(0, upto));
            assert(outcomes.drop_last().subrange(0, upto - 1) =~= outcomes.subrange(0, upto - 1));
            self.lemma_failure_ends_fold(proofs.drop_last(), outcomes.drop_last(), upto);
        }
    }

    /// A fold of two or more elements that succeeds gives one aggregate,
    /// whose public values are the fold of the elements' public values: it
    /// starts where the first element starts and ends where the last ends.
    pub proof fn lemma_fold_aggregates<P, E>(
        self,
        proofs: Seq<TxnAggregatableProof<P>>,
        outcomes: Seq<Result<P, E>>,
    )
        requires
            proofs.len() >= 1,
            outcomes.len() + 1 == proofs.len(),
            self.folded(proofs, outcomes).is_ok(),
        ensures
            proofs.len() >= 2 ==> self.folded(proofs, outcomes)->Ok_0 is Agg,
            proofs.len() == 1 ==> self.folded(proofs, outcomes)->Ok_0 == proofs[0],
            self.folded(proofs, outcomes)->Ok_0.p_vals() == folded(transaction_values(proofs)),
        decreases proofs.len(),
    {
        let values = transaction_values(proofs);
        if proofs.len() >= 2 {
            self.lemma_fold_aggregates(proofs.drop_last(), outcomes.drop_last());
            assert(values.drop_last() =~= transaction_values(proofs.drop_last()));
            assert(values.last() == proofs.last().p_vals());
        }
    }

    /// Folds `proofs` strictly from left to right. `outcomes[i]` is the
    /// capability's answer to the combination that takes in the element at
    /// place `i + 1`. A single element is the result as it stands: nothing
    /// is combined. The first failure ends the fold and is the result.
    #[verifier::loop_isolation(false)]
    pub fn fold<P, E>(&self, proofs: Vec<TxnAggregatableProof<P>>, outcomes: Vec<Result<P, E>>) -> (r: Result<
        TxnAggregatableProof<P>,
        OperationFailure<E>,
    >)
        requires
            proofs.len() >= 1,
            outcomes.len() + 1 == proofs.len(),
        ensures
            r == self.folded(proofs@, outcomes@),
    {
        let ghost all_proofs = proofs@;
        let ghost all_outcomes = outcomes@;
        let mut rest = proofs;
        let mut answers_left = outcomes;
        let mut acc = rest.remove(0);
        let ghost mut done: int = 1;
        assert(all_proofs.subrange(0, 1)[0] == all_proofs[0]);
        while answers_left.len() > 0
            invariant
                1 <= done <= all_proofs.len(),
                all_outcomes.len() + 1 == all_proofs.len(),
                rest@ == all_proofs.subrange(done, all_proofs.len() as int),
                answers_left@ == all_outcomes.subrange(done - 1, all_outcomes.len() as int),
                Ok::<TxnAggregatableProof<P>, OperationFailure<E>>(acc) == self.folded(
                    all_proofs.subrange(0, done),
                    all_outcomes.subrange(0, done - 1),
                ),
            decreases answers_left.len(),
        {
            let next = rest.remove(0);
            let outcome = answers_left.remove(0);
            proof {
                let longer = all_proofs.subrange(0, done + 1);
                let answers = all_outcomes.subrange(0, done);
                assert(longer.drop_last() =~= all_proofs.subrange(0, done));
                assert(answers.drop_last() =~= all_outcomes.subrange(0, done - 1));
                assert(longer.last() == next);
                assert(answers.last() == outcome);
                assert(rest@ =~= all_proofs.subrange(done + 1, all_proofs.len() as int));
                assert(answers_left@ =~= all_outcomes.subrange(done, all_outcomes.len() as int));
            }
            match self.combine(&acc, &next, outcome) {
                Ok(combined) => {
                    acc = combined;
                },
                Err(failure) => {
                    proof {
                        self.lemma_failure_ends_fold(all_proofs, all_outcomes, done + 1);
                    }
                    return Err(failure);
                },
            }
            proof {
                done = done + 1;
            }
        }
        proof {
            assert(all_proofs.subrange(0, done) =~= all_proofs);
            assert(all_outcomes.subrange(0, done - 1) =~= all_outcomes);
        }
        Ok(acc)
    }
}

/// What one transaction hands to the next tier: its segments folded, and a
/// lone segment's proof combined with itself as a dummy tail, to which the
/// capability answered `single_outcome`.
pub open spec fn transaction_proved<P, E>(
    op: SegmentAggProof,
    proofs: Seq<SegmentAggregatableProof<P>>,
    outcomes: Seq<Result<P, E>>,
    single_outcome: Result<P, E>,
) -> Result<TxnAggregatableProof<P>, OperationFailure<E>> {
    match op.folded(proofs, outcomes) {
        Err(failure) => Err(failure),
        Ok(made) => match transaction_step(made) {
            TransactionStep::Ready(ready) => Ok(ready),
            TransactionStep::SelfCombine(single) => {
                let leaf = SegmentAggregatableProof::Seg(single);
                match op.combined(leaf, leaf, true, single_outcome) {
                    Err(failure) => Err(failure),
                    Ok(aggregate) => Ok(reinterpreted(aggregate)),
                }
            },
        },
    }
}

/// Takes one transaction through the segment tier: folds its segment proofs
/// from left to right and, where a lone segment comes out, combines it with
/// itself as a dummy tail. `outcomes` are the capability's answers to the
/// fold's combinations, `single_outcome` its answer to the self-combination,
/// which is looked at only where one takes place.
pub fn prove_transaction<P, E>(
    op: &SegmentAggProof,
    proofs: Vec<SegmentAggregatableProof<P>>,
    outcomes: Vec<Result<P, E>>,
    single_outcome: Result<P, E>,
) -> (r: Result<TxnAggregatableProof<P>, OperationFailure<E>>)
    requires
        proofs.len() >= 1,
        outcomes.len() + 1 == proofs.len(),
    ensures
        r == transaction_proved(*op, proofs@, outcomes@, single_outcome),
{
    match op.fold(proofs, outcomes) {
        Err(failure) => Err(failure),
        Ok(made) => match finish_transaction(made) {
            TransactionStep::Ready(ready) => Ok(ready),
            TransactionStep::SelfCombine(single) => {
                let leaf = SegmentAggregatableProof::Seg(single);
                match op.combine(&leaf, &leaf, true, single_outcome) {
                    Err(failure) => Err(failure),
                    Ok(aggregate) => Ok(TxnAggregatableProof::from_segment(aggregate)),
                }
            },
        },
    }
}

/// Every transaction that is proved hands exactly one aggregate to the next
/// tier, however many segments it has. The aggregate starts where the first
/// segment starts and ends where the last one ends; for a single segment
/// these are that segment's own start and end.
pub proof fn lemma_transaction_gives_one_aggregate<P, E>(
    op: SegmentAggProof,
    proofs: Seq<SegmentAggregatableProof<P>>,
    outcomes: Seq<Result<P, E>>,
    single_outcome: Result<P, E>,
)
    requires
        proofs.len() >= 1,
        outcomes.len() + 1 == proofs.len(),
        forall|i: int| 0 <= i < proofs.len() ==> #[trigger] proofs[i] is Seg,
        transaction_proved(op, proofs, outcomes, single_outcome).is_ok(),
    ensures
        transaction_proved(op, proofs, outcomes, single_outcome)->Ok_0 is Agg,
        transaction_proved(op, proofs, outcomes, single_outcome)->Ok_0.p_vals() == folded(
            segment_values(proofs),
        ),
        transaction_proved(op, proofs, outcomes, single_outcome)->Ok_0.p_vals().registers_before
            == proofs.first().p_vals().registers_before,
        transaction_proved(op, proofs, outcomes, single_outcome)->Ok_0.p_vals().registers_after
            == proofs.last().p_vals().registers_after,
{
    op.lemma_fold_aggregates(proofs, outcomes);
    lemma_folded_ends(segment_values(proofs));
    assert(proofs[0] is Seg);
}

/// Where every segment of a transaction belongs to one block, so does what
/// the transaction hands to the next tier.
pub proof fn lemma_transaction_keeps_block<P, E>(
    op: SegmentAggProof,
    proofs: Seq<SegmentAggregatableProof<P>>,
    outcomes: Seq<Result<P, E>>,
    single_outcome: Result<P, E>,
    block_number: u64,
)
    requires
        proofs.len() >= 1,
        outcomes.len() + 1 == proofs.len(),
        forall|i: int|
            0 <= i < proofs.len() ==> (#[trigger] proofs[i]).p_vals().block_number == block_number,
        transaction_proved(op, proofs, outcomes, single_outcome).is_ok(),
    ensures
        transaction_proved(op, proofs, outcomes, single_outcome)->Ok_0.p_vals().block_number
            == block_number,
{
    op.lemma_fold_aggregates(proofs, outcomes);
    let values = segment_values(proofs);
    assert forall|i: int| 0 <= i < values.len() implies (#[trigger] values[i]).block_number
        == block_number by {
        assert(values[i] == proofs[i].p_vals());
    }
    lemma_folded_keeps_block(values, block_number);
}

/// Where every transaction of a block names that block, so does the
/// aggregate that the block's proof is made of.
pub proof fn lemma_block_aggregate_keeps_block<P, E>(
    op: TxnAggProof,
    proofs: Seq<TxnAggregatableProof<P>>,
    outcomes: Seq<Result<P, E>>,
    block_number: u64,
)
    requires
        proofs.len() >= 1,
        outcomes.len() + 1 == proofs.len(),
        forall|i: int|
            0 <= i < proofs.len() ==> (#[trigger] proofs[i]).p_vals().block_number == block_number,
        op.folded(proofs, outcomes).is_ok(),
    ensures
        op.folded(proofs, outcomes)->Ok_0.p_vals().block_number == block_number,
{
    op.lemma_fold_aggregates(proofs, outcomes);
    let values = transaction_values(proofs);
    assert forall|i: int| 0 <= i < values.len() implies (#[trigger] values[i]).block_number
        == block_number by {
        assert(values[i] == proofs[i].p_vals());
    }
    lemma_folded_keeps_block(values, block_number);
}

/// The fold over a block's transactions takes their results by index. So
/// two runs whose proving tasks completed in different orders, with the same
/// result for each transaction, fold to the same outcome.
pub proof fn lemma_block_fold_ignores_completion_order<P, E>(
    op: TxnAggProof,
    first: Seq<(usize, TxnAggregatableProof<P>)>,
    second: Seq<(usize, TxnAggregatableProof<P>)>,
    outcomes: Seq<Result<P, E>>,
)
    requires
        well_tagged(first),
        well_tagged(second),
        first.len() == second.len(),
        forall|k: int| 0 <= k < first.len() ==> second.contains(#[trigger] first[k]),
    ensures
        in_order(first) == in_order(second),
        op.folded(in_order(first), outcomes) == op.folded(in_order(second), outcomes),
{
    crate::ordering::lemma_completion_order_is_irrelevant(first, second);
}

} // verus!
