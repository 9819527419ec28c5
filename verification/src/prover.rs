//! The orchestrator's decisions for one block and for a chain of blocks:
//! whether the folded transactions can become a block proof, which
//! predecessor the block proof is linked to, and how a chain of blocks hands
//! each finished proof on to its successor.
use vstd::prelude::*;
use crate::ops::{BlockProof, OperationFailure};
use crate::proofs::{GeneratedBlockProof, GeneratedProof, TxnAggregatableProof};
use crate::public_values::PublicValues;

verus! {

/// A 256-bit number in four 64-bit limbs, the least significant first.
#[derive(Clone, Copy, Debug, PartialEq, Eq)]
pub struct U256 {
    pub limbs: [u64; 4],
}

impl U256 {
    /// The number that the limbs stand for.
    pub open spec fn value(self) -> int {
        self.limbs[0] + 18446744073709551616 * (self.limbs[1] + 18446744073709551616 * (
        self.limbs[2] + 18446744073709551616 * self.limbs[3]))
    }

    /// The number as a `u64`, where it fits.
    pub fn to_u64(&self) -> (r: Option<u64>)
        ensures
            r == (if self.value() <= u64::MAX {
                Some(self.value() as u64)
            } else {
                None
            }),
    {
        if self.limbs[1] == 0 && self.limbs[2] == 0 && self.limbs[3] == 0 {
            Some(self.limbs[0])
        } else {
            None
        }
    }
}

/// One block to prove: its number and whatever the trace decoder needs.
#[derive(Clone, Debug, PartialEq, Eq)]
pub struct BlockProverInput<T> {
    pub block_number: U256,
    pub block_trace: T,
}

/// A run of blocks to prove as a chain.
#[derive(Clone, Debug, PartialEq, Eq)]
pub struct ProverInput<T> {
    pub blocks: Vec<BlockProverInput<T>>,
}

/// Why no block proof was asked for.
#[derive(Clone, Debug, PartialEq, Eq)]
pub enum ProveError<C> {
    /// The reduction over the block's transactions ended in a proof that is
    /// no aggregate.
    NotAggregated,
    /// The block's number does not fit in 64 bits.
    BlockNumberOverflow,
    /// The proof of the block before did not arrive.
    ChainLinkage(C),
}

/// The block-proof operation to run and the aggregate to run it on.
#[derive(Clone, Debug, PartialEq, Eq)]
pub struct BlockProofJob<P, B> {
    pub op: BlockProof<B>,
    pub input: GeneratedProof<P>,
}

/// How a block's proving ended.
#[derive(Clone, Debug, PartialEq, Eq)]
pub enum BlockFailure<E, C> {
    /// No block proof was asked for.
    Rejected(ProveError<C>),
    /// The block-proof operation failed.
    Operation(OperationFailure<E>),
}

/// The aggregate that a block proof can be made of, for a block numbered
/// `block_number` whose transactions folded into `final_txn_proof`.
pub open spec fn final_aggregate_of<P, C>(
    block_number: U256,
    final_txn_proof: TxnAggregatableProof<P>,
) -> Result<GeneratedProof<P>, ProveError<C>> {
    match final_txn_proof {
        TxnAggregatableProof::Txn(_) => Err(ProveError::NotAggregated),
        TxnAggregatableProof::Agg(made) => if block_number.value() > u64::MAX {
            Err(ProveError::BlockNumberOverflow)
        } else {
            Ok(made)
        },
    }
}

/// The job that proving a block ends in. The shape of the folded
/// transactions is looked at first, then the block's number, and the
/// predecessor last.
pub open spec fn block_proof_job<P, B, C>(
    block_number: U256,
    final_txn_proof: TxnAggregatableProof<P>,
    previous: Option<Result<GeneratedBlockProof<B>, C>>,
    save_inputs_on_error: bool,
) -> Result<BlockProofJob<P, B>, ProveError<C>> {
    match final_aggregate_of::<P, C>(block_number, final_txn_proof) {
        Err(e) => Err(e),
        Ok(input) => match previous {
            Some(Err(cause)) => Err(ProveError::ChainLinkage(cause)),
            Some(Ok(made)) => Ok(
                BlockProofJob { op: BlockProof { prev: Some(made), save_inputs_on_error }, input },
            ),
            None => Ok(BlockProofJob { op: BlockProof { prev: None, save_inputs_on_error }, input }),
        },
    }
}

impl<P, B> BlockProofJob<P, B> {
    /// How the block's proving ends when the capability answers the job
    /// with `outcome`.
    pub open spec fn settled<E, C>(self, outcome: Result<B, E>) -> Result<
        GeneratedBlockProof<B>,
        BlockFailure<E, C>,
    > {
        match self.op.executed(self.input.p_vals, outcome) {
            Ok(made) => Ok(made),
            Err(failure) => Err(BlockFailure::Operation(failure)),
        }
    }

    /// Ends the block's proving with the capability's answer to the job: the
    /// block's proof, at the height that the aggregate names, or the failure
    /// of the block-proof operation.
    pub fn settle<E, C>(self, outcome: Result<B, E>) -> (r: Result<
        GeneratedBlockProof<B>,
        BlockFailure<E, C>,
    >)
        ensures
            r == self.settled::<E, C>(outcome),
    {
        match self.op.execute(&self.input.p_vals, outcome) {
            Ok(made) => Ok(made),
            Err(failure) => Err(BlockFailure::Operation(failure)),
        }
    }
}

impl<T> BlockProverInput<T> {
    /// The block's number.
    pub fn get_block_number(&self) -> (r: U256)
        ensures
            r == self.block_number,
    {
        self.block_number
    }

    /// Checks what the reduction over the block's transactions ended in. Only
    /// an aggregate can become a block proof, and only for a block whose
    /// number fits in 64 bits.
    pub fn final_aggregate<P, C>(&self, final_txn_proof: TxnAggregatableProof<P>) -> (r: Result<
        GeneratedProof<P>,
        ProveError<C>,
    >)
        ensures
            r == final_aggregate_of::<P, C>(self.block_number, final_txn_proof),
    {
        match final_txn_proof {
            TxnAggregatableProof::Txn(_) => Err(ProveError::NotAggregated),
            TxnAggregatableProof::Agg(made) => match self.block_number.to_u64() {
                None => Err(ProveError::BlockNumberOverflow),
                Some(_) => Ok(made),
            },
        }
    }

    /// Decides the last step of proving this block, once its transactions
    /// are folded into `final_txn_proof` and the predecessor's proof has
    /// resolved to `previous` (`None` for the first block after a
    /// checkpoint). The outcome is the block-proof operation to run, linked
    /// to the predecessor's proof, or the reason why none is run.
    pub fn prove<P, B, C>(
        &self,
        final_txn_proof: TxnAggregatableProof<P>,
        previous: Option<Result<GeneratedBlockProof<B>, C>>,
        save_inputs_on_error: bool,
    ) -> (r: Result<BlockProofJob<P, B>, ProveError<C>>)
        ensures
            r == block_proof_job(self.block_number, final_txn_proof, previous, save_inputs_on_error),
    {
        match self.final_aggregate(final_txn_proof) {
            Err(e) => Err(e),
            Ok(input) => match previous {
                Some(Err(cause)) => Err(ProveError::ChainLinkage(cause)),
                Some(Ok(made)) => Ok(
                    BlockProofJob {
                        op: BlockProof { prev: Some(made), save_inputs_on_error },
                        input,
                    },
                ),
                None => Ok(
                    BlockProofJob { op: BlockProof { prev: None, save_inputs_on_error }, input },
                ),
            },
        }
    }
}

/// The predecessor was to hand its proof on, and did not.
#[derive(Clone, Copy, Debug, PartialEq, Eq, Structural)]
pub struct HandoffClosed;

/// What the successor of a block receives: the block's proof, or, where the
/// block failed, the news that none will come.
pub open spec fn handed_on<B, F>(result: Result<GeneratedBlockProof<B>, F>) -> Option<
    Result<GeneratedBlockProof<B>, HandoffClosed>,
> {
    Some(
        match result {
            Ok(made) => Ok(made),
            Err(_) => Err(HandoffClosed),
        },
    )
}

/// What the first block of a run receives: the proof it was started with, or
/// nothing after a checkpoint.
pub open spec fn started_with<B>(previous_proof: Option<GeneratedBlockProof<B>>) -> Option<
    Result<GeneratedBlockProof<B>, HandoffClosed>,
> {
    match previous_proof {
        Some(made) => Some(Ok(made)),
        None => None,
    }
}

/// The outcome at place `at` is the failure `failure`, and every outcome
/// before it is a proof.
pub open spec fn fails_first_at<B, F>(
    outcomes: Seq<Result<GeneratedBlockProof<B>, F>>,
    at: int,
    failure: F,
) -> bool {
    &&& 0 <= at < outcomes.len()
    &&& outcomes[at] == Err::<GeneratedBlockProof<B>, F>(failure)
    &&& forall|i: int| 0 <= i < at ==> (#[trigger] outcomes[i]).is_ok()
}

impl<T> ProverInput<T> {
    /// The predecessor that the first block of the run is linked to.
    pub fn first_previous<B>(&self, previous_proof: Option<GeneratedBlockProof<B>>) -> (r: Option<
        Result<GeneratedBlockProof<B>, HandoffClosed>,
    >)
        ensures
            r == started_with(previous_proof),
    {
        match previous_proof {
            Some(made) => Some(Ok(made)),
            None => None,
        }
    }

    /// The outcome of the whole run from the outcomes of its blocks, in the
    /// blocks' order: the proofs of all blocks, or the failure of the first
    /// block that failed.
    #[verifier::loop_isolation(false)]
    pub fn collect<B, F>(&self, outcomes: Vec<Result<GeneratedBlockProof<B>, F>>) -> (r: Result<
        Vec<GeneratedBlockProof<B>>,
        F,
    >)
        ensures
            r.is_ok() <==> forall|i: int| 0 <= i < outcomes@.len() ==> (#[trigger] outcomes@[i]).is_ok(),
            r matches Ok(proofs) ==> proofs@.len() == outcomes@.len() && forall|i: int|
                0 <= i < outcomes@.len() ==> (#[trigger] outcomes@[i])->Ok_0 == proofs@[i],
            r.is_err() ==> exists|place: int| fails_first_at(outcomes@, place, r->Err_0),
    {
        let ghost all = outcomes@;
        let mut rest = outcomes;
        let mut proofs: Vec<GeneratedBlockProof<B>> = Vec::new();
        while rest.len() > 0
            invariant
                proofs@.len() + rest@.len() == all.len(),
                rest@ == all.subrange(proofs@.len() as int, all.len() as int),
                forall|i: int|
                    0 <= i < proofs@.len() ==> #[trigger] all[i] == Ok::<GeneratedBlockProof<B>, F>(
                        proofs@[i],
                    ),
            decreases rest.len(),
        {
            let ghost at = proofs@.len() as int;
            let outcome = rest.remove(0);
            assert(outcome == all[at]);
            match outcome {
                Ok(made) => {
                    proofs.push(made);
                    assert(rest@ =~= all.subrange(proofs@.len() as int, all.len() as int));
                },
                Err(failure) => {
                    assert(fails_first_at(all, at, failure));
                    let failed: Result<Vec<GeneratedBlockProof<B>>, F> = Err(failure);
                    assert(fails_first_at(all, at, failed->Err_0));
                    return failed;
                },
            }
        }
        Ok(proofs)
    }

    /// The predecessor that a later block is linked to, given what the block
    /// before it published: its proof, or nothing where it failed.
    pub fn next_previous<B>(&self, published: Option<GeneratedBlockProof<B>>) -> (r: Option<
        Result<GeneratedBlockProof<B>, HandoffClosed>,
    >)
        ensures
            r == Some(
                match published {
                    Some(made) => Ok::<GeneratedBlockProof<B>, HandoffClosed>(made),
                    None => Err(HandoffClosed),
                },
            ),
    {
        match published {
            Some(made) => Some(Ok(made)),
            None => Some(Err(HandoffClosed)),
        }
    }
}

} // verus!
