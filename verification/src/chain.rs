//! What holds of a chain of blocks proved one after another: the heights of
//! the proofs, and that handing each proof on to the next block while the
//! blocks run side by side gives what threading the proofs by hand gives.
use vstd::prelude::*;
use crate::proofs::{GeneratedBlockProof, TxnAggregatableProof};
use crate::prover::{
    block_proof_job,
    handed_on,
    started_with,
    BlockFailure,
    HandoffClosed,
    U256,
};
use crate::public_values::PublicValues;

verus! {

/// One block at its last step: its number and what its transactions folded
/// into.
pub struct BlockRun<P> {
    pub block_number: U256,
    pub final_txn_proof: TxnAggregatableProof<P>,
}

/// The proving capability's answer to a request for a block proof, by the
/// predecessor's proof and the aggregate's public values.
pub type BlockCapability<B, E> = spec_fn(Option<GeneratedBlockProof<B>>, PublicValues) -> Result<
    B,
    E,
>;

/// How proving `run` ends when its predecessor resolved to `previous`.
pub open spec fn block_result<P, B, E>(
    run: BlockRun<P>,
    previous: Option<Result<GeneratedBlockProof<B>, HandoffClosed>>,
    save_inputs_on_error: bool,
    capability: BlockCapability<B, E>,
) -> Result<GeneratedBlockProof<B>, BlockFailure<E, HandoffClosed>> {
    match block_proof_job(run.block_number, run.final_txn_proof, previous, save_inputs_on_error) {
        Err(e) => Err(BlockFailure::Rejected(e)),
        Ok(job) => job.settled(capability(job.op.prev, job.input.p_vals)),
    }
}

/// The outcomes of a chain of blocks where each block hands its proof on to
/// the next: the first block is linked to `previous_proof`, every later one
/// to what the block before it handed on.
pub open spec fn pipelined<P, B, E>(
    previous_proof: Option<GeneratedBlockProof<B>>,
    runs: Seq<BlockRun<P>>,
    save_inputs_on_error: bool,
    capability: BlockCapability<B, E>,
) -> Seq<Result<GeneratedBlockProof<B>, BlockFailure<E, HandoffClosed>>>
    decreases runs.len(),
{
    if runs.len() == 0 {
        Seq::empty()
    } else {
        let earlier = pipelined(previous_proof, runs.drop_last(), save_inputs_on_error, capability);
        let previous = if earlier.len() == 0 {
            started_with(previous_proof)
        } else {
            handed_on(earlier.last())
        };
        earlier.push(block_result(runs.last(), previous, save_inputs_on_error, capability))
    }
}

/// The proofs of a chain of blocks proved one at a time, each finished proof
/// given by hand to the next block as its predecessor. The chain ends at the
/// first block that fails.
pub open spec fn threaded<P, B, E>(
    previous_proof: Option<GeneratedBlockProof<B>>,
    runs: Seq<BlockRun<P>>,
    save_inputs_on_error: bool,
    capability: BlockCapability<B, E>,
) -> Seq<GeneratedBlockProof<B>>
    decreases runs.len(),
{
    if runs.len() == 0 {
        Seq::empty()
    } else {
        let earlier = threaded(previous_proof, runs.drop_last(), save_inputs_on_error, capability);
        if earlier.len() < runs.len() - 1 {
            earlier
        } else {
            let previous = if earlier.len() == 0 {
                previous_proof
            } else {
                Some(earlier.last())
            };
            match block_result(
                runs.last(),
                started_with(previous),
                save_inputs_on_error,
                capability,
            ) {
                Ok(made) => earlier.push(made),
                Err(_) => earlier,
            }
        }
    }
}

/// Every outcome of the chain is a proof.
pub open spec fn all_proved<B, F>(outcomes: Seq<Result<GeneratedBlockProof<B>, F>>) -> bool {
    forall|i: int| 0 <= i < outcomes.len() ==> (#[trigger] outcomes[i]).is_ok()
}

/// The proofs of a chain whose every outcome is one.
pub open spec fn proofs_of<B, F>(outcomes: Seq<Result<GeneratedBlockProof<B>, F>>) -> Seq<
    GeneratedBlockProof<B>,
> {
    Seq::new(outcomes.len(), |i: int| outcomes[i]->Ok_0)
}

/// The aggregate of `run` names the block that `run` is about.
pub open spec fn names_its_block<P>(run: BlockRun<P>) -> bool {
    run.final_txn_proof.p_vals().block_number == run.block_number.value()
}

/// A chain has one outcome for each block.
pub proof fn lemma_pipelined_len<P, B, E>(
    previous_proof: Option<GeneratedBlockProof<B>>,
    runs: Seq<BlockRun<P>>,
    save_inputs_on_error: bool,
    capability: BlockCapability<B, E>,
)
    ensures
        pipelined(previous_proof, runs, save_inputs_on_error, capability).len() == runs.len(),
    decreases runs.len(),
{
    if runs.len() > 0 {
        lemma_pipelined_len(previous_proof, runs.drop_last(), save_inputs_on_error, capability);
    }
}

/// A block proof has the height that the aggregate it was made of names.
/// Where the aggregate names the block that was asked for, the proof's
/// height is that block's number.
pub proof fn lemma_block_proof_height<P, B, E>(
    run: BlockRun<P>,
    previous: Option<Result<GeneratedBlockProof<B>, HandoffClosed>>,
    save_inputs_on_error: bool,
    capability: BlockCapability<B, E>,
)
    ensures
        block_result(run, previous, save_inputs_on_error, capability) matches Ok(made) ==> {
            &&& made.b_height == run.final_txn_proof.p_vals().block_number
            &&& names_its_block(run) ==> made.b_height == run.block_number.value()
            &&& !(previous matches Some(Err(_)))
        },
{
}

/// In a chain whose aggregates name their blocks, every proof has the
/// height of its block.
pub proof fn lemma_chain_heights<P, B, E>(
    previous_proof: Option<GeneratedBlockProof<B>>,
    runs: Seq<BlockRun<P>>,
    save_inputs_on_error: bool,
    capability: BlockCapability<B, E>,
)
    requires
        forall|i: int| 0 <= i < runs.len() ==> names_its_block(#[trigger] runs[i]),
    ensures
        pipelined(previous_proof, runs, save_inputs_on_error, capability).len() == runs.len(),
        forall|i: int|
            0 <= i < runs.len() ==> (#[trigger] pipelined(
                previous_proof,
                runs,
                save_inputs_on_error,
                capability,
            )[i] matches Ok(made) ==> made.b_height == runs[i].block_number.value()),
    decreases runs.len(),
{
    lemma_pipelined_len(previous_proof, runs, save_inputs_on_error, capability);
    if runs.len() > 0 {
        let front = runs.drop_last();
        lemma_chain_heights(previous_proof, front, save_inputs_on_error, capability);
        let earlier = pipelined(previous_proof, front, save_inputs_on_error, capability);
        let whole = pipelined(previous_proof, runs, save_inputs_on_error, capability);
        let previous = if earlier.len() == 0 {
            started_with(previous_proof)
        } else {
            handed_on(earlier.last())
        };
        lemma_block_proof_height(runs.last(), previous, save_inputs_on_error, capability);
        assert(names_its_block(runs[runs.len() - 1]));
        assert forall|i: int| 0 <= i < runs.len() implies (#[trigger] whole[i] matches Ok(made)
            ==> made.b_height == runs[i].block_number.value()) by {
            if i < runs.len() - 1 {
                assert(whole[i] == earlier[i]);
                assert(runs[i] == front[i]);
            }
        }
    }
}

/// In a chain of blocks numbered one after another, whose aggregates name
/// their blocks, a proof is made only after the proof of the block before,
/// and stands exactly one higher.
pub proof fn lemma_chain_heights_step<P, B, E>(
    previous_proof: Option<GeneratedBlockProof<B>>,
    runs: Seq<BlockRun<P>>,
    save_inputs_on_error: bool,
    capability: BlockCapability<B, E>,
    i: int,
)
    requires
        forall|k: int| 0 <= k < runs.len() ==> names_its_block(#[trigger] runs[k]),
        1 <= i < runs.len(),
        runs[i].block_number.value() == runs[i - 1].block_number.value() + 1,
        pipelined(previous_proof, runs, save_inputs_on_error, capability)[i].is_ok(),
    ensures
        pipelined(previous_proof, runs, save_inputs_on_error, capability)[i - 1].is_ok(),
        pipelined(previous_proof, runs, save_inputs_on_error, capability)[i]->Ok_0.b_height
            == pipelined(previous_proof, runs, save_inputs_on_error, capability)[i
            - 1]->Ok_0.b_height + 1,
    decreases runs.len(),
{
    lemma_chain_heights(previous_proof, runs, save_inputs_on_error, capability);
    lemma_pipelined_len(previous_proof, runs.drop_last(), save_inputs_on_error, capability);
    let earlier = pipelined(previous_proof, runs.drop_last(), save_inputs_on_error, capability);
    let whole = pipelined(previous_proof, runs, save_inputs_on_error, capability);
    if i < runs.len() - 1 {
        let front = runs.drop_last();
        assert(front[i] == runs[i]);
        assert(front[i - 1] == runs[i - 1]);
        assert forall|k: int| 0 <= k < front.len() implies names_its_block(#[trigger] front[k]) by {
            assert(front[k] == runs[k]);
        }
        assert(whole[i] == earlier[i]);
        assert(whole[i - 1] == earlier[i - 1]);
        lemma_chain_heights_step(previous_proof, front, save_inputs_on_error, capability, i);
    } else {
        assert(whole[i - 1] == earlier[i - 1]);
        assert(earlier.last() == earlier[i - 1]);
        lemma_block_proof_height(
            runs.last(),
            handed_on(earlier.last()),
            save_inputs_on_error,
            capability,
        );
    }
}

/// The first proof of a chain that starts from a supplied proof one below
/// its first block stands exactly one higher than that proof.
pub proof fn lemma_chain_heights_start<P, B, E>(
    previous_proof: GeneratedBlockProof<B>,
    runs: Seq<BlockRun<P>>,
    save_inputs_on_error: bool,
    capability: BlockCapability<B, E>,
)
    requires
        forall|k: int| 0 <= k < runs.len() ==> names_its_block(#[trigger] runs[k]),
        runs.len() >= 1,
        runs[0].block_number.value() == previous_proof.b_height + 1,
        pipelined(Some(previous_proof), runs, save_inputs_on_error, capability)[0].is_ok(),
    ensures
        pipelined(Some(previous_proof), runs, save_inputs_on_error, capability)[0]->Ok_0.b_height
            == previous_proof.b_height + 1,
{
    lemma_chain_heights(Some(previous_proof), runs, save_inputs_on_error, capability);
}

/// What happens to a block does not reach the blocks before it: the
/// outcomes of the first `upto` blocks of a chain are the outcomes of the
/// chain of those blocks alone.
pub proof fn lemma_earlier_blocks_unaffected<P, B, E>(
    previous_proof: Option<GeneratedBlockProof<B>>,
    runs: Seq<BlockRun<P>>,
    save_inputs_on_error: bool,
    capability: BlockCapability<B, E>,
    upto: int,
)
    requires
        0 <= upto <= runs.len(),
    ensures
        pipelined(previous_proof, runs, save_inputs_on_error, capability).len() == runs.len(),
        pipelined(previous_proof, runs.subrange(0, upto), save_inputs_on_error, capability)
            == pipelined(previous_proof, runs, save_inputs_on_error, capability).subrange(0, upto),
    decreases runs.len(),
{
    let whole = pipelined(previous_proof, runs, save_inputs_on_error, capability);
    lemma_pipelined_len(previous_proof, runs, save_inputs_on_error, capability);
    if upto == runs.len() {
        assert(runs.subrange(0, upto) =~= runs);
        assert(whole.subrange(0, upto) =~= whole);
    } else {
        let front = runs.drop_last();
        lemma_earlier_blocks_unaffected(previous_proof, front, save_inputs_on_error, capability, upto);
        assert(front.subrange(0, upto) =~= runs.subrange(0, upto));
        let earlier = pipelined(previous_proof, front, save_inputs_on_error, capability);
        assert(earlier.subrange(0, upto) =~= whole.subrange(0, upto));
    }
}

/// A block behind a failed block is not proved: it ends without a
/// block-proof operation, for want of its predecessor's proof or for a
/// reason of its own.
pub proof fn lemma_failure_breaks_chain<P, B, E>(
    previous_proof: Option<GeneratedBlockProof<B>>,
    runs: Seq<BlockRun<P>>,
    save_inputs_on_error: bool,
    capability: BlockCapability<B, E>,
    i: int,
)
    requires
        1 <= i < runs.len(),
        pipelined(previous_proof, runs, save_inputs_on_error, capability)[i - 1].is_err(),
    ensures
        pipelined(previous_proof, runs, save_inputs_on_error, capability)[i] matches Err(
            BlockFailure::Rejected(_),
        ),
{
    let upto = i + 1;
    lemma_earlier_blocks_unaffected(previous_proof, runs, save_inputs_on_error, capability, upto);
    let part = runs.subrange(0, upto);
    let outcomes = pipelined(previous_proof, part, save_inputs_on_error, capability);
    let whole = pipelined(previous_proof, runs, save_inputs_on_error, capability);
    assert(outcomes[i] == whole[i]);
    assert(outcomes[i - 1] == whole[i - 1]);
    lemma_pipelined_len(previous_proof, part.drop_last(), save_inputs_on_error, capability);
    let earlier = pipelined(previous_proof, part.drop_last(), save_inputs_on_error, capability);
    assert(outcomes.drop_last() =~= earlier);
    assert(earlier.last() == outcomes[i - 1]);
    assert(outcomes.last() == outcomes[i]);
}

/// The proofs of a chain up to its first failure.
pub open spec fn proved_prefix<B, F>(outcomes: Seq<Result<GeneratedBlockProof<B>, F>>) -> Seq<
    GeneratedBlockProof<B>,
>
    decreases outcomes.len(),
{
    if outcomes.len() == 0 {
        Seq::empty()
    } else {
        let earlier = proved_prefix(outcomes.drop_last());
        if earlier.len() < outcomes.len() - 1 {
            earlier
        } else {
            match outcomes.last() {
                Ok(made) => earlier.push(made),
                Err(_) => earlier,
            }
        }
    }
}

/// The proofs before the first failure are no more than the outcomes, and
/// they are as many only where every outcome is a proof.
pub proof fn lemma_proved_prefix<B, F>(outcomes: Seq<Result<GeneratedBlockProof<B>, F>>)
    ensures
        proved_prefix(outcomes).len() <= outcomes.len(),
        proved_prefix(outcomes).len() == outcomes.len() <==> all_proved(outcomes),
        all_proved(outcomes) ==> proved_prefix(outcomes) == proofs_of(outcomes),
    decreases outcomes.len(),
{
    if outcomes.len() > 0 {
        let front = outcomes.drop_last();
        lemma_proved_prefix(front);
        if all_proved(outcomes) {
            assert forall|i: int| 0 <= i < front.len() implies (#[trigger] front[i]).is_ok() by {
                assert(front[i] == outcomes[i]);
            }
            assert(outcomes.last().is_ok());
            assert(proved_prefix(outcomes) =~= proofs_of(outcomes));
        }
        if proved_prefix(outcomes).len() == outcomes.len() {
            assert(all_proved(front));
            assert forall|i: int| 0 <= i < outcomes.len() implies (#[trigger] outcomes[i]).is_ok() by {
                if i < front.len() {
                    assert(front[i] == outcomes[i]);
                }
            }
        }
    } else {
        assert(proved_prefix(outcomes) =~= proofs_of(outcomes));
    }
}

/// Handing the proofs on from block to block gives, up to the first block
/// that fails, the very proofs that proving the blocks one at a time and
/// threading each proof by hand gives.
pub proof fn lemma_pipelined_is_threaded<P, B, E>(
    previous_proof: Option<GeneratedBlockProof<B>>,
    runs: Seq<BlockRun<P>>,
    save_inputs_on_error: bool,
    capability: BlockCapability<B, E>,
)
    ensures
        threaded(previous_proof, runs, save_inputs_on_error, capability) == proved_prefix(
            pipelined(previous_proof, runs, save_inputs_on_error, capability),
        ),
        all_proved(pipelined(previous_proof, runs, save_inputs_on_error, capability)) ==> threaded(
            previous_proof,
            runs,
            save_inputs_on_error,
            capability,
        ) == proofs_of(pipelined(previous_proof, runs, save_inputs_on_error, capability)),
    decreases runs.len(),
{
    let whole = pipelined(previous_proof, runs, save_inputs_on_error, capability);
    lemma_pipelined_len(previous_proof, runs, save_inputs_on_error, capability);
    lemma_proved_prefix(whole);
    if runs.len() > 0 {
        let front = runs.drop_last();
        let earlier = pipelined(previous_proof, front, save_inputs_on_error, capability);
        lemma_pipelined_len(previous_proof, front, save_inputs_on_error, capability);
        lemma_pipelined_is_threaded(previous_proof, front, save_inputs_on_error, capability);
        lemma_proved_prefix(earlier);
        assert(whole.drop_last() =~= earlier);
        let by_hand = threaded(previous_proof, front, save_inputs_on_error, capability);
        if by_hand.len() == front.len() && earlier.len() > 0 {
            assert(earlier.last().is_ok());
            assert(by_hand.last() == proofs_of(earlier).last());
            assert(handed_on(earlier.last()) == started_with(Some(by_hand.last())));
        }
    }
}

} // verus!
