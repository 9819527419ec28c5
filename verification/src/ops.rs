//! The four proving operations. Each hands its input to the proving
//! capability; what it makes of the capability's answer is decided here:
//! which proof comes out, and, on a failure, how the fault is classified and
//! whether the failing input is to be saved for diagnosis.
use vstd::prelude::*;
use crate::proofs::{
    GeneratedBlockProof,
    GeneratedProof,
    SegmentAggregatableProof,
    TxnAggregatableProof,
};
use crate::public_values::{join_public_values, joined, PublicValues};

verus! {

/// What the runtime does with a failed operation.
#[derive(Clone, Copy, Debug, PartialEq, Eq, Structural)]
pub enum FatalStrategy {
    /// The failure is dropped and the work goes on.
    Ignore,
    /// The whole proving graph of the block is abandoned.
    Terminate,
}

/// Names one segment of one transaction of one block.
#[derive(Clone, Copy, Debug, PartialEq, Eq, Structural)]
pub struct SegmentId {
    pub block_number: u64,
    pub txn_number_before: u64,
    pub segment_index: u64,
}

/// The input of a failed operation. It names the block at fault and, for a
/// segment, the transaction and the segment; it is what a diagnostic dump
/// saves.
#[derive(Clone, Copy, Debug, PartialEq, Eq, Structural)]
pub enum FailedInput {
    /// The execution input and segment data of the segment `id`.
    SegmentInput { id: SegmentId },
    /// The public values of both operands of a combination, filed under the
    /// left operand's block.
    AggregateInputs { block_number: u64, lhs: PublicValues, rhs: PublicValues },
    /// The public values of the aggregate that no block proof could be made
    /// of.
    BlockInput { block_number: u64, input: PublicValues },
}

/// A failed operation: the capability's error, its classification, the
/// input at fault, and whether that input is to be saved before the error is
/// handed on.
#[derive(Clone, Debug, PartialEq, Eq)]
pub struct OperationFailure<E> {
    pub cause: E,
    pub strategy: FatalStrategy,
    pub input: FailedInput,
    pub save_input: bool,
}

/// The error that an operation surfaces to the runtime.
#[derive(Clone, Debug, PartialEq, Eq)]
pub struct FatalError<E> {
    pub cause: E,
    pub strategy: FatalStrategy,
    pub input: FailedInput,
}

/// How a failed operation ends once its dump has been tried: the error to
/// surface, and the dump's own error, if any, which is only logged.
#[derive(Clone, Debug, PartialEq, Eq)]
pub struct Conclusion<E, W> {
    pub error: FatalError<E>,
    pub dump_error: Option<W>,
}

/// The failure of an operation on `input` whose capability answered with
/// `cause`: it always terminates, and asks for the input to be saved only
/// where saving is switched on.
pub open spec fn failure_of<E>(cause: E, save_inputs_on_error: bool, input: FailedInput)
    -> OperationFailure<E> {
    OperationFailure {
        cause,
        strategy: FatalStrategy::Terminate,
        input,
        save_input: save_inputs_on_error,
    }
}

fn fail<E>(cause: E, save_inputs_on_error: bool, input: FailedInput) -> (r: OperationFailure<E>)
    ensures
        r == failure_of(cause, save_inputs_on_error, input),
{
    OperationFailure {
        cause,
        strategy: FatalStrategy::Terminate,
        input,
        save_input: save_inputs_on_error,
    }
}

/// How `failure` ends when its dump ended as `dump_result` (`None` where no
/// dump was tried).
pub open spec fn concluded<E, W>(
    failure: OperationFailure<E>,
    dump_result: Option<Result<(), W>>,
) -> Conclusion<E, W> {
    Conclusion {
        error: FatalError {
            cause: failure.cause,
            strategy: failure.strategy,
            input: failure.input,
        },
        dump_error: match dump_result {
            Some(Err(w)) => Some(w),
            _ => None,
        },
    }
}

impl<E> OperationFailure<E> {
    /// The dump to attempt before the error is handed on: the input at
    /// fault, where saving is switched on.
    pub open spec fn dump(self) -> Option<FailedInput> {
        if self.save_input {
            Some(self.input)
        } else {
            None
        }
    }

    /// The dump to attempt before the error is handed on, if any.
    pub fn dump_request(&self) -> (r: Option<FailedInput>)
        ensures
            r == self.dump(),
    {
        if self.save_input {
            Some(self.input)
        } else {
            None
        }
    }

    /// Ends a failed operation after its dump was tried. The error that
    /// surfaces is the capability's own, with its classification, whatever
    /// became of the dump; a failed dump is handed back beside it to be
    /// logged.
    pub fn conclude<W>(self, dump_result: Option<Result<(), W>>) -> (r: Conclusion<E, W>)
        ensures
            r == concluded(self, dump_result),
            r.error.cause == self.cause,
            r.error.strategy == self.strategy,
            r.error.input == self.input,
    {
        let dump_error = match dump_result {
            Some(Err(w)) => Some(w),
            _ => None,
        };
        Conclusion {
            error: FatalError { cause: self.cause, strategy: self.strategy, input: self.input },
            dump_error,
        }
    }
}

/// Whether the dump succeeded, failed, or was never tried, the error that
/// surfaces is the same.
pub proof fn lemma_dump_never_alters_error<E, W>(
    failure: OperationFailure<E>,
    first: Option<Result<(), W>>,
    second: Option<Result<(), W>>,
)
    ensures
        concluded(failure, first).error == concluded(failure, second).error,
        concluded(failure, first).error.cause == failure.cause,
        concluded(failure, first).error.strategy == failure.strategy,
        concluded(failure, first).error.input == failure.input,
{
}

/// Proves one segment.
#[derive(Clone, Copy, Debug)]
pub struct SegmentProof {
    pub save_inputs_on_error: bool,
}

/// Combines two neighbouring proofs of one transaction's segments.
#[derive(Clone, Copy, Debug)]
pub struct SegmentAggProof {
    pub save_inputs_on_error: bool,
}

/// Combines two neighbouring proofs of a block's transactions.
#[derive(Clone, Copy, Debug)]
pub struct TxnAggProof {
    pub save_inputs_on_error: bool,
}

/// Produces the proof of a block from the aggregate of its transactions and
/// the proof of the block before it, if there is one.
#[derive(Clone, Debug, PartialEq, Eq)]
pub struct BlockProof<B> {
    pub prev: Option<GeneratedBlockProof<B>>,
    pub save_inputs_on_error: bool,
}

impl SegmentProof {
    /// What the proving of segment `id` settles as.
    pub open spec fn executed<P, E>(
        self,
        id: SegmentId,
        outcome: Result<GeneratedProof<P>, E>,
    ) -> Result<SegmentAggregatableProof<P>, OperationFailure<E>> {
        match outcome {
            Ok(made) => Ok(SegmentAggregatableProof::Seg(made)),
            Err(cause) => Err(
                failure_of(cause, self.save_inputs_on_error, FailedInput::SegmentInput { id }),
            ),
        }
    }

    /// Settles the proving of segment `id`, to which the capability answered
    /// `outcome`. A proof becomes a single-segment element of the reduction.
    /// An error terminates, and asks for the segment's input to be saved
    /// where saving is switched on.
    pub fn execute<P, E>(&self, id: SegmentId, outcome: Result<GeneratedProof<P>, E>) -> (r: Result<
        SegmentAggregatableProof<P>,
        OperationFailure<E>,
    >)
        ensures
            r == self.executed(id, outcome),
    {
        match outcome {
            Ok(made) => Ok(SegmentAggregatableProof::Seg(made)),
            Err(cause) => Err(
                fail(cause, self.save_inputs_on_error, FailedInput::SegmentInput { id }),
            ),
        }
    }
}

impl SegmentAggProof {
    /// What the combination of `a` and `b` settles as.
    pub open spec fn combined<P, E>(
        self,
        a: SegmentAggregatableProof<P>,
        b: SegmentAggregatableProof<P>,
        is_dummy_tail: bool,
        outcome: Result<P, E>,
    ) -> Result<SegmentAggregatableProof<P>, OperationFailure<E>> {
        match outcome {
            Ok(intern) => Ok(
                SegmentAggregatableProof::Agg(
                    GeneratedProof { p_vals: joined(a.p_vals(), b.p_vals(), is_dummy_tail), intern },
                ),
            ),
            Err(cause) => Err(
                failure_of(
                    cause,
                    self.save_inputs_on_error,
                    FailedInput::AggregateInputs {
                        block_number: a.p_vals().block_number,
                        lhs: a.p_vals(),
                        rhs: b.p_vals(),
                    },
                ),
            ),
        }
    }

    /// Settles the combination of `a` and `b`, in this order, to which the
    /// capability answered `outcome`. An artifact becomes an aggregate that
    /// starts where `a` starts and ends where `b` ends (where `a` ends, if
    /// `b` is a dummy tail). An error terminates, and asks for both
    /// operands' public values to be saved where saving is switched on.
    pub fn combine<P, E>(
        &self,
        a: &SegmentAggregatableProof<P>,
        b: &SegmentAggregatableProof<P>,
        is_dummy_tail: bool,
        outcome: Result<P, E>,
    ) -> (r: Result<SegmentAggregatableProof<P>, OperationFailure<E>>)
        ensures
            r == self.combined(*a, *b, is_dummy_tail, outcome),
    {
        let lhs = a.public_values();
        let rhs = b.public_values();
        match outcome {
            Ok(intern) => Ok(
                SegmentAggregatableProof::Agg(
                    GeneratedProof { p_vals: join_public_values(&lhs, &rhs, is_dummy_tail), intern },
                ),
            ),
            Err(cause) => Err(
                fail(
                    cause,
                    self.save_inputs_on_error,
                    FailedInput::AggregateInputs { block_number: lhs.block_number, lhs, rhs },
                ),
            ),
        }
    }
}

impl TxnAggProof {
    /// What the combination of `a` and `b` settles as.
    pub open spec fn combined<P, E>(
        self,
        a: TxnAggregatableProof<P>,
        b: TxnAggregatableProof<P>,
        outcome: Result<P, E>,
    ) -> Result<TxnAggregatableProof<P>, OperationFailure<E>> {
        match outcome {
            Ok(intern) => Ok(
                TxnAggregatableProof::Agg(
                    GeneratedProof { p_vals: joined(a.p_vals(), b.p_vals(), false), intern },
                ),
            ),
            Err(cause) => Err(
                failure_of(
                    cause,
                    self.save_inputs_on_error,
                    FailedInput::AggregateInputs {
                        block_number: a.p_vals().block_number,
                        lhs: a.p_vals(),
                        rhs: b.p_vals(),
                    },
                ),
            ),
        }
    }

    /// Settles the combination of `a` and `b`, in this order, to which the
    /// capability answered `outcome`. An artifact becomes an aggregate over
    /// the transactions of both. An error terminates, and asks for both
    /// operands' public values to be saved where saving is switched on.
    pub fn combine<P, E>(
        &self,
        a: &TxnAggregatableProof<P>,
        b: &TxnAggregatableProof<P>,
        outcome: Result<P, E>,
    ) -> (r: Result<TxnAggregatableProof<P>, OperationFailure<E>>)
        ensures
            r == self.combined(*a, *b, outcome),
    {
        let lhs = a.public_values();
        let rhs = b.public_values();
        match outcome {
            Ok(intern) => Ok(
                TxnAggregatableProof::Agg(
                    GeneratedProof { p_vals: join_public_values(&lhs, &rhs, false), intern },
                ),
            ),
            Err(cause) => Err(
                fail(
                    cause,
                    self.save_inputs_on_error,
                    FailedInput::AggregateInputs { block_number: lhs.block_number, lhs, rhs },
                ),
            ),
        }
    }
}

impl<B> BlockProof<B> {
    /// What the making of the block proof settles as.
    pub open spec fn executed<E>(self, input: PublicValues, outcome: Result<B, E>) -> Result<
        GeneratedBlockProof<B>,
        OperationFailure<E>,
    > {
        match outcome {
            Ok(intern) => Ok(GeneratedBlockProof { b_height: input.block_number, intern }),
            Err(cause) => Err(
                failure_of(
                    cause,
                    self.save_inputs_on_error,
                    FailedInput::BlockInput { block_number: input.block_number, input },
                ),
            ),
        }
    }

    /// Settles the making of a block proof from the aggregate with public
    /// values `input`, to which the capability answered `outcome`. An
    /// artifact becomes the block's proof, at the height that the aggregate
    /// names. An error terminates, and asks for the aggregate's public
    /// values to be saved where saving is switched on.
    pub fn execute<E>(&self, input: &PublicValues, outcome: Result<B, E>) -> (r: Result<
        GeneratedBlockProof<B>,
        OperationFailure<E>,
    >)
        ensures
            r == self.executed(*input, outcome),
    {
        match outcome {
            Ok(intern) => Ok(GeneratedBlockProof { b_height: input.block_number, intern }),
            Err(cause) => Err(
                fail(
                    cause,
                    self.save_inputs_on_error,
                    FailedInput::BlockInput { block_number: input.block_number, input: *input },
                ),
            ),
        }
    }
}

/// A transaction with a single segment: combined with itself as a dummy
/// tail, its proof becomes an aggregate with the single proof's own start
/// and end.
pub proof fn lemma_single_segment_aggregate<P, E>(
    op: SegmentAggProof,
    single: SegmentAggregatableProof<P>,
    intern: P,
)
    ensures
        op.combined::<P, E>(single, single, true, Ok(intern)) == Ok::<
            SegmentAggregatableProof<P>,
            OperationFailure<E>,
        >(SegmentAggregatableProof::Agg(GeneratedProof { p_vals: single.p_vals(), intern })),
{
}

} // verus!
