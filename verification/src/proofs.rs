//! The proofs that move through the aggregation tree. Each carries the public
//! values that the orchestration reads and, untouched, the artifact that the
//! proving capability made.
use vstd::prelude::*;
use crate::public_values::PublicValues;

verus! {

/// A proof artifact of type `P` with its public values.
#[derive(Clone, Debug, PartialEq, Eq)]
pub struct GeneratedProof<P> {
    pub p_vals: PublicValues,
    pub intern: P,
}

/// An element of the reduction over one transaction's segments: the proof of
/// a single segment, or the aggregate of two or more.
#[derive(Clone, Debug, PartialEq, Eq)]
pub enum SegmentAggregatableProof<P> {
    Seg(GeneratedProof<P>),
    Agg(GeneratedProof<P>),
}

/// An element of the reduction over a block's transactions. `Agg` is an
/// aggregate: of one transaction's segments, or of several transactions.
/// `Txn` is the proof of a transaction's only segment that was never
/// aggregated; no block proof can be made of it.
#[derive(Clone, Debug, PartialEq, Eq)]
pub enum TxnAggregatableProof<P> {
    Txn(GeneratedProof<P>),
    Agg(GeneratedProof<P>),
}

/// The finished proof of one block, with the block's height.
#[derive(Clone, Debug, PartialEq, Eq)]
pub struct GeneratedBlockProof<P> {
    pub b_height: u64,
    pub intern: P,
}

/// What has to happen to the folded segments of one transaction before they
/// enter the reduction over transactions.
#[derive(Clone, Debug, PartialEq, Eq)]
pub enum TransactionStep<P> {
    /// The fold gave an aggregate: it is the transaction's proof.
    Ready(TxnAggregatableProof<P>),
    /// The transaction had a single segment, which nothing was combined
    /// with. It has to be combined with itself as a dummy tail first.
    SelfCombine(GeneratedProof<P>),
}

impl<P> SegmentAggregatableProof<P> {
    /// The public values of either variant.
    pub open spec fn p_vals(self) -> PublicValues {
        match self {
            SegmentAggregatableProof::Seg(info) => info.p_vals,
            SegmentAggregatableProof::Agg(info) => info.p_vals,
        }
    }

    /// The public values of either variant.
    pub fn public_values(&self) -> (r: PublicValues)
        ensures
            r == self.p_vals(),
    {
        match self {
            SegmentAggregatableProof::Seg(info) => info.p_vals,
            SegmentAggregatableProof::Agg(info) => info.p_vals,
        }
    }
}

impl<P> TxnAggregatableProof<P> {
    /// The public values of either variant.
    pub open spec fn p_vals(self) -> PublicValues {
        match self {
            TxnAggregatableProof::Txn(info) => info.p_vals,
            TxnAggregatableProof::Agg(info) => info.p_vals,
        }
    }

    /// The public values of either variant.
    pub fn public_values(&self) -> (r: PublicValues)
        ensures
            r == self.p_vals(),
    {
        match self {
            TxnAggregatableProof::Txn(info) => info.p_vals,
            TxnAggregatableProof::Agg(info) => info.p_vals,
        }
    }

    /// Takes a segment-tier proof into the transaction tier, with the same
    /// public values and artifact and the same shape.
    pub fn from_segment(made: SegmentAggregatableProof<P>) -> (r: Self)
        ensures
            r == reinterpreted(made),
            r.p_vals() == made.p_vals(),
    {
        match made {
            SegmentAggregatableProof::Agg(info) => TxnAggregatableProof::Agg(info),
            SegmentAggregatableProof::Seg(info) => TxnAggregatableProof::Txn(info),
        }
    }
}

/// A segment-tier proof seen as an element of the next tier: an aggregate
/// stays an aggregate, a single segment's proof stays a leaf.
pub open spec fn reinterpreted<P>(made: SegmentAggregatableProof<P>) -> TxnAggregatableProof<P> {
    match made {
        SegmentAggregatableProof::Agg(info) => TxnAggregatableProof::Agg(info),
        SegmentAggregatableProof::Seg(info) => TxnAggregatableProof::Txn(info),
    }
}

/// The step that the folded segments of a transaction call for.
pub open spec fn transaction_step<P>(folded: SegmentAggregatableProof<P>) -> TransactionStep<P> {
    match folded {
        SegmentAggregatableProof::Agg(info) => TransactionStep::Ready(
            TxnAggregatableProof::Agg(info),
        ),
        SegmentAggregatableProof::Seg(info) => TransactionStep::SelfCombine(info),
    }
}

/// Decides what becomes of the folded segments of one transaction. An
/// aggregate passes on as the transaction's proof, with the same public
/// values and artifact. A lone segment proof is sent back to be combined
/// with itself, so that only aggregates reach the next tier.
pub fn finish_transaction<P>(folded: SegmentAggregatableProof<P>) -> (r: TransactionStep<P>)
    ensures
        r == transaction_step(folded),
{
    match folded {
        SegmentAggregatableProof::Agg(info) => TransactionStep::Ready(
            TxnAggregatableProof::Agg(info),
        ),
        SegmentAggregatableProof::Seg(info) => TransactionStep::SelfCombine(info),
    }
}

} // verus!
