//! The public values of a proof, as far as the orchestration reads them, and
//! the rule by which two neighbouring proofs' values become the values of
//! their aggregate.
use vstd::prelude::*;

verus! {

/// The machine's registers at a segment boundary.
#[derive(Clone, Copy, Debug, PartialEq, Eq, Structural)]
pub struct RegisterState {
    pub program_counter: u64,
    pub stack_len: u64,
    pub context: u64,
    pub gas_used: u64,
    pub is_kernel: bool,
}

/// What a proof states in public: the block it belongs to, the transactions
/// it covers, and the register state at which it starts and ends.
#[derive(Clone, Copy, Debug, PartialEq, Eq, Structural)]
pub struct PublicValues {
    pub block_number: u64,
    pub txn_number_before: u64,
    pub txn_number_after: u64,
    pub registers_before: RegisterState,
    pub registers_after: RegisterState,
}

/// The public values of the aggregate of `lhs` and `rhs`: it starts where
/// `lhs` starts and ends where `rhs` ends. With a dummy tail `rhs` is only a
/// placeholder, and the aggregate ends where `lhs` ends.
pub open spec fn joined(lhs: PublicValues, rhs: PublicValues, is_dummy_tail: bool) -> PublicValues {
    let tail = if is_dummy_tail {
        lhs
    } else {
        rhs
    };
    PublicValues {
        block_number: tail.block_number,
        txn_number_before: lhs.txn_number_before,
        txn_number_after: tail.txn_number_after,
        registers_before: lhs.registers_before,
        registers_after: tail.registers_after,
    }
}

/// The public values of the strict left-to-right fold of `values`, which
/// holds at least one element.
pub open spec fn folded(values: Seq<PublicValues>) -> PublicValues
    recommends
        values.len() >= 1,
    decreases values.len(),
{
    if values.len() <= 1 {
        values[0]
    } else {
        joined(folded(values.drop_last()), values.last(), false)
    }
}

/// Computes [`joined`].
pub fn join_public_values(lhs: &PublicValues, rhs: &PublicValues, is_dummy_tail: bool) -> (r:
    PublicValues)
    ensures
        r == joined(*lhs, *rhs, is_dummy_tail),
{
    let tail = if is_dummy_tail {
        lhs
    } else {
        rhs
    };
    PublicValues {
        block_number: tail.block_number,
        txn_number_before: lhs.txn_number_before,
        txn_number_after: tail.txn_number_after,
        registers_before: lhs.registers_before,
        registers_after: tail.registers_after,
    }
}

/// Combining is associative: how three neighbours are bracketed does not
/// change the aggregate's public values.
pub proof fn lemma_joined_associative(a: PublicValues, b: PublicValues, c: PublicValues)
    ensures
        joined(joined(a, b, false), c, false) == joined(a, joined(b, c, false), false),
{
}

/// A proof combined with itself as a dummy tail keeps its public values:
/// the aggregate starts and ends exactly where the single proof does.
pub proof fn lemma_self_combination_keeps_values(a: PublicValues)
    ensures
        joined(a, a, true) == a,
        joined(a, a, true).registers_before == a.registers_before,
        joined(a, a, true).registers_after == a.registers_after,
{
}

/// A fold starts where its first element starts and ends where its last
/// element ends.
pub proof fn lemma_folded_ends(values: Seq<PublicValues>)
    requires
        values.len() >= 1,
    ensures
        folded(values).registers_before == values.first().registers_before,
        folded(values).txn_number_before == values.first().txn_number_before,
        folded(values).registers_after == values.last().registers_after,
        folded(values).txn_number_after == values.last().txn_number_after,
        folded(values).block_number == values.last().block_number,
    decreases values.len(),
{
    if values.len() > 1 {
        lemma_folded_ends(values.drop_last());
    }
}

/// The fold of a single element is that element: no combination takes place.
pub proof fn lemma_folded_single(value: PublicValues)
    ensures
        folded(seq![value]) == value,
{
}

/// Folding two neighbouring runs apart and combining the two results gives
/// the fold of the whole run. So every reduction that keeps the elements'
/// order, whatever its shape, agrees with the left-to-right fold.
pub proof fn lemma_folded_split(front: Seq<PublicValues>, back: Seq<PublicValues>)
    requires
        front.len() >= 1,
        back.len() >= 1,
    ensures
        folded(front + back) == joined(folded(front), folded(back), false),
    decreases back.len(),
{
    let whole = front + back;
    assert(whole.drop_last() =~= front + back.drop_last());
    assert(whole.last() == back.last());
    if back.len() == 1 {
        assert(front + back.drop_last() =~= front);
    } else {
        lemma_folded_split(front, back.drop_last());
        lemma_joined_associative(folded(front), folded(back.drop_last()), back.last());
    }
}

/// Where every element belongs to one block, so does the fold.
pub proof fn lemma_folded_keeps_block(values: Seq<PublicValues>, block_number: u64)
    requires
        values.len() >= 1,
        forall|i: int| 0 <= i < values.len() ==> (#[trigger] values[i]).block_number == block_number,
    ensures
        folded(values).block_number == block_number,
{
    lemma_folded_ends(values);
}

} // verus!
