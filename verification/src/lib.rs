//! Orchestration rules for proving a chain of blocks: how the proofs of a
//! block's segments and transactions are folded into one block proof, how
//! each block proof is linked to its predecessor, and the command-line
//! values that select blocks and circuit sizes.
pub mod block_numbers;
pub mod chain;
pub mod cli;
pub mod names;
pub mod ops;
pub mod ordering;
pub mod proofs;
pub mod prover;
pub mod prover_state;
pub mod public_values;
pub mod tree;
pub mod window;
