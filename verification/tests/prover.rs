use zero_prover::ops::{BlockProof, FailedInput, FatalStrategy, OperationFailure};
use zero_prover::proofs::{GeneratedBlockProof, GeneratedProof, TxnAggregatableProof};
use zero_prover::prover::{
    BlockFailure, BlockProofJob, BlockProverInput, HandoffClosed, ProveError, ProverInput, U256,
};
use zero_prover::public_values::{PublicValues, RegisterState};

fn values(block_number: u64) -> PublicValues {
    let registers = RegisterState { program_counter: 0, stack_len: 0, context: 0, gas_used: 0, is_kernel: true };
    PublicValues {
        block_number,
        txn_number_before: 0,
        txn_number_after: 2,
        registers_before: registers,
        registers_after: registers,
    }
}

fn block(number: u64) -> BlockProverInput<()> {
    BlockProverInput { block_number: U256 { limbs: [number, 0, 0, 0] }, block_trace: () }
}

fn aggregate(block_number: u64) -> TxnAggregatableProof<u32> {
    TxnAggregatableProof::Agg(GeneratedProof { p_vals: values(block_number), intern: block_number as u32 })
}

#[test]
fn small_numbers_fit_in_64_bits() {
    assert_eq!(U256 { limbs: [0, 0, 0, 0] }.to_u64(), Some(0));
    assert_eq!(U256 { limbs: [19_000_000, 0, 0, 0] }.to_u64(), Some(19_000_000));
    assert_eq!(U256 { limbs: [u64::MAX, 0, 0, 0] }.to_u64(), Some(u64::MAX));
}

#[test]
fn large_numbers_do_not_fit() {
    assert_eq!(U256 { limbs: [0, 1, 0, 0] }.to_u64(), None);
    assert_eq!(U256 { limbs: [5, 0, 1, 0] }.to_u64(), None);
    assert_eq!(U256 { limbs: [5, 0, 0, 1] }.to_u64(), None);
    assert_eq!(U256 { limbs: [u64::MAX; 4] }.to_u64(), None);
}

#[test]
fn block_number_is_handed_out() {
    assert_eq!(block(12).get_block_number(), U256 { limbs: [12, 0, 0, 0] });
}

#[test]
fn checkpoint_block_is_linked_to_nothing() {
    let r = block(12).prove::<u32, u64, HandoffClosed>(aggregate(12), None, true);
    assert_eq!(
        r,
        Ok(BlockProofJob {
            op: BlockProof { prev: None, save_inputs_on_error: true },
            input: GeneratedProof { p_vals: values(12), intern: 12 },
        })
    );
}

#[test]
fn later_block_is_linked_to_its_predecessor() {
    let previous = GeneratedBlockProof { b_height: 11, intern: 1100u64 };
    let r = block(12).prove::<u32, u64, HandoffClosed>(aggregate(12), Some(Ok(previous.clone())), false);
    assert_eq!(
        r,
        Ok(BlockProofJob {
            op: BlockProof { prev: Some(previous), save_inputs_on_error: false },
            input: GeneratedProof { p_vals: values(12), intern: 12 },
        })
    );
}

#[test]
fn proof_that_is_no_aggregate_is_refused() {
    let leaf = TxnAggregatableProof::Txn(GeneratedProof { p_vals: values(12), intern: 1u32 });
    let r = block(12).prove::<u32, u64, HandoffClosed>(leaf.clone(), None, true);
    assert_eq!(r, Err(ProveError::NotAggregated));
    // The shape is looked at before anything else.
    let huge = BlockProverInput { block_number: U256 { limbs: [0, 1, 0, 0] }, block_trace: () };
    let r = huge.prove::<u32, u64, HandoffClosed>(leaf, Some(Err(HandoffClosed)), true);
    assert_eq!(r, Err(ProveError::NotAggregated));
}

#[test]
fn block_number_beyond_64_bits_is_refused() {
    let huge = BlockProverInput { block_number: U256 { limbs: [12, 0, 0, 1] }, block_trace: () };
    let r = huge.prove::<u32, u64, HandoffClosed>(aggregate(12), None, true);
    assert_eq!(r, Err(ProveError::BlockNumberOverflow));
    let r = huge.prove::<u32, u64, HandoffClosed>(aggregate(12), Some(Err(HandoffClosed)), true);
    assert_eq!(r, Err(ProveError::BlockNumberOverflow));
    assert_eq!(
        huge.final_aggregate::<u32, HandoffClosed>(aggregate(12)),
        Err(ProveError::BlockNumberOverflow)
    );
}

#[test]
fn missing_predecessor_is_a_chain_linkage_error() {
    let r = block(12).prove::<u32, u64, HandoffClosed>(aggregate(12), Some(Err(HandoffClosed)), true);
    assert_eq!(r, Err(ProveError::ChainLinkage(HandoffClosed)));
}

#[test]
fn final_aggregate_is_handed_out() {
    assert_eq!(
        block(12).final_aggregate::<u32, HandoffClosed>(aggregate(12)),
        Ok(GeneratedProof { p_vals: values(12), intern: 12 })
    );
}

#[test]
fn first_block_starts_from_the_given_proof() {
    let input: ProverInput<()> = ProverInput { blocks: vec![block(5), block(6)] };
    assert_eq!(input.first_previous::<u64>(None), None);
    let given = GeneratedBlockProof { b_height: 4, intern: 400u64 };
    assert_eq!(input.first_previous(Some(given.clone())), Some(Ok(given)));
}

#[test]
fn later_blocks_receive_what_was_published() {
    let input: ProverInput<()> = ProverInput { blocks: vec![block(5), block(6)] };
    let published = GeneratedBlockProof { b_height: 5, intern: 500u64 };
    assert_eq!(input.next_previous(Some(published.clone())), Some(Ok(published)));
    assert_eq!(input.next_previous::<u64>(None), Some(Err(HandoffClosed)));
}

// Proves the blocks one after another. `pipelined` hands each proof on
// through `next_previous`; otherwise each result is threaded by hand.
fn run_chain(
    start: Option<GeneratedBlockProof<u64>>,
    numbers: &[u64],
    pipelined: bool,
) -> Vec<Result<GeneratedBlockProof<u64>, String>> {
    let input: ProverInput<()> = ProverInput { blocks: numbers.iter().map(|&n| block(n)).collect() };
    let mut previous = input.first_previous(start);
    let mut results = Vec::new();
    for current in &input.blocks {
        let number = current.block_number.limbs[0];
        let result = match current.prove::<u32, u64, HandoffClosed>(aggregate(number), previous.clone(), false) {
            Err(e) => Err(format!("{:?}", e)),
            Ok(job) => {
                let base = match &job.op.prev {
                    Some(p) => p.intern,
                    None => 0,
                };
                job.settle::<String, HandoffClosed>(Ok(base + number))
                    .map_err(|f| format!("{:?}", f))
            }
        };
        previous = if pipelined {
            input.next_previous(result.clone().ok())
        } else {
            match &result {
                Ok(made) => Some(Ok(made.clone())),
                Err(_) => Some(Err(HandoffClosed)),
            }
        };
        results.push(result);
    }
    results
}

#[test]
fn pipelined_chain_gives_the_hand_threaded_proofs() {
    let start = Some(GeneratedBlockProof { b_height: 99, intern: 1000u64 });
    let piped = run_chain(start.clone(), &[100, 101, 102], true);
    let by_hand = run_chain(start, &[100, 101, 102], false);
    assert_eq!(piped, by_hand);
    assert_eq!(
        piped,
        vec![
            Ok(GeneratedBlockProof { b_height: 100, intern: 1100 }),
            Ok(GeneratedBlockProof { b_height: 101, intern: 1201 }),
            Ok(GeneratedBlockProof { b_height: 102, intern: 1303 }),
        ]
    );
}

#[test]
fn heights_in_a_chain_rise_by_one() {
    let start = GeneratedBlockProof { b_height: 99, intern: 1000u64 };
    let results = run_chain(Some(start.clone()), &[100, 101, 102], true);
    let mut below = start.b_height;
    for (i, r) in results.iter().enumerate() {
        let made = r.clone().unwrap();
        assert_eq!(made.b_height, 100 + i as u64);
        assert_eq!(made.b_height, below + 1);
        below = made.b_height;
    }
}

#[test]
fn checkpoint_chain_starts_without_a_predecessor() {
    let results = run_chain(None, &[7, 8], true);
    assert_eq!(
        results,
        vec![
            Ok(GeneratedBlockProof { b_height: 7, intern: 7 }),
            Ok(GeneratedBlockProof { b_height: 8, intern: 15 }),
        ]
    );
}

#[test]
fn run_of_proved_blocks_gives_all_proofs() {
    let input: ProverInput<()> = ProverInput { blocks: vec![block(5), block(6)] };
    let outcomes: Vec<Result<GeneratedBlockProof<u64>, String>> = vec![
        Ok(GeneratedBlockProof { b_height: 5, intern: 50 }),
        Ok(GeneratedBlockProof { b_height: 6, intern: 60 }),
    ];
    assert_eq!(
        input.collect(outcomes),
        Ok(vec![
            GeneratedBlockProof { b_height: 5, intern: 50 },
            GeneratedBlockProof { b_height: 6, intern: 60 },
        ])
    );
    assert_eq!(input.collect(Vec::<Result<GeneratedBlockProof<u64>, String>>::new()), Ok(vec![]));
}

#[test]
fn run_with_failures_gives_the_first_failure() {
    let input: ProverInput<()> = ProverInput { blocks: vec![block(5), block(6), block(7)] };
    let outcomes: Vec<Result<GeneratedBlockProof<u64>, String>> = vec![
        Ok(GeneratedBlockProof { b_height: 5, intern: 50 }),
        Err("block 6 failed".to_string()),
        Err("block 7 has no predecessor".to_string()),
    ];
    assert_eq!(input.collect(outcomes), Err("block 6 failed".to_string()));
}

#[test]
fn failed_block_breaks_the_chain_behind_it() {
    let input: ProverInput<()> = ProverInput { blocks: vec![block(5), block(6)] };
    let failed: Result<GeneratedBlockProof<u64>, String> = Err("block 5 failed".to_string());
    let previous = input.next_previous(failed.ok());
    let r = block(6).prove::<u32, u64, HandoffClosed>(aggregate(6), previous, false);
    assert_eq!(r, Err(ProveError::ChainLinkage(HandoffClosed)));
}

#[test]
fn job_settles_with_the_answer_of_the_capability() {
    let job = block(12).prove::<u32, u64, HandoffClosed>(aggregate(12), None, true).unwrap();
    assert_eq!(
        job.clone().settle::<String, HandoffClosed>(Ok(77)),
        Ok(GeneratedBlockProof { b_height: 12, intern: 77 })
    );
    assert_eq!(
        job.settle::<String, HandoffClosed>(Err("no proof".to_string())),
        Err(BlockFailure::Operation(OperationFailure {
            cause: "no proof".to_string(),
            strategy: FatalStrategy::Terminate,
            input: FailedInput::BlockInput { block_number: 12, input: values(12) },
            save_input: true,
        }))
    );
}
