use zero_prover::names::{get_descriptor, get_id, proof_file_name, push_decimal, push_hex};
use zero_prover::ops::{FailedInput, SegmentId};
use zero_prover::public_values::{PublicValues, RegisterState};

fn values(block_number: u64) -> PublicValues {
    let registers = RegisterState { program_counter: 0, stack_len: 0, context: 0, gas_used: 0, is_kernel: true };
    PublicValues {
        block_number,
        txn_number_before: 0,
        txn_number_after: 2,
        registers_before: registers,
        registers_after: registers,
    }
}

#[test]
fn decimal_notation() {
    for n in [0u64, 7, 10, 99, 100, 1234567890, u64::MAX] {
        let mut out = String::from("n=");
        push_decimal(&mut out, n);
        assert_eq!(out, format!("n={}", n));
    }
}

#[test]
fn hexadecimal_notation() {
    let mut out = String::from("0x");
    push_hex(&mut out, &[0x00, 0x0f, 0xa5, 0xff, 0x10]);
    assert_eq!(out, "0x000fa5ff10");
    let mut empty = String::new();
    push_hex(&mut empty, &[]);
    assert_eq!(empty, "");
}

#[test]
fn task_identifier() {
    let id = SegmentId { block_number: 19, txn_number_before: 3, segment_index: 12 };
    assert_eq!(get_id(&id), "b19 - 3 - 12");
}

#[test]
fn descriptor_without_transactions() {
    assert_eq!(get_descriptor(&vec![]), "Dummy");
}

#[test]
fn descriptor_of_one_transaction_is_its_hash() {
    // The Keccak-256 digest of the empty input.
    assert_eq!(
        get_descriptor(&vec![vec![]]),
        "c5d2460186f7233c927e7db2dcc703c0e500b653ca82273b7bfad8045d85a470"
    );
    // The Keccak-256 digest of "abc".
    assert_eq!(
        get_descriptor(&vec![b"abc".to_vec()]),
        "4e03657aea45a94fc7d47ba826c8d667c0d1e6e33a64a036ec44f58fa12d6c45"
    );
}

#[test]
fn descriptor_of_several_transactions_names_first_and_last() {
    let txns = vec![b"abc".to_vec(), vec![1, 2, 3], vec![]];
    assert_eq!(
        get_descriptor(&txns),
        "4e03657aea45a94fc7d47ba826c8d667c0d1e6e33a64a036ec44f58fa12d6c45 - \
         c5d2460186f7233c927e7db2dcc703c0e500b653ca82273b7bfad8045d85a470"
    );
}

#[test]
fn descriptor_agrees_with_the_hash_crate() {
    let txn = vec![0xf8u8, 0x6b, 0x01, 0x02, 0x03];
    assert_eq!(get_descriptor(&vec![txn.clone()]), format!("{:x}", keccak_hash::keccak(&txn)));
}

#[test]
fn dump_file_names() {
    let id = SegmentId { block_number: 19, txn_number_before: 3, segment_index: 12 };
    assert_eq!(FailedInput::SegmentInput { id }.file_name(), "b19_txn_3_input_12.log");
    assert_eq!(
        FailedInput::AggregateInputs { block_number: 19, lhs: values(19), rhs: values(19) }.file_name(),
        "b19_agg_lhs_rhs_inputs.log"
    );
    assert_eq!(
        FailedInput::BlockInput { block_number: 0, input: values(0) }.file_name(),
        "b0_block_input.log"
    );
}

#[test]
fn proof_file_names() {
    assert_eq!(proof_file_name(0), "b0.zkproof");
    assert_eq!(proof_file_name(18446744073709551615), "b18446744073709551615.zkproof");
}
