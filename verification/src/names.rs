//! The texts by which proving work is named: the identifier and descriptor
//! of a segment's proving task in the log, and the files that the inputs of
//! failed operations are saved to.
use vstd::prelude::*;
use vstd::string::StringExecFns;
use crate::ops::{FailedInput, SegmentId};

verus! {

/// The Keccak-256 digest of `data`, 32 bytes.
pub uninterp spec fn keccak_of(data: Seq<u8>) -> Seq<u8>;

/// Calls `keccak_hash::keccak` on `data` and hands out the 32 bytes of the
/// hash it returns. The contract claims that the digest depends on the bytes
/// of `data` alone.
#[verifier::external_body]
fn keccak(data: &[u8]) -> (digest: [u8; 32])
    ensures
        digest@ == keccak_of(data@),
{
    keccak_hash::keccak(data).0
}

/// The character for one hexadecimal digit, in lower case.
pub open spec fn hex_char(digit: int) -> char {
    if digit == 0 {
        '0'
    } else if digit == 1 {
        '1'
    } else if digit == 2 {
        '2'
    } else if digit == 3 {
        '3'
    } else if digit == 4 {
        '4'
    } else if digit == 5 {
        '5'
    } else if digit == 6 {
        '6'
    } else if digit == 7 {
        '7'
    } else if digit == 8 {
        '8'
    } else if digit == 9 {
        '9'
    } else if digit == 10 {
        'a'
    } else if digit == 11 {
        'b'
    } else if digit == 12 {
        'c'
    } else if digit == 13 {
        'd'
    } else if digit == 14 {
        'e'
    } else {
        'f'
    }
}

/// The decimal notation of `n`, without leading zeros.
pub open spec fn decimal_text(n: nat) -> Seq<char>
    decreases n,
{
    if n < 10 {
        seq![hex_char(n as int)]
    } else {
        decimal_text(n / 10).push(hex_char((n % 10) as int))
    }
}

/// The hexadecimal notation of `bytes`, two lower-case digits for each.
pub open spec fn hex_text(bytes: Seq<u8>) -> Seq<char>
    decreases bytes.len(),
{
    if bytes.len() == 0 {
        Seq::empty()
    } else {
        hex_text(bytes.drop_last()).push(hex_char(bytes.last() as int / 16)).push(
            hex_char(bytes.last() as int % 16),
        )
    }
}

/// The identifier of a segment's proving task.
pub open spec fn id_text(id: SegmentId) -> Seq<char> {
    "b"@ + decimal_text(id.block_number as nat) + " - "@ + decimal_text(
        id.txn_number_before as nat,
    ) + " - "@ + decimal_text(id.segment_index as nat)
}

/// The descriptor of a proving task over the signed transactions `txns`:
/// the hash of the only transaction, the hashes of the first and the last,
/// or a fixed word where there is none.
pub open spec fn descriptor_text(txns: Seq<Vec<u8>>) -> Seq<char> {
    if txns.len() == 0 {
        "Dummy"@
    } else if txns.len() == 1 {
        hex_text(keccak_of(txns[0]@))
    } else {
        hex_text(keccak_of(txns.first()@)) + " - "@ + hex_text(keccak_of(txns.last()@))
    }
}

/// The name of the file that the input of a failed operation is saved to.
pub open spec fn file_name_text(input: FailedInput) -> Seq<char> {
    match input {
        FailedInput::SegmentInput { id } => "b"@ + decimal_text(id.block_number as nat) + "_txn_"@
            + decimal_text(id.txn_number_before as nat) + "_input_"@ + decimal_text(
            id.segment_index as nat,
        ) + ".log"@,
        FailedInput::AggregateInputs { block_number, .. } => "b"@ + decimal_text(
            block_number as nat,
        ) + "_agg_lhs_rhs_inputs.log"@,
        FailedInput::BlockInput { block_number, .. } => "b"@ + decimal_text(block_number as nat)
            + "_block_input.log"@,
    }
}

/// The name of the file that the proof of block `block_number` is written
/// to.
pub open spec fn proof_file_text(block_number: u64) -> Seq<char> {
    "b"@ + decimal_text(block_number as nat) + ".zkproof"@
}

fn hex_digit_text(digit: u8) -> (r: &'static str)
    requires
        digit < 16,
    ensures
        r@ == seq![hex_char(digit as int)],
{
    proof {
        reveal_strlit("0");
        reveal_strlit("1");
        reveal_strlit("2");
        reveal_strlit("3");
        reveal_strlit("4");
        reveal_strlit("5");
        reveal_strlit("6");
        reveal_strlit("7");
        reveal_strlit("8");
        reveal_strlit("9");
        reveal_strlit("a");
        reveal_strlit("b");
        reveal_strlit("c");
        reveal_strlit("d");
        reveal_strlit("e");
        reveal_strlit("f");
    }
    let r = match digit {
        0 => "0",
        1 => "1",
        2 => "2",
        3 => "3",
        4 => "4",
        5 => "5",
        6 => "6",
        7 => "7",
        8 => "8",
        9 => "9",
        10 => "a",
        11 => "b",
        12 => "c",
        13 => "d",
        14 => "e",
        _ => "f",
    };
    assert(r@ =~= seq![hex_char(digit as int)]);
    r
}

/// Writes the decimal notation of `n` at the end of `out`.
pub fn push_decimal(out: &mut String, n: u64)
    ensures
        final(out)@ == old(out)@ + decimal_text(n as nat),
    decreases n,
{
    if n >= 10 {
        push_decimal(out, n / 10);
    }
    let ghost before = out@;
    out.append(hex_digit_text((n % 10) as u8));
    assert(out@ =~= old(out)@ + decimal_text(n as nat));
}

/// Writes the hexadecimal notation of `bytes` at the end of `out`.
pub fn push_hex(out: &mut String, bytes: &[u8])
    ensures
        final(out)@ == old(out)@ + hex_text(bytes@),
{
    let mut at: usize = 0;
    assert(bytes@.subrange(0, 0) =~= Seq::<u8>::empty());
    while at < bytes.len()
        invariant
            at <= bytes.len(),
            out@ == old(out)@ + hex_text(bytes@.subrange(0, at as int)),
        decreases bytes.len() - at,
    {
        let byte = bytes[at];
        let ghost seen = bytes@.subrange(0, at as int);
        let ghost longer = bytes@.subrange(0, at + 1);
        assert(longer.drop_last() =~= seen);
        assert(longer.last() == byte);
        out.append(hex_digit_text(byte / 16));
        out.append(hex_digit_text(byte % 16));
        at = at + 1;
        assert(out@ =~= old(out)@ + hex_text(longer));
    }
    assert(bytes@.subrange(0, at as int) =~= bytes@);
}

/// The identifier of the proving task of segment `id`, as the log shows it.
pub fn get_id(id: &SegmentId) -> (r: String)
    ensures
        r@ == id_text(*id),
{
    let mut out = String::from_str("b");
    push_decimal(&mut out, id.block_number);
    out.append(" - ");
    push_decimal(&mut out, id.txn_number_before);
    out.append(" - ");
    push_decimal(&mut out, id.segment_index);
    out
}

/// The descriptor of a proving task over the signed transactions
/// `signed_txns`, as the log shows it.
pub fn get_descriptor(signed_txns: &Vec<Vec<u8>>) -> (r: String)
    ensures
        r@ == descriptor_text(signed_txns@),
{
    if signed_txns.len() == 0 {
        String::from_str("Dummy")
    } else if signed_txns.len() == 1 {
        let digest = keccak(signed_txns[0].as_slice());
        let mut out = String::new();
        push_hex(&mut out, digest.as_slice());
        assert(out@ =~= descriptor_text(signed_txns@));
        out
    } else {
        let first = keccak(signed_txns[0].as_slice());
        let last = keccak(signed_txns[signed_txns.len() - 1].as_slice());
        let mut out = String::new();
        push_hex(&mut out, first.as_slice());
        out.append(" - ");
        push_hex(&mut out, last.as_slice());
        assert(out@ =~= descriptor_text(signed_txns@));
        out
    }
}

/// The name of the file that the proof of block `block_number` is written
/// to.
pub fn proof_file_name(block_number: u64) -> (r: String)
    ensures
        r@ == proof_file_text(block_number),
{
    let mut out = String::from_str("b");
    push_decimal(&mut out, block_number);
    out.append(".zkproof");
    out
}

impl FailedInput {
    /// The name of the file that the failing input is saved to. It is made
    /// of the block's number and, for a segment, of the transaction's number
    /// and the segment's index.
    pub fn file_name(&self) -> (r: String)
        ensures
            r@ == file_name_text(*self),
    {
        match self {
            FailedInput::SegmentInput { id } => {
                let mut out = String::from_str("b");
                push_decimal(&mut out, id.block_number);
                out.append("_txn_");
                push_decimal(&mut out, id.txn_number_before);
                out.append("_input_");
                push_decimal(&mut out, id.segment_index);
                out.append(".log");
                out
            },
            FailedInput::AggregateInputs { block_number, .. } => {
                let mut out = String::from_str("b");
                push_decimal(&mut out, *block_number);
                out.append("_agg_lhs_rhs_inputs.log");
                out
            },
            FailedInput::BlockInput { block_number, .. } => {
                let mut out = String::from_str("b");
                push_decimal(&mut out, *block_number);
                out.append("_block_input.log");
                out
            },
        }
    }
}

} // verus!
