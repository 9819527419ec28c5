//! The block selection of the command line: a single block number, or two
//! of them joined by `..=`.
use vstd::prelude::*;
use vstd::string::StringSliceAdditionalSpecFns;

verus! {

/// The blocks to prove.
#[derive(Clone, Copy, Debug, PartialEq, Eq, Structural)]
pub enum BlockNumbers {
    Single(u64),
    RangeInclusive { start: u64, end: u64 },
}

/// Why a text selects no blocks.
#[derive(Clone, Copy, Debug, PartialEq, Eq, Structural)]
pub enum BlockNumbersError {
    /// A range lacks one of its two values.
    MissingValue,
    /// A value of the range is no number that fits in 64 bits.
    InvalidValue,
    /// More text follows the second value of the range.
    TrailingCharacters,
}

/// Where the next piece of a text starts, as long as pieces are left.
pub type Pieces = Option<usize>;

/// The byte is one of the characters `0` to `9`.
pub open spec fn is_digit(byte: u8) -> bool {
    48 <= byte <= 57
}

/// Every byte of `text` is a decimal digit.
pub open spec fn all_digits(text: Seq<u8>) -> bool {
    forall|i: int| 0 <= i < text.len() ==> is_digit(#[trigger] text[i])
}

/// The number that a run of decimal digits stands for.
pub open spec fn digits_value(text: Seq<u8>) -> nat
    decreases text.len(),
{
    if text.len() == 0 {
        0
    } else {
        digits_value(text.drop_last()) * 10 + (if is_digit(text.last()) {
            (text.last() - 48) as nat
        } else {
            0
        })
    }
}

/// The digits of a number's text: the text without a leading plus sign.
pub open spec fn unsigned_part(text: Seq<u8>) -> Seq<u8> {
    if text.len() > 0 && text[0] == 43 {
        text.subrange(1, text.len() as int)
    } else {
        text
    }
}

/// The number that `text` is the decimal notation of: one or more digits,
/// after at most one plus sign, that stand for a number below 2^64.
pub open spec fn parsed_u64(text: Seq<u8>) -> Option<u64> {
    let digits = unsigned_part(text);
    if digits.len() > 0 && all_digits(digits) && digits_value(digits) <= u64::MAX {
        Some(digits_value(digits) as u64)
    } else {
        None
    }
}

/// The separator `..=` stands at place `at` of `text`.
pub open spec fn separator_at(text: Seq<u8>, at: int) -> bool {
    0 <= at && at + 3 <= text.len() && text[at] == 46 && text[at + 1] == 46 && text[at + 2] == 61
}

/// The place of the first separator at or after `from`, or the length of
/// `text` where there is none.
pub open spec fn first_separator(text: Seq<u8>, from: int) -> int
    decreases text.len() - from,
{
    if from < 0 || from + 3 > text.len() {
        text.len() as int
    } else if separator_at(text, from) {
        from
    } else {
        first_separator(text, from + 1)
    }
}

/// The piece of `text` that starts at `from`: it runs up to the next
/// separator, or to the end.
pub open spec fn piece_at(text: Seq<u8>, from: int) -> Seq<u8> {
    text.subrange(from, first_separator(text, from))
}

/// The pieces that are left after the one that starts at `from`.
pub open spec fn pieces_after(text: Seq<u8>, from: int) -> Pieces {
    if first_separator(text, from) < text.len() {
        Some((first_separator(text, from) + 3) as usize)
    } else {
        None
    }
}

/// The value of the next piece, and the pieces left after it.
pub open spec fn next_value(text: Seq<u8>, pieces: Pieces) -> (
    Result<u64, BlockNumbersError>,
    Pieces,
) {
    match pieces {
        None => (Err(BlockNumbersError::MissingValue), None),
        Some(from) => (
            match parsed_u64(piece_at(text, from as int)) {
                Some(value) => Ok(value),
                None => Err(BlockNumbersError::InvalidValue),
            },
            pieces_after(text, from as int),
        ),
    }
}

/// The blocks that `text` selects. A text that is a number selects that one
/// block. Any other text is cut at each `..=`: the first two pieces are the
/// first and last block of a range, and no third piece may follow.
pub open spec fn parsed_block_numbers(text: Seq<u8>) -> Result<BlockNumbers, BlockNumbersError> {
    match parsed_u64(text) {
        Some(value) => Ok(BlockNumbers::Single(value)),
        None => {
            let (first, rest) = next_value(text, Some(0usize));
            match first {
                Err(e) => Err(e),
                Ok(start) => {
                    let (second, left) = next_value(text, rest);
                    match second {
                        Err(e) => Err(e),
                        Ok(end) => if left.is_some() {
                            Err(BlockNumbersError::TrailingCharacters)
                        } else {
                            Ok(BlockNumbers::RangeInclusive { start, end })
                        },
                    }
                },
            }
        },
    }
}

/// The place of a separator is at or after the place the search began at,
/// within the text, and no separator stands between the two.
pub proof fn lemma_first_separator(text: Seq<u8>, from: int)
    requires
        0 <= from <= text.len(),
    ensures
        from <= first_separator(text, from) <= text.len(),
        first_separator(text, from) < text.len() ==> separator_at(
            text,
            first_separator(text, from),
        ),
        forall|at: int| from <= at < first_separator(text, from) ==> !separator_at(text, at),
    decreases text.len() - from,
{
    if from + 3 <= text.len() && !separator_at(text, from) {
        lemma_first_separator(text, from + 1);
    }
}

/// A run of digits stands for no less than any of its beginnings.
pub proof fn lemma_digits_value_grows(text: Seq<u8>, upto: int)
    requires
        0 <= upto <= text.len(),
    ensures
        digits_value(text.subrange(0, upto)) <= digits_value(text),
    decreases text.len() - upto,
{
    if upto == text.len() {
        assert(text.subrange(0, upto) =~= text);
    } else {
        lemma_digits_value_grows(text.drop_last(), upto);
        assert(text.drop_last().subrange(0, upto) =~= text.subrange(0, upto));
    }
}

/// Reads the decimal number that the bytes from `from` up to `to` are the
/// notation of.
#[verifier::loop_isolation(false)]
pub fn parse_u64(text: &[u8], from: usize, to: usize) -> (r: Option<u64>)
    requires
        from <= to <= text.len(),
    ensures
        r == parsed_u64(text@.subrange(from as int, to as int)),
{
    let ghost whole = text@.subrange(from as int, to as int);
    let mut at = from;
    if at < to && text[at] == 43 {
        at = at + 1;
    }
    let ghost digits = unsigned_part(whole);
    assert(digits =~= text@.subrange(at as int, to as int));
    if at == to {
        return None;
    }
    let start = at;
    let mut value: u64 = 0;
    while at < to
        invariant
            start <= at <= to <= text.len(),
            digits == text@.subrange(start as int, to as int),
            all_digits(digits.subrange(0, at - start)),
            value == digits_value(digits.subrange(0, at - start)),
        decreases to - at,
    {
        let byte = text[at];
        let ghost seen = digits.subrange(0, at - start);
        let ghost longer = digits.subrange(0, at - start + 1);
        assert(longer.drop_last() =~= seen);
        assert(longer.last() == byte);
        if byte < 48 || byte > 57 {
            assert(!is_digit(digits[at - start]));
            return None;
        }
        let digit: u64 = (byte - 48) as u64;
        if value > 1844674407370955161 || (value == 1844674407370955161 && digit > 5) {
            proof {
                lemma_digits_value_grows(digits, at - start + 1);
                assert(digits_value(longer) == value * 10 + digit);
            }
            return None;
        }
        value = value * 10 + digit;
        at = at + 1;
        assert forall|i: int| 0 <= i < longer.len() implies is_digit(#[trigger] longer[i]) by {
            if i < seen.len() {
                assert(longer[i] == seen[i]);
            }
        }
    }
    assert(digits.subrange(0, at - start) =~= digits);
    Some(value)
}

/// Finds the first separator at or after `from`.
pub fn find_separator(text: &[u8], from: usize) -> (r: usize)
    requires
        from <= text.len(),
    ensures
        r == first_separator(text@, from as int),
        from <= r <= text.len(),
{
    let mut at = from;
    while text.len() - at >= 3
        invariant
            from <= at <= text.len(),
            first_separator(text@, from as int) == first_separator(text@, at as int),
        decreases text.len() - at,
    {
        if text[at] == 46 && text[at + 1] == 46 && text[at + 2] == 61 {
            return at;
        }
        at = at + 1;
    }
    text.len()
}

impl BlockNumbers {
    /// Takes the next piece of `text` and reads it as a number. Gives the
    /// number, or the reason why there is none, and the pieces that are left.
    pub fn next_and_try_parse(text: &[u8], pieces: Pieces) -> (r: (
        Result<u64, BlockNumbersError>,
        Pieces,
    ))
        requires
            pieces matches Some(from) ==> from <= text.len(),
        ensures
            r == next_value(text@, pieces),
            r.1 matches Some(from) ==> from <= text.len(),
    {
        match pieces {
            None => (Err(BlockNumbersError::MissingValue), None),
            Some(from) => {
                let end = find_separator(text, from);
                proof {
                    lemma_first_separator(text@, from as int);
                }
                let value = match parse_u64(text, from, end) {
                    Some(value) => Ok(value),
                    None => Err(BlockNumbersError::InvalidValue),
                };
                let left = if end < text.len() {
                    Some(end + 3)
                } else {
                    None
                };
                (value, left)
            },
        }
    }

    /// Reads the blocks that the bytes of a text select.
    pub fn from_bytes(text: &[u8]) -> (r: Result<BlockNumbers, BlockNumbersError>)
        ensures
            r == parsed_block_numbers(text@),
    {
        assert(text@.subrange(0, text@.len() as int) =~= text@);
        if let Some(value) = parse_u64(text, 0, text.len()) {
            return Ok(BlockNumbers::Single(value));
        }
        let (first, rest) = Self::next_and_try_parse(text, Some(0));
        let start = match first {
            Ok(start) => start,
            Err(e) => {
                return Err(e);
            },
        };
        let (second, left) = Self::next_and_try_parse(text, rest);
        let end = match second {
            Ok(end) => end,
            Err(e) => {
                return Err(e);
            },
        };
        if left.is_some() {
            return Err(BlockNumbersError::TrailingCharacters);
        }
        Ok(BlockNumbers::RangeInclusive { start, end })
    }

    /// Reads the blocks that `text` selects: a number, or two numbers joined
    /// by `..=`.
    pub fn from_str_intern(text: &str) -> (r: Result<BlockNumbers, BlockNumbersError>)
        ensures
            r == parsed_block_numbers(text.spec_bytes()),
    {
        Self::from_bytes(text.as_bytes())
    }

    /// The first and the last block of the selection.
    pub fn bounds(&self) -> (r: (u64, u64))
        ensures
            r == (match *self {
                BlockNumbers::Single(number) => (number, number),
                BlockNumbers::RangeInclusive { start, end } => (start, end),
            }),
    {
        match self {
            BlockNumbers::Single(number) => (*number, *number),
            BlockNumbers::RangeInclusive { start, end } => (*start, *end),
        }
    }
}

} // verus!
