use zero_prover::block_numbers::{find_separator, parse_u64, BlockNumbers, BlockNumbersError};

#[test]
fn single_number_selects_one_block() {
    assert_eq!(BlockNumbers::from_str_intern("5"), Ok(BlockNumbers::Single(5)));
    assert_eq!(BlockNumbers::from_str_intern("0"), Ok(BlockNumbers::Single(0)));
    assert_eq!(BlockNumbers::from_str_intern("007"), Ok(BlockNumbers::Single(7)));
    assert_eq!(BlockNumbers::from_str_intern("+12"), Ok(BlockNumbers::Single(12)));
}

#[test]
fn range_selects_first_and_last() {
    assert_eq!(
        BlockNumbers::from_str_intern("3..=7"),
        Ok(BlockNumbers::RangeInclusive { start: 3, end: 7 })
    );
    assert_eq!(
        BlockNumbers::from_str_intern("10..=10"),
        Ok(BlockNumbers::RangeInclusive { start: 10, end: 10 })
    );
    assert_eq!(
        BlockNumbers::from_str_intern("9..=2"),
        Ok(BlockNumbers::RangeInclusive { start: 9, end: 2 })
    );
}

#[test]
fn largest_number_is_read_and_the_next_is_not() {
    assert_eq!(
        BlockNumbers::from_str_intern("18446744073709551615"),
        Ok(BlockNumbers::Single(u64::MAX))
    );
    assert_eq!(
        BlockNumbers::from_str_intern("18446744073709551616"),
        Err(BlockNumbersError::InvalidValue)
    );
    assert_eq!(
        BlockNumbers::from_str_intern("99999999999999999999999"),
        Err(BlockNumbersError::InvalidValue)
    );
}

#[test]
fn text_that_is_no_number_is_invalid() {
    assert_eq!(BlockNumbers::from_str_intern(""), Err(BlockNumbersError::InvalidValue));
    assert_eq!(BlockNumbers::from_str_intern("abc"), Err(BlockNumbersError::InvalidValue));
    assert_eq!(BlockNumbers::from_str_intern("-5"), Err(BlockNumbersError::InvalidValue));
    assert_eq!(BlockNumbers::from_str_intern("+"), Err(BlockNumbersError::InvalidValue));
    assert_eq!(BlockNumbers::from_str_intern(" 5"), Err(BlockNumbersError::InvalidValue));
    assert_eq!(BlockNumbers::from_str_intern("1..2"), Err(BlockNumbersError::InvalidValue));
    assert_eq!(BlockNumbers::from_str_intern("5..="), Err(BlockNumbersError::InvalidValue));
    assert_eq!(BlockNumbers::from_str_intern("..=5"), Err(BlockNumbersError::InvalidValue));
    assert_eq!(BlockNumbers::from_str_intern("1..=x"), Err(BlockNumbersError::InvalidValue));
}

#[test]
fn third_piece_is_refused() {
    assert_eq!(
        BlockNumbers::from_str_intern("1..=2..=3"),
        Err(BlockNumbersError::TrailingCharacters)
    );
    assert_eq!(
        BlockNumbers::from_str_intern("1..=2..="),
        Err(BlockNumbersError::TrailingCharacters)
    );
}

#[test]
fn missing_piece_is_reported() {
    let text = "12".as_bytes();
    let (first, rest) = BlockNumbers::next_and_try_parse(text, Some(0));
    assert_eq!(first, Ok(12));
    assert_eq!(rest, None);
    let (second, left) = BlockNumbers::next_and_try_parse(text, rest);
    assert_eq!(second, Err(BlockNumbersError::MissingValue));
    assert_eq!(left, None);
}

#[test]
fn pieces_are_taken_in_turn() {
    let text = "4..=25..=x".as_bytes();
    let (first, rest) = BlockNumbers::next_and_try_parse(text, Some(0));
    assert_eq!(first, Ok(4));
    assert_eq!(rest, Some(4));
    let (second, rest) = BlockNumbers::next_and_try_parse(text, rest);
    assert_eq!(second, Ok(25));
    assert_eq!(rest, Some(9));
    let (third, rest) = BlockNumbers::next_and_try_parse(text, rest);
    assert_eq!(third, Err(BlockNumbersError::InvalidValue));
    assert_eq!(rest, None);
}

#[test]
fn separator_is_found_leftmost() {
    let text = "a..=b..=c".as_bytes();
    assert_eq!(find_separator(text, 0), 1);
    assert_eq!(find_separator(text, 1), 1);
    assert_eq!(find_separator(text, 2), 5);
    assert_eq!(find_separator(text, 6), 9);
    assert_eq!(find_separator("...=".as_bytes(), 0), 1);
    assert_eq!(find_separator("".as_bytes(), 0), 0);
}

#[test]
fn numbers_are_read_as_the_standard_library_reads_them() {
    let samples = [
        "0", "1", "42", "+42", "-42", "++1", "", "+", "1_000", "0x10", "000", "18446744073709551615",
        "18446744073709551616", "184467440737095516150", "9a", "a9", " 9", "9 ", "1.5",
    ];
    for sample in samples {
        let expected: Option<u64> = sample.parse::<u64>().ok();
        let bytes = sample.as_bytes();
        assert_eq!(parse_u64(bytes, 0, bytes.len()), expected, "sample {:?}", sample);
    }
}

#[test]
fn number_is_read_from_a_part_of_the_text() {
    let bytes = "ab123cd".as_bytes();
    assert_eq!(parse_u64(bytes, 2, 5), Some(123));
    assert_eq!(parse_u64(bytes, 2, 6), None);
    assert_eq!(parse_u64(bytes, 3, 3), None);
}

#[test]
fn bounds_of_a_selection() {
    assert_eq!(BlockNumbers::Single(8).bounds(), (8, 8));
    assert_eq!(BlockNumbers::RangeInclusive { start: 2, end: 6 }.bounds(), (2, 6));
}
