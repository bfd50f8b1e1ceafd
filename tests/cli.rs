use json_bench::cli_args::{check_none_zero_u32, check_none_zero_usize, parse_none_zero_u32, parse_none_zero_usize, ArgumentError};

#[test]
fn parses_positive_numbers() {
    assert_eq!(parse_none_zero_u32("5"), Ok(5));
    assert_eq!(parse_none_zero_usize("12"), Ok(12));
    assert_eq!(parse_none_zero_u32("4294967295"), Ok(u32::MAX));
}

#[test]
fn refuses_zero() {
    assert_eq!(parse_none_zero_u32("0"), Err(ArgumentError::Zero));
    assert_eq!(parse_none_zero_usize("0"), Err(ArgumentError::Zero));
}

#[test]
fn refuses_text_that_is_not_a_number() {
    assert_eq!(parse_none_zero_u32("five"), Err(ArgumentError::NotANumber));
    assert_eq!(parse_none_zero_u32("-1"), Err(ArgumentError::NotANumber));
    assert_eq!(parse_none_zero_u32("4294967296"), Err(ArgumentError::NotANumber));
    assert_eq!(parse_none_zero_usize(""), Err(ArgumentError::NotANumber));
}

#[test]
fn checks_parsed_values() {
    assert_eq!(check_none_zero_u32(Some(3)), Ok(3));
    assert_eq!(check_none_zero_u32(Some(0)), Err(ArgumentError::Zero));
    assert_eq!(check_none_zero_u32(None), Err(ArgumentError::NotANumber));
    assert_eq!(check_none_zero_usize(Some(9)), Ok(9));
    assert_eq!(check_none_zero_usize(None), Err(ArgumentError::NotANumber));
}
