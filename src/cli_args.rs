//! Checks on numeric command-line arguments.
use vstd::prelude::*;

verus! {

/// Why a numeric argument was refused.
#[derive(Debug, PartialEq, Eq, Structural, Clone, Copy)]
pub enum ArgumentError {
    /// The text is not a number of the expected type.
    NotANumber,
    /// The number is zero.
    Zero,
}

pub open spec fn is_ascii_digit(c: char) -> bool {
    '0' <= c && c <= '9'
}

/// The value of a string of ASCII digits, read in base 10.
pub open spec fn digits_value(d: Seq<char>) -> nat
    decreases d.len(),
{
    if d.len() == 0 {
        0
    } else {
        digits_value(d.drop_last()) * 10 + ((d.last() as u32) - ('0' as u32)) as nat
    }
}

/// The value of an unsigned decimal numeral: an optional `+` followed by
/// one or more ASCII digits. `None` for any other text.
pub open spec fn decimal_of(s: Seq<char>) -> Option<nat> {
    let d = if s.len() > 0 && s[0] == '+' {
        s.drop_first()
    } else {
        s
    };
    if d.len() > 0 && forall|i: int| 0 <= i < d.len() ==> is_ascii_digit(#[trigger] d[i]) {
        Some(digits_value(d))
    } else {
        None
    }
}

/// What `str::parse::<u32>` returns, as an `Option`: the numeral's value
/// when it is one and fits.
pub open spec fn parsed_u32(s: Seq<char>) -> Option<u32> {
    match decimal_of(s) {
        Some(v) => if v <= u32::MAX {
            Some(v as u32)
        } else {
            None
        },
        None => None,
    }
}

/// What `str::parse::<usize>` returns, as an `Option`: the numeral's value
/// when it is one and fits.
pub open spec fn parsed_usize(s: Seq<char>) -> Option<usize> {
    match decimal_of(s) {
        Some(v) => if v <= usize::MAX {
            Some(v as usize)
        } else {
            None
        },
        None => None,
    }
}

/// Relies on `str::parse::<u32>` (`u32: FromStr`, which reads base 10): it
/// accepts an optional `+` and one or more ASCII digits whose value fits,
/// and fails on anything else; a failure becomes `None`.
#[verifier::external_body]
fn parse_u32(source: &str) -> (r: Option<u32>)
    ensures
        r == parsed_u32(source@),
{
    source.parse::<u32>().ok()
}

/// Relies on `str::parse::<usize>` (`usize: FromStr`, which reads base
/// 10): it accepts an optional `+` and one or more ASCII digits whose value
/// fits, and fails on anything else; a failure becomes `None`.
#[verifier::external_body]
fn parse_usize(source: &str) -> (r: Option<usize>)
    ensures
        r == parsed_usize(source@),
{
    source.parse::<usize>().ok()
}

/// The result of checking an already parsed `u32` argument.
pub open spec fn none_zero_u32(parsed: Option<u32>) -> Result<u32, ArgumentError> {
    match parsed {
        None => Err(ArgumentError::NotANumber),
        Some(n) => if n == 0 {
            Err(ArgumentError::Zero)
        } else {
            Ok(n)
        },
    }
}

/// The result of checking an already parsed `usize` argument.
pub open spec fn none_zero_usize(parsed: Option<usize>) -> Result<usize, ArgumentError> {
    match parsed {
        None => Err(ArgumentError::NotANumber),
        Some(n) => if n == 0 {
            Err(ArgumentError::Zero)
        } else {
            Ok(n)
        },
    }
}

/// Accepts a parsed `u32` argument unless parsing failed or it is zero.
pub fn check_none_zero_u32(parsed: Option<u32>) -> (r: Result<u32, ArgumentError>)
    ensures
        r == none_zero_u32(parsed),
{
    match parsed {
        None => Err(ArgumentError::NotANumber),
        Some(n) => if n == 0 {
            Err(ArgumentError::Zero)
        } else {
            Ok(n)
        },
    }
}

/// Accepts a parsed `usize` argument unless parsing failed or it is zero.
pub fn check_none_zero_usize(parsed: Option<usize>) -> (r: Result<usize, ArgumentError>)
    ensures
        r == none_zero_usize(parsed),
{
    match parsed {
        None => Err(ArgumentError::NotANumber),
        Some(n) => if n == 0 {
            Err(ArgumentError::Zero)
        } else {
            Ok(n)
        },
    }
}

/// Parses a non-zero `u32` argument.
pub fn parse_none_zero_u32(source: &str) -> (r: Result<u32, ArgumentError>)
    ensures
        r == none_zero_u32(parsed_u32(source@)),
{
    check_none_zero_u32(parse_u32(source))
}

/// Parses a non-zero `usize` argument.
pub fn parse_none_zero_usize(source: &str) -> (r: Result<usize, ArgumentError>)
    ensures
        r == none_zero_usize(parsed_usize(source@)),
{
    check_none_zero_usize(parse_usize(source))
}

} // verus!
