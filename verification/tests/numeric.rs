use tl_lexer::error::LexError;
use tl_lexer::numeric::nat_const;

#[test]
fn nat_const_decodes_digit_run() {
    assert_eq!(nat_const(b"12345", 0), Ok((5, 12345)));
}

#[test]
fn nat_const_empty_input_is_unmatched() {
    assert_eq!(nat_const(b"", 0), Err(LexError::Unmatched));
}

#[test]
fn nat_const_unmatched_without_digit() {
    assert_eq!(nat_const(b"x1", 0), Err(LexError::Unmatched));
}

#[test]
fn nat_const_leading_zeros_are_decimal() {
    assert_eq!(nat_const(b"007", 0), Ok((3, 7)));
    assert_eq!(nat_const(b"0", 0), Ok((1, 0)));
}

#[test]
fn nat_const_stops_at_first_non_digit() {
    let input = b"42abc";
    assert_eq!(nat_const(input, 0), Ok((2, 42)));
    assert_eq!(2 + (input.len() - 2), input.len());
}

#[test]
fn nat_const_overflow_is_reported_not_wrapped() {
    assert_eq!(
        nat_const(b"99999999999999999999999999999999999999", 0),
        Err(LexError::Overflow)
    );
}
