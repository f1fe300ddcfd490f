use tl_lexer::classes::{digit, hex_digit, ident_char, lc_letter, letter, uc_letter};
use tl_lexer::error::LexError;

#[test]
fn lc_letter_consumes_one_lowercase_letter() {
    assert_eq!(lc_letter(b"abc", 0), Ok((1, b'a')));
    assert_eq!(lc_letter(b"Abc", 0), Err(LexError::Unmatched));
    assert_eq!(lc_letter(b"", 0), Err(LexError::Unmatched));
}

#[test]
fn uc_letter_consumes_one_uppercase_letter() {
    assert_eq!(uc_letter(b"Zx", 0), Ok((1, b'Z')));
    assert_eq!(uc_letter(b"zx", 0), Err(LexError::Unmatched));
}

#[test]
fn digit_consumes_one_decimal_digit() {
    assert_eq!(digit(b"90", 0), Ok((1, b'9')));
    assert_eq!(digit(b"a0", 0), Err(LexError::Unmatched));
}

#[test]
fn hex_digit_accepts_lowercase_hex_only() {
    assert_eq!(hex_digit(b"f", 0), Ok((1, b'f')));
    assert_eq!(hex_digit(b"0", 0), Ok((1, b'0')));
    assert_eq!(hex_digit(b"F", 0), Err(LexError::Unmatched));
    assert_eq!(hex_digit(b"g", 0), Err(LexError::Unmatched));
}

#[test]
fn letter_accepts_either_case() {
    assert_eq!(letter(b"q", 0), Ok((1, b'q')));
    assert_eq!(letter(b"Q", 0), Ok((1, b'Q')));
    assert_eq!(letter(b"1", 0), Err(LexError::Unmatched));
}

#[test]
fn ident_char_accepts_letter_digit_underscore() {
    assert_eq!(ident_char(b"a", 0), Ok((1, b'a')));
    assert_eq!(ident_char(b"Z", 0), Ok((1, b'Z')));
    assert_eq!(ident_char(b"7", 0), Ok((1, b'7')));
    assert_eq!(ident_char(b"_", 0), Ok((1, b'_')));
    assert_eq!(ident_char(b".", 0), Err(LexError::Unmatched));
}

#[test]
fn only_unmatched_failures_are_recoverable() {
    assert!(LexError::Unmatched.is_recoverable());
    assert!(!LexError::Malformed.is_recoverable());
    assert!(!LexError::Overflow.is_recoverable());
    assert!(!LexError::Unterminated.is_recoverable());
}

#[test]
fn recognition_starts_at_the_given_offset() {
    assert_eq!(lc_letter(b"A b", 2), Ok((3, b'b')));
    assert_eq!(digit(b"ab1", 2), Ok((3, b'1')));
}
