use tl_lexer::comments::{multi_line_comment, single_line_comment};
use tl_lexer::error::LexError;

#[test]
fn single_line_comment_yields_span_and_consumes_newline() {
    assert_eq!(
        single_line_comment(b"// hello\n", 0),
        Ok((9, b" hello".to_vec()))
    );
}

#[test]
fn single_line_comment_without_newline_is_unterminated() {
    assert_eq!(single_line_comment(b"// hello", 0), Err(LexError::Unterminated));
    assert_eq!(single_line_comment(b"//", 0), Err(LexError::Unterminated));
}

#[test]
fn single_line_comment_unmatched_without_opener() {
    assert_eq!(single_line_comment(b"/x\n", 0), Err(LexError::Unmatched));
    assert_eq!(single_line_comment(b"", 0), Err(LexError::Unmatched));
}

#[test]
fn single_line_comment_leaves_remainder() {
    let input = b"//a\nrest";
    assert_eq!(single_line_comment(input, 0), Ok((4, b"a".to_vec())));
    assert_eq!(4 + (input.len() - 4), input.len());
}

#[test]
fn block_comment_closes_at_first_terminator() {
    assert_eq!(
        multi_line_comment(b"/* a /* b */", 0),
        Ok((12, b" a /* b ".to_vec()))
    );
}

#[test]
fn block_comment_may_be_empty() {
    assert_eq!(multi_line_comment(b"/**/", 0), Ok((4, b"".to_vec())));
}

#[test]
fn block_comment_without_close_is_unterminated() {
    assert_eq!(multi_line_comment(b"/* x", 0), Err(LexError::Unterminated));
    assert_eq!(multi_line_comment(b"/*", 0), Err(LexError::Unterminated));
    assert_eq!(multi_line_comment(b"/**", 0), Err(LexError::Unterminated));
}

#[test]
fn block_comment_unmatched_without_opener() {
    assert_eq!(multi_line_comment(b"/x", 0), Err(LexError::Unmatched));
    assert_eq!(multi_line_comment(b"", 0), Err(LexError::Unmatched));
}

#[test]
fn block_comment_leaves_remainder() {
    let input = b"/*c*/tail";
    assert_eq!(multi_line_comment(input, 0), Ok((5, b"c".to_vec())));
    assert_eq!(5 + (input.len() - 5), input.len());
}
