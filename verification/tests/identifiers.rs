use tl_lexer::error::LexError;
use tl_lexer::identifiers::{
    lc_ident, lc_ident_full, lc_ident_ns, type_ident, uc_ident, uc_ident_ns, var_ident,
    var_ident_ns, TypeToken,
};

#[test]
fn identifiers_can_parse_lc_ident_full() {
    assert_eq!(
        lc_ident_full(b"decryptedMessage#1f814f1f", 0),
        Ok((
            25,
            b"decryptedMessage".to_vec(),
            None,
            Some(b"1f814f1f".to_vec())
        ))
    )
}

#[test]
fn tests_can_parse_lc_ident_full() {
    assert_eq!(
        lc_ident_full(b"decryptedMessage#1f814f1f", 0),
        Ok((
            25,
            b"decryptedMessage".to_vec(),
            None,
            Some(b"1f814f1f".to_vec())
        ))
    )
}

#[test]
fn lc_ident_consumes_whole_valid_identifier() {
    let input = b"abc_123";
    assert_eq!(lc_ident(input, 0), Ok((7, b"abc_123".to_vec())));
    // full string consumed: empty remainder
    assert_eq!(input.len() - 7, 0);
}

#[test]
fn lc_ident_stops_at_first_non_ident_char() {
    assert_eq!(lc_ident(b"foo bar", 0), Ok((3, b"foo".to_vec())));
}

#[test]
fn lc_ident_unmatched_without_lowercase_start() {
    assert_eq!(lc_ident(b"Foo", 0), Err(LexError::Unmatched));
    assert_eq!(lc_ident(b"9a", 0), Err(LexError::Unmatched));
    assert_eq!(lc_ident(b"", 0), Err(LexError::Unmatched));
}

#[test]
fn lc_ident_single_letter_is_malformed() {
    assert_eq!(lc_ident(b"a", 0), Err(LexError::Malformed));
    assert_eq!(lc_ident(b"a#x", 0), Err(LexError::Malformed));
}

#[test]
fn uc_ident_recognizes_uppercase_start() {
    assert_eq!(uc_ident(b"Bar2", 0), Ok((4, b"Bar2".to_vec())));
    assert_eq!(uc_ident(b"bar", 0), Err(LexError::Unmatched));
    assert_eq!(uc_ident(b"B", 0), Err(LexError::Malformed));
}

#[test]
fn var_ident_accepts_any_leading_ident_char() {
    assert_eq!(var_ident(b"x", 0), Ok((1, b"x".to_vec())));
    assert_eq!(var_ident(b"9abc", 0), Ok((4, b"9abc".to_vec())));
    assert_eq!(var_ident(b"_V1 x", 0), Ok((3, b"_V1".to_vec())));
    assert_eq!(var_ident(b".x", 0), Err(LexError::Unmatched));
}

#[test]
fn qualified_splits_name_and_namespace() {
    assert_eq!(
        lc_ident_ns(b"foo.bar", 0),
        Ok((7, b"bar".to_vec(), Some(b"foo".to_vec())))
    );
    assert_eq!(lc_ident_ns(b"foo", 0), Ok((3, b"foo".to_vec(), None)));
}

#[test]
fn qualified_trailing_dot_is_hard_failure() {
    assert_eq!(lc_ident_ns(b"foo.", 0), Err(LexError::Malformed));
}

#[test]
fn qualified_wrong_case_after_dot_is_hard_failure() {
    assert_eq!(lc_ident_ns(b"foo.Bar", 0), Err(LexError::Malformed));
    assert_eq!(uc_ident_ns(b"foo.bar", 0), Err(LexError::Malformed));
}

#[test]
fn uc_ident_ns_takes_lowercase_namespace() {
    assert_eq!(
        uc_ident_ns(b"foo.Bar", 0),
        Ok((7, b"Bar".to_vec(), Some(b"foo".to_vec())))
    );
    assert_eq!(uc_ident_ns(b"foo", 0), Ok((3, b"foo".to_vec(), None)));
}

#[test]
fn var_ident_ns_takes_loose_namespace() {
    assert_eq!(
        var_ident_ns(b"Var9.Bar", 0),
        Ok((8, b"Bar".to_vec(), Some(b"Var9".to_vec())))
    );
}

#[test]
fn type_ident_wildcard_marker() {
    assert_eq!(type_ident(b"#", 0), Ok((1, TypeToken::Wildcard)));
}

#[test]
fn type_ident_prefers_identifier_over_wildcard() {
    assert_eq!(
        type_ident(b"pair", 0),
        Ok((
            4,
            TypeToken::Ident {
                name: b"pair".to_vec(),
                namespace: None
            }
        ))
    );
    assert_eq!(
        type_ident(b"foo.Bar", 0),
        Ok((
            7,
            TypeToken::Ident {
                name: b"Bar".to_vec(),
                namespace: Some(b"foo".to_vec())
            }
        ))
    );
}

#[test]
fn type_ident_unmatched_without_ident_or_wildcard() {
    assert_eq!(type_ident(b"Foo", 0), Err(LexError::Unmatched));
    assert_eq!(type_ident(b"", 0), Err(LexError::Unmatched));
}

#[test]
fn type_ident_structural_failure_propagates() {
    assert_eq!(type_ident(b"foo.123", 0), Err(LexError::Malformed));
    assert_eq!(type_ident(b"foo.", 0), Err(LexError::Malformed));
}

#[test]
fn lc_ident_full_seven_hex_digits_is_hard_failure() {
    assert_eq!(
        lc_ident_full(b"decryptedMessage#1f814f1", 0),
        Err(LexError::Malformed)
    );
}

#[test]
fn lc_ident_full_uppercase_hex_is_hard_failure() {
    assert_eq!(lc_ident_full(b"abc#1F814F1F", 0), Err(LexError::Malformed));
}

#[test]
fn lc_ident_full_without_tag_stops_after_identifier() {
    assert_eq!(lc_ident_full(b"foo", 0), Ok((3, b"foo".to_vec(), None, None)));
    assert_eq!(
        lc_ident_full(b"foo rest", 0),
        Ok((3, b"foo".to_vec(), None, None))
    );
}

#[test]
fn lc_ident_full_with_namespace_and_tag() {
    assert_eq!(
        lc_ident_full(b"ns.msg#0123abcd", 0),
        Ok((
            15,
            b"msg".to_vec(),
            Some(b"ns".to_vec()),
            Some(b"0123abcd".to_vec())
        ))
    );
}

#[test]
fn lc_ident_full_takes_exactly_eight_hex_digits() {
    assert_eq!(
        lc_ident_full(b"ab#1f814f1f5", 0),
        Ok((11, b"ab".to_vec(), None, Some(b"1f814f1f".to_vec())))
    );
}

#[test]
fn consumed_plus_remainder_is_original_length() {
    let input = b"foo.bar rest";
    let (end, _, _) = lc_ident_ns(input, 0).unwrap();
    assert_eq!(end + (input.len() - end), input.len());
    assert_eq!(end, 7);

    let input = b"decryptedMessage#1f814f1f tail";
    let (end, _, _, _) = lc_ident_full(input, 0).unwrap();
    assert_eq!(end + (input.len() - end), input.len());
    assert_eq!(end, 25);

    let input = b"# rest";
    let (end, _) = type_ident(input, 0).unwrap();
    assert_eq!(end + (input.len() - end), input.len());
    assert_eq!(end, 1);
}
