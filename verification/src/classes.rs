//! Character-class predicates and single-character recognizers.
//!
//! The schema grammar is pure ASCII: a byte is classified as a lowercase
//! letter, uppercase letter, decimal digit, lowercase hexadecimal digit, or
//! identifier-continuation character (letter, digit, or underscore). Each
//! recognizer consumes exactly one byte from the front of the cursor when it
//! matches its class, and otherwise fails without consuming input.

use crate::cursor::consumes;
use crate::error::LexError;
use vstd::prelude::*;

verus! {

/// ASCII code of `a`.
pub const LC_A: u8 = 97;

/// ASCII code of `f`.
pub const LC_F: u8 = 102;

/// ASCII code of `z`.
pub const LC_Z: u8 = 122;

/// ASCII code of `A`.
pub const UC_A: u8 = 65;

/// ASCII code of `Z`.
pub const UC_Z: u8 = 90;

/// ASCII code of `0`.
pub const DIGIT_0: u8 = 48;

/// ASCII code of `9`.
pub const DIGIT_9: u8 = 57;

/// ASCII code of `_`.
pub const UNDERSCORE: u8 = 95;

/// ASCII code of `.`, the namespace separator.
pub const DOT: u8 = 46;

/// ASCII code of `#`, the wildcard marker and hex-tag opener.
pub const HASH: u8 = 35;

/// ASCII code of `/`, the first character of both comment openers.
pub const SLASH: u8 = 47;

/// ASCII code of `*`, the second character of the block-comment delimiters.
pub const STAR: u8 = 42;

/// ASCII code of the newline that terminates a single-line comment.
pub const NEWLINE: u8 = 10;

/// ASCII `a`-`z`.
pub open spec fn is_lc_letter(c: u8) -> bool {
    LC_A <= c <= LC_Z
}

/// ASCII `A`-`Z`.
pub open spec fn is_uc_letter(c: u8) -> bool {
    UC_A <= c <= UC_Z
}

/// ASCII `0`-`9`.
pub open spec fn is_digit(c: u8) -> bool {
    DIGIT_0 <= c <= DIGIT_9
}

/// A digit or lowercase `a`-`f`. Uppercase hex is intentionally not accepted
/// by the target grammar.
pub open spec fn is_hex_digit(c: u8) -> bool {
    is_digit(c) || (LC_A <= c <= LC_F)
}

/// A lowercase or uppercase letter.
pub open spec fn is_letter(c: u8) -> bool {
    is_lc_letter(c) || is_uc_letter(c)
}

/// A letter, a digit, or an underscore: the characters an identifier may
/// continue with after its leading character.
pub open spec fn is_ident_char(c: u8) -> bool {
    is_letter(c) || is_digit(c) || c == UNDERSCORE
}

/// The byte at offset `i` exists and is a lowercase letter.
pub open spec fn lc_letter_at(s: Seq<u8>, i: int) -> bool {
    0 <= i < s.len() && is_lc_letter(s[i])
}

/// The byte at offset `i` exists and is an uppercase letter.
pub open spec fn uc_letter_at(s: Seq<u8>, i: int) -> bool {
    0 <= i < s.len() && is_uc_letter(s[i])
}

/// The byte at offset `i` exists and is a digit.
pub open spec fn digit_at(s: Seq<u8>, i: int) -> bool {
    0 <= i < s.len() && is_digit(s[i])
}

/// The byte at offset `i` exists and is a lowercase hex digit.
pub open spec fn hex_digit_at(s: Seq<u8>, i: int) -> bool {
    0 <= i < s.len() && is_hex_digit(s[i])
}

/// The byte at offset `i` exists and is a letter.
pub open spec fn letter_at(s: Seq<u8>, i: int) -> bool {
    0 <= i < s.len() && is_letter(s[i])
}

/// The byte at offset `i` exists and is an identifier character.
pub open spec fn ident_char_at(s: Seq<u8>, i: int) -> bool {
    0 <= i < s.len() && is_ident_char(s[i])
}

/// Runtime test for [`is_lc_letter`].
pub(crate) fn is_lc_letter_byte(c: u8) -> (b: bool)
    ensures
        b == is_lc_letter(c),
{
    LC_A <= c && c <= LC_Z
}

/// Runtime test for [`is_uc_letter`].
pub(crate) fn is_uc_letter_byte(c: u8) -> (b: bool)
    ensures
        b == is_uc_letter(c),
{
    UC_A <= c && c <= UC_Z
}

/// Runtime test for [`is_digit`].
pub(crate) fn is_digit_byte(c: u8) -> (b: bool)
    ensures
        b == is_digit(c),
{
    DIGIT_0 <= c && c <= DIGIT_9
}

/// Runtime test for [`is_hex_digit`].
pub(crate) fn is_hex_digit_byte(c: u8) -> (b: bool)
    ensures
        b == is_hex_digit(c),
{
    is_digit_byte(c) || (LC_A <= c && c <= LC_F)
}

/// Runtime test for [`is_letter`].
pub(crate) fn is_letter_byte(c: u8) -> (b: bool)
    ensures
        b == is_letter(c),
{
    is_lc_letter_byte(c) || is_uc_letter_byte(c)
}

/// Runtime test for [`is_ident_char`].
pub(crate) fn is_ident_char_byte(c: u8) -> (b: bool)
    ensures
        b == is_ident_char(c),
{
    is_letter_byte(c) || is_digit_byte(c) || c == UNDERSCORE
}

/// Where the run of identifier characters beginning at offset `i` ends: the
/// first offset at or after `i` that is past the end of the buffer or holds a
/// byte outside the identifier class.
pub open spec fn ident_run_end(s: Seq<u8>, i: int) -> int
    recommends
        0 <= i <= s.len(),
    decreases s.len() - i,
{
    if i < s.len() && is_ident_char(s[i]) {
        ident_run_end(s, i + 1)
    } else {
        i
    }
}

/// The run end is in bounds, everything before it in the run is an identifier
/// character, and the run is maximal.
pub proof fn lemma_ident_run_end(s: Seq<u8>, i: int)
    requires
        0 <= i <= s.len(),
    ensures
        i <= ident_run_end(s, i) <= s.len(),
        forall|j: int| i <= j < ident_run_end(s, i) ==> is_ident_char(s[j]),
        ident_run_end(s, i) == s.len() || !is_ident_char(s[ident_run_end(s, i)]),
    decreases s.len() - i,
{
    if i < s.len() && is_ident_char(s[i]) {
        lemma_ident_run_end(s, i + 1);
    }
}

/// A run made of identifier characters all the way to the end of the buffer
/// ends exactly at the end of the buffer.
pub proof fn lemma_ident_run_end_all(s: Seq<u8>, i: int)
    requires
        0 <= i <= s.len(),
        forall|j: int| i <= j < s.len() ==> is_ident_char(s[j]),
    ensures
        ident_run_end(s, i) == s.len(),
    decreases s.len() - i,
{
    if i < s.len() {
        lemma_ident_run_end_all(s, i + 1);
    }
}

/// Walks to the end of the run of identifier characters starting at `from`.
pub(crate) fn scan_ident_chars(s: &[u8], from: usize) -> (end: usize)
    requires
        from <= s@.len(),
    ensures
        end == ident_run_end(s@, from as int),
{
    let mut i: usize = from;
    while i < s.len() && is_ident_char_byte(s[i])
        invariant
            from <= i <= s@.len(),
            ident_run_end(s@, from as int) == ident_run_end(s@, i as int),
        decreases s@.len() - i,
    {
        i = i + 1;
    }
    i
}

/// Copies the bytes of `s` in the range `from..to` into an owned buffer, to
/// materialize a matched token value.
pub(crate) fn copy_range(s: &[u8], from: usize, to: usize) -> (r: Vec<u8>)
    requires
        from <= to <= s@.len(),
    ensures
        r@ == s@.subrange(from as int, to as int),
{
    let mut r: Vec<u8> = Vec::new();
    let mut i: usize = from;
    while i < to
        invariant
            from <= i <= to <= s@.len(),
            r@ == s@.subrange(from as int, i as int),
        decreases to - i,
    {
        r.push(s[i]);
        proof {
            assert(r@ =~= s@.subrange(from as int, i as int + 1));
        }
        i = i + 1;
    }
    r
}

/// Recognizes a single lowercase letter at the front of the cursor.
pub fn lc_letter(s: &[u8], pos: usize) -> (r: Result<(usize, u8), LexError>)
    requires
        pos <= s@.len(),
    ensures
        (r matches Ok(_)) <==> lc_letter_at(s@, pos as int),
        r matches Ok((end, c)) ==> end == pos + 1 && c == s@[pos as int] && consumes(
            s@.len() as int,
            pos as int,
            end as int,
        ),
        r matches Err(e) ==> e == LexError::Unmatched,
{
    if pos < s.len() && is_lc_letter_byte(s[pos]) {
        Ok((pos + 1, s[pos]))
    } else {
        Err(LexError::Unmatched)
    }
}

/// Recognizes a single uppercase letter at the front of the cursor.
pub fn uc_letter(s: &[u8], pos: usize) -> (r: Result<(usize, u8), LexError>)
    requires
        pos <= s@.len(),
    ensures
        (r matches Ok(_)) <==> uc_letter_at(s@, pos as int),
        r matches Ok((end, c)) ==> end == pos + 1 && c == s@[pos as int] && consumes(
            s@.len() as int,
            pos as int,
            end as int,
        ),
        r matches Err(e) ==> e == LexError::Unmatched,
{
    if pos < s.len() && is_uc_letter_byte(s[pos]) {
        Ok((pos + 1, s[pos]))
    } else {
        Err(LexError::Unmatched)
    }
}

/// Recognizes a single decimal digit at the front of the cursor.
pub fn digit(s: &[u8], pos: usize) -> (r: Result<(usize, u8), LexError>)
    requires
        pos <= s@.len(),
    ensures
        (r matches Ok(_)) <==> digit_at(s@, pos as int),
        r matches Ok((end, c)) ==> end == pos + 1 && c == s@[pos as int] && consumes(
            s@.len() as int,
            pos as int,
            end as int,
        ),
        r matches Err(e) ==> e == LexError::Unmatched,
{
    if pos < s.len() && is_digit_byte(s[pos]) {
        Ok((pos + 1, s[pos]))
    } else {
        Err(LexError::Unmatched)
    }
}

/// Recognizes a single lowercase hexadecimal digit at the front of the cursor.
pub fn hex_digit(s: &[u8], pos: usize) -> (r: Result<(usize, u8), LexError>)
    requires
        pos <= s@.len(),
    ensures
        (r matches Ok(_)) <==> hex_digit_at(s@, pos as int),
        r matches Ok((end, c)) ==> end == pos + 1 && c == s@[pos as int] && consumes(
            s@.len() as int,
            pos as int,
            end as int,
        ),
        r matches Err(e) ==> e == LexError::Unmatched,
{
    if pos < s.len() && is_hex_digit_byte(s[pos]) {
        Ok((pos + 1, s[pos]))
    } else {
        Err(LexError::Unmatched)
    }
}

/// Recognizes a single letter of either case at the front of the cursor.
pub fn letter(s: &[u8], pos: usize) -> (r: Result<(usize, u8), LexError>)
    requires
        pos <= s@.len(),
    ensures
        (r matches Ok(_)) <==> letter_at(s@, pos as int),
        r matches Ok((end, c)) ==> end == pos + 1 && c == s@[pos as int] && consumes(
            s@.len() as int,
            pos as int,
            end as int,
        ),
        r matches Err(e) ==> e == LexError::Unmatched,
{
    if pos < s.len() && is_letter_byte(s[pos]) {
        Ok((pos + 1, s[pos]))
    } else {
        Err(LexError::Unmatched)
    }
}

/// Recognizes a single identifier character (letter, digit, or underscore) at
/// the front of the cursor.
pub fn ident_char(s: &[u8], pos: usize) -> (r: Result<(usize, u8), LexError>)
    requires
        pos <= s@.len(),
    ensures
        (r matches Ok(_)) <==> ident_char_at(s@, pos as int),
        r matches Ok((end, c)) ==> end == pos + 1 && c == s@[pos as int] && consumes(
            s@.len() as int,
            pos as int,
            end as int,
        ),
        r matches Err(e) ==> e == LexError::Unmatched,
{
    if pos < s.len() && is_ident_char_byte(s[pos]) {
        Ok((pos + 1, s[pos]))
    } else {
        Err(LexError::Unmatched)
    }
}

} // verus!
