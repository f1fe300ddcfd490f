//! Comment recognizers.
//!
//! Comments are consumed as opaque spans for the layout-skipping collaborator
//! to discard. A single-line comment is `//` up to and including the next
//! newline; a block comment is `/*` up to and including the first `*/`.
//! Nested block comments are not supported: the first `*/` always closes the
//! comment. An opened comment whose terminator never occurs is a distinct,
//! hard failure, not an implicit end-of-comment.

use crate::classes::{copy_range, NEWLINE, SLASH, STAR};
use crate::cursor::consumes;
use crate::error::LexError;
use vstd::prelude::*;

verus! {

/// A single-line comment opens at offset `i`: the two bytes `//`.
pub open spec fn line_comment_opens(s: Seq<u8>, i: int) -> bool {
    &&& 0 <= i && i + 2 <= s.len()
    &&& s[i] == SLASH
    &&& s[i + 1] == SLASH
}

/// A block comment opens at offset `i`: the two bytes `/*`.
pub open spec fn block_comment_opens(s: Seq<u8>, i: int) -> bool {
    &&& 0 <= i && i + 2 <= s.len()
    &&& s[i] == SLASH
    &&& s[i + 1] == STAR
}

/// The offset of the first newline at or after `i`, or the end of the buffer
/// when none occurs.
pub open spec fn newline_from(s: Seq<u8>, i: int) -> int
    recommends
        0 <= i <= s.len(),
    decreases s.len() - i,
{
    if i < s.len() && s[i] != NEWLINE {
        newline_from(s, i + 1)
    } else {
        i
    }
}

/// The first newline position is in bounds, nothing before it in the scanned
/// range is a newline, and it is a newline unless the buffer ended first.
pub proof fn lemma_newline_from(s: Seq<u8>, i: int)
    requires
        0 <= i <= s.len(),
    ensures
        i <= newline_from(s, i) <= s.len(),
        forall|j: int| i <= j < newline_from(s, i) ==> s[j] != NEWLINE,
        newline_from(s, i) == s.len() || s[newline_from(s, i)] == NEWLINE,
    decreases s.len() - i,
{
    if i < s.len() && s[i] != NEWLINE {
        lemma_newline_from(s, i + 1);
    }
}

/// The offset where the first `*/` at or after `i` begins, or the end of the
/// buffer when none occurs.
pub open spec fn block_close_from(s: Seq<u8>, i: int) -> int
    recommends
        0 <= i <= s.len(),
    decreases s.len() - i,
{
    if i + 1 < s.len() {
        if s[i] == STAR && s[i + 1] == SLASH {
            i
        } else {
            block_close_from(s, i + 1)
        }
    } else {
        s.len() as int
    }
}

/// The first block-close position is at worst the end of the buffer, no `*/`
/// begins before it in the scanned range, and a `*/` stands there unless the
/// buffer ended first.
pub proof fn lemma_block_close_from(s: Seq<u8>, i: int)
    requires
        0 <= i <= s.len(),
    ensures
        i <= block_close_from(s, i) <= s.len(),
        forall|j: int|
            i <= j < block_close_from(s, i) && j + 1 < s.len() ==> !(#[trigger] s[j] == STAR && s[j
                + 1] == SLASH),
        block_close_from(s, i) + 1 < s.len() ==> s[block_close_from(s, i)] == STAR && s[
            block_close_from(s, i) + 1
        ] == SLASH,
        block_close_from(s, i) + 1 < s.len() || block_close_from(s, i) == s.len(),
    decreases s.len() - i,
{
    if i + 1 < s.len() && !(s[i] == STAR && s[i + 1] == SLASH) {
        lemma_block_close_from(s, i + 1);
    }
}

/// Recognizes a single-line comment: the literal `//`, then every character
/// up to (not including) the next newline as the span, then the newline
/// itself. Unmatched when `//` does not stand at the cursor; a hard
/// unterminated failure when no newline occurs before the end of the input.
pub fn single_line_comment(s: &[u8], pos: usize) -> (r: Result<(usize, Vec<u8>), LexError>)
    requires
        pos <= s@.len(),
    ensures
        ({
            let nl = newline_from(s@, pos as int + 2);
            &&& ((r matches Ok(_)) <==> line_comment_opens(s@, pos as int) && nl < s@.len())
            &&& (r matches Ok((end, span)) ==> end == nl + 1 && span@ == s@.subrange(
                pos as int + 2,
                nl,
            ) && consumes(s@.len() as int, pos as int, end as int))
            &&& (r matches Err(e) ==> (e == LexError::Unmatched <==> !line_comment_opens(
                s@,
                pos as int,
            )) && (e == LexError::Unmatched || e == LexError::Unterminated))
        }),
{
    if !(pos < s.len() && s[pos] == SLASH && pos + 1 < s.len() && s[pos + 1] == SLASH) {
        return Err(LexError::Unmatched);
    }
    proof {
        lemma_newline_from(s@, pos as int + 2);
    }
    let mut i: usize = pos + 2;
    while i < s.len() && s[i] != NEWLINE
        invariant
            pos + 2 <= i <= s@.len() <= usize::MAX,
            newline_from(s@, pos as int + 2) == newline_from(s@, i as int),
        decreases s@.len() - i,
    {
        i = i + 1;
    }
    if i < s.len() {
        let span = copy_range(s, pos + 2, i);
        Ok((i + 1, span))
    } else {
        Err(LexError::Unterminated)
    }
}

/// Recognizes a block comment: the literal `/*`, then every character up to
/// (not including) the first `*/` as the span, then the `*/` itself — the
/// first closer always closes the comment, so block comments do not nest.
/// Unmatched when `/*` does not stand at the cursor; a hard unterminated
/// failure when `*/` never occurs.
pub fn multi_line_comment(s: &[u8], pos: usize) -> (r: Result<(usize, Vec<u8>), LexError>)
    requires
        pos <= s@.len(),
    ensures
        ({
            let close = block_close_from(s@, pos as int + 2);
            &&& ((r matches Ok(_)) <==> block_comment_opens(s@, pos as int) && close + 2
                <= s@.len())
            &&& (r matches Ok((end, span)) ==> end == close + 2 && span@ == s@.subrange(
                pos as int + 2,
                close,
            ) && consumes(s@.len() as int, pos as int, end as int))
            &&& (r matches Err(e) ==> (e == LexError::Unmatched <==> !block_comment_opens(
                s@,
                pos as int,
            )) && (e == LexError::Unmatched || e == LexError::Unterminated))
        }),
{
    if !(pos < s.len() && s[pos] == SLASH && pos + 1 < s.len() && s[pos + 1] == STAR) {
        return Err(LexError::Unmatched);
    }
    proof {
        lemma_block_close_from(s@, pos as int + 2);
    }
    let mut i: usize = pos + 2;
    while i < s.len() - 1 && !(s[i] == STAR && s[i + 1] == SLASH)
        invariant
            pos + 2 <= i <= s@.len() <= usize::MAX,
            block_close_from(s@, pos as int + 2) == block_close_from(s@, i as int),
        decreases s@.len() - i,
    {
        i = i + 1;
    }
    if i < s.len() - 1 {
        let span = copy_range(s, pos + 2, i);
        Ok((i + 2, span))
    } else {
        Err(LexError::Unterminated)
    }
}

} // verus!
