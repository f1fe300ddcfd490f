//! The numeric-constant recognizer.

use crate::classes::{digit_at, is_digit, is_digit_byte, DIGIT_0};
use crate::cursor::consumes;
use crate::error::LexError;
use vstd::prelude::*;

verus! {

/// The numeric value of a single decimal digit character.
pub open spec fn digit_val(c: u8) -> nat
    recommends
        is_digit(c),
{
    (c - DIGIT_0) as nat
}

/// The natural base-10 interpretation of a digit run: the value of all but
/// the last digit, times ten, plus the last digit. Leading zeros are
/// permitted and do not change the value.
pub open spec fn digits_value(s: Seq<u8>) -> nat
    decreases s.len(),
{
    if s.len() == 0 {
        0
    } else {
        digits_value(s.drop_last()) * 10 + digit_val(s.last())
    }
}

/// Where the run of decimal digits beginning at offset `i` ends.
pub open spec fn digit_run_end(s: Seq<u8>, i: int) -> int
    recommends
        0 <= i <= s.len(),
    decreases s.len() - i,
{
    if i < s.len() && is_digit(s[i]) {
        digit_run_end(s, i + 1)
    } else {
        i
    }
}

/// The digit-run end is in bounds, everything before it in the run is a
/// digit, and the run is maximal.
pub proof fn lemma_digit_run_end(s: Seq<u8>, i: int)
    requires
        0 <= i <= s.len(),
    ensures
        i <= digit_run_end(s, i) <= s.len(),
        forall|j: int| i <= j < digit_run_end(s, i) ==> is_digit(s[j]),
        digit_run_end(s, i) == s.len() || !is_digit(s[digit_run_end(s, i)]),
    decreases s.len() - i,
{
    if i < s.len() && is_digit(s[i]) {
        lemma_digit_run_end(s, i + 1);
    }
}

/// Extending a digit run never decreases its value: the value of a prefix is
/// at most the value of the whole run.
pub proof fn lemma_digits_value_prefix(u: Seq<u8>, k: int)
    requires
        0 <= k <= u.len(),
    ensures
        digits_value(u.subrange(0, k)) <= digits_value(u),
    decreases u.len(),
{
    if k < u.len() {
        lemma_digits_value_prefix(u.drop_last(), k);
        assert(u.drop_last().subrange(0, k) =~= u.subrange(0, k));
    } else {
        assert(u.subrange(0, k) =~= u);
    }
}

/// Recognizes a numeric constant: the maximal non-empty run of decimal
/// digits, decoded exactly as an unsigned base-10 integer. Unmatched when no
/// digit stands at the cursor; a distinct overflow failure — never wraparound
/// or truncation — when the run's value exceeds the supported width.
pub fn nat_const(s: &[u8], pos: usize) -> (r: Result<(usize, usize), LexError>)
    requires
        pos <= s@.len(),
    ensures
        ({
            let end = digit_run_end(s@, pos as int);
            let v = digits_value(s@.subrange(pos as int, end));
            &&& ((r matches Ok(_)) <==> digit_at(s@, pos as int) && v <= usize::MAX)
            &&& (r matches Ok((e, n)) ==> e == end && n == v && consumes(
                s@.len() as int,
                pos as int,
                e as int,
            ))
            &&& (r matches Err(err) ==> (err == LexError::Unmatched <==> !digit_at(
                s@,
                pos as int,
            )) && (err == LexError::Unmatched || err == LexError::Overflow))
        }),
{
    if !(pos < s.len() && is_digit_byte(s[pos])) {
        return Err(LexError::Unmatched);
    }
    let ghost end = digit_run_end(s@, pos as int);
    proof {
        lemma_digit_run_end(s@, pos as int);
    }
    let mut i: usize = pos;
    let mut acc: usize = 0;
    while i < s.len() && is_digit_byte(s[i])
        invariant
            pos <= i <= s@.len() <= usize::MAX,
            end == digit_run_end(s@, pos as int) == digit_run_end(s@, i as int),
            pos <= end <= s@.len(),
            forall|j: int| pos <= j < end ==> is_digit(s@[j]),
            acc == digits_value(s@.subrange(pos as int, i as int)),
        decreases s@.len() - i,
    {
        let d: u8 = s[i] - DIGIT_0;
        let wide: u128 = acc as u128 * 10 + d as u128;
        proof {
            assert(s@.subrange(pos as int, i as int + 1).drop_last() =~= s@.subrange(
                pos as int,
                i as int,
            ));
            assert(s@.subrange(pos as int, i as int + 1).last() == s@[i as int]);
        }
        if wide > usize::MAX as u128 {
            proof {
                lemma_digit_run_end(s@, i as int + 1);
                assert(end == digit_run_end(s@, i as int + 1));
                assert(s@.subrange(pos as int, i as int + 1) =~= s@.subrange(
                    pos as int,
                    end,
                ).subrange(0, i as int + 1 - pos));
                lemma_digits_value_prefix(s@.subrange(pos as int, end), i as int + 1 - pos);
            }
            return Err(LexError::Overflow);
        }
        acc = acc * 10 + d as usize;
        i = i + 1;
    }
    Ok((i, acc))
}

} // verus!
