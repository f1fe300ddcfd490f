//! The cursor convention shared by every recognizer.
//!
//! A cursor is a read-only view over the remaining unconsumed source text,
//! represented as a borrowed byte buffer `s` together with an offset
//! `pos <= s.len()` where recognition begins. A recognizer never mutates the
//! buffer; on success it returns a new offset `end`, and the remainder
//! `s[end..]` is the cursor handed to the next recognizer. The new cursor is
//! always a suffix of the old one: `pos <= end <= s.len()`.

use vstd::prelude::*;

verus! {

/// A successful recognition starting at `pos` ended at `end`: the consumed
/// range lies inside the buffer, and what was consumed plus what remains make
/// up exactly the input the recognizer was given.
pub open spec fn consumes(len: int, pos: int, end: int) -> bool {
    &&& 0 <= pos <= end <= len
    &&& (end - pos) + (len - end) == len - pos
}

/// Round-trip law: for every successful recognition, the consumed length plus
/// the length of the remainder equals the length of the original remaining
/// input. Every recognizer's postcondition supplies the hypothesis through
/// [`consumes`].
pub proof fn lemma_consumed_plus_remainder(len: int, pos: int, end: int)
    requires
        consumes(len, pos, end),
    ensures
        (end - pos) + (len - end) == len - pos,
{
}

} // verus!
