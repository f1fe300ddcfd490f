//! Identifier and token recognizers.
//!
//! Built on the character classes: bare lowercase, uppercase, and
//! case-insensitive ("variable") identifiers; the namespace-qualified forms
//! `ns.name`; the type token that may instead be the `#` wildcard marker; and
//! the full identifier that may carry an inline eight-digit hex tag.

use crate::classes::{
    copy_range, ident_char_at, ident_run_end, is_hex_digit, is_hex_digit_byte, is_ident_char,
    is_ident_char_byte, is_lc_letter, is_lc_letter_byte, is_uc_letter, is_uc_letter_byte,
    lc_letter_at, lemma_ident_run_end, lemma_ident_run_end_all, scan_ident_chars, uc_letter_at,
    DOT, HASH,
};
use crate::cursor::consumes;
use crate::error::LexError;
use vstd::prelude::*;

verus! {

/// A well-formed lowercase identifier: a lowercase letter followed by at
/// least one identifier character.
pub open spec fn is_lc_ident(s: Seq<u8>) -> bool {
    &&& s.len() >= 2
    &&& is_lc_letter(s[0])
    &&& forall|j: int| 1 <= j < s.len() ==> is_ident_char(s[j])
}

/// A well-formed uppercase identifier: an uppercase letter followed by at
/// least one identifier character.
pub open spec fn is_uc_ident(s: Seq<u8>) -> bool {
    &&& s.len() >= 2
    &&& is_uc_letter(s[0])
    &&& forall|j: int| 1 <= j < s.len() ==> is_ident_char(s[j])
}

/// A well-formed variable identifier: one or more identifier characters, with
/// no case restriction on the leading character.
pub open spec fn is_var_ident(s: Seq<u8>) -> bool {
    &&& s.len() >= 1
    &&& forall|j: int| 0 <= j < s.len() ==> is_ident_char(s[j])
}

/// A lowercase identifier starts at offset `i`: a lowercase letter there,
/// immediately followed by at least one identifier character.
pub open spec fn lc_ident_starts(s: Seq<u8>, i: int) -> bool {
    &&& 0 <= i && i + 1 < s.len()
    &&& is_lc_letter(s[i])
    &&& is_ident_char(s[i + 1])
}

/// An uppercase identifier starts at offset `i`.
pub open spec fn uc_ident_starts(s: Seq<u8>, i: int) -> bool {
    &&& 0 <= i && i + 1 < s.len()
    &&& is_uc_letter(s[i])
    &&& is_ident_char(s[i + 1])
}

/// A variable identifier starts at offset `i`: any identifier character.
pub open spec fn var_ident_starts(s: Seq<u8>, i: int) -> bool {
    ident_char_at(s, i)
}

/// Recognizes a lowercase identifier: a lowercase letter, then the maximal
/// non-empty run of identifier characters. Unmatched when no lowercase letter
/// stands at the cursor; malformed when the letter is there but no identifier
/// character follows it (identifiers are at least two characters long).
pub fn lc_ident(s: &[u8], pos: usize) -> (r: Result<(usize, Vec<u8>), LexError>)
    requires
        pos <= s@.len(),
    ensures
        (r matches Ok(_)) <==> lc_ident_starts(s@, pos as int),
        r matches Ok((end, id)) ==> {
            &&& end == ident_run_end(s@, pos as int + 1)
            &&& consumes(s@.len() as int, pos as int, end as int)
            &&& id@ == s@.subrange(pos as int, end as int)
            &&& is_lc_ident(id@)
        },
        r matches Err(e) ==> (e == LexError::Unmatched <==> !lc_letter_at(s@, pos as int)) && (e
            == LexError::Unmatched || e == LexError::Malformed),
{
    if !(pos < s.len() && is_lc_letter_byte(s[pos])) {
        return Err(LexError::Unmatched);
    }
    if !(pos + 1 < s.len() && is_ident_char_byte(s[pos + 1])) {
        return Err(LexError::Malformed);
    }
    let end = scan_ident_chars(s, pos + 1);
    proof {
        lemma_ident_run_end(s@, pos as int + 1);
    }
    let id = copy_range(s, pos, end);
    Ok((end, id))
}

/// Recognizes an uppercase identifier: an uppercase letter, then the maximal
/// non-empty run of identifier characters. Failure classification mirrors
/// [`lc_ident`].
pub fn uc_ident(s: &[u8], pos: usize) -> (r: Result<(usize, Vec<u8>), LexError>)
    requires
        pos <= s@.len(),
    ensures
        (r matches Ok(_)) <==> uc_ident_starts(s@, pos as int),
        r matches Ok((end, id)) ==> {
            &&& end == ident_run_end(s@, pos as int + 1)
            &&& consumes(s@.len() as int, pos as int, end as int)
            &&& id@ == s@.subrange(pos as int, end as int)
            &&& is_uc_ident(id@)
        },
        r matches Err(e) ==> (e == LexError::Unmatched <==> !uc_letter_at(s@, pos as int)) && (e
            == LexError::Unmatched || e == LexError::Malformed),
{
    if !(pos < s.len() && is_uc_letter_byte(s[pos])) {
        return Err(LexError::Unmatched);
    }
    if !(pos + 1 < s.len() && is_ident_char_byte(s[pos + 1])) {
        return Err(LexError::Malformed);
    }
    let end = scan_ident_chars(s, pos + 1);
    proof {
        lemma_ident_run_end(s@, pos as int + 1);
    }
    let id = copy_range(s, pos, end);
    Ok((end, id))
}

/// Recognizes a variable identifier: the maximal non-empty run of identifier
/// characters, with no constraint on the leading character beyond membership
/// in the identifier class. Unmatched when no identifier character stands at
/// the cursor; never a hard failure.
pub fn var_ident(s: &[u8], pos: usize) -> (r: Result<(usize, Vec<u8>), LexError>)
    requires
        pos <= s@.len(),
    ensures
        (r matches Ok(_)) <==> var_ident_starts(s@, pos as int),
        r matches Ok((end, id)) ==> {
            &&& end == ident_run_end(s@, pos as int)
            &&& consumes(s@.len() as int, pos as int, end as int)
            &&& id@ == s@.subrange(pos as int, end as int)
            &&& is_var_ident(id@)
        },
        r matches Err(e) ==> e == LexError::Unmatched,
{
    if !(pos < s.len() && is_ident_char_byte(s[pos])) {
        return Err(LexError::Unmatched);
    }
    let end = scan_ident_chars(s, pos);
    proof {
        lemma_ident_run_end(s@, pos as int);
    }
    let id = copy_range(s, pos, end);
    Ok((end, id))
}

/// A valid lowercase identifier standing alone is recognized whole: on a
/// buffer holding exactly such an identifier, recognition begins at offset 0
/// and the maximal run of identifier characters extends to the end of the
/// buffer, so by [`lc_ident`]'s contract the recognizer succeeds, consumes the
/// full string, and leaves an empty remainder.
pub proof fn lemma_lc_ident_whole(s: Seq<u8>)
    requires
        is_lc_ident(s),
    ensures
        lc_ident_starts(s, 0),
        ident_run_end(s, 1) == s.len(),
        s.subrange(0, s.len() as int) == s,
{
    lemma_ident_run_end_all(s, 1);
    assert(s.subrange(0, s.len() as int) =~= s);
}

/// Which pair of bare-identifier rules a qualified form applies on the two
/// sides of the `.` separator. The namespace (left side) is lowercase by
/// convention in the lower and upper variants; only the loose variant relaxes
/// it to a variable identifier.
#[derive(Clone, Copy, Debug, PartialEq, Eq, Structural)]
pub enum QualifiedVariant {
    /// Left: lowercase identifier. Right: lowercase identifier.
    Lower,
    /// Left: lowercase identifier. Right: uppercase identifier.
    Upper,
    /// Left: variable identifier. Right: uppercase identifier.
    Loose,
}

/// The left-hand (namespace-or-name) identifier of the variant starts at `i`.
pub open spec fn left_starts(v: QualifiedVariant, s: Seq<u8>, i: int) -> bool {
    match v {
        QualifiedVariant::Lower => lc_ident_starts(s, i),
        QualifiedVariant::Upper => lc_ident_starts(s, i),
        QualifiedVariant::Loose => var_ident_starts(s, i),
    }
}

/// The left-hand identifier of the variant does not even begin at `i`: its
/// leading character class is absent. This is the recoverable failure of the
/// qualified form.
pub open spec fn left_unmatched(v: QualifiedVariant, s: Seq<u8>, i: int) -> bool {
    match v {
        QualifiedVariant::Lower => !lc_letter_at(s, i),
        QualifiedVariant::Upper => !lc_letter_at(s, i),
        QualifiedVariant::Loose => !ident_char_at(s, i),
    }
}

/// Where the left-hand identifier beginning at `i` ends.
pub open spec fn left_end(v: QualifiedVariant, s: Seq<u8>, i: int) -> int {
    match v {
        QualifiedVariant::Lower => ident_run_end(s, i + 1),
        QualifiedVariant::Upper => ident_run_end(s, i + 1),
        QualifiedVariant::Loose => ident_run_end(s, i),
    }
}

/// The right-hand (name) identifier of the variant starts at `i`.
pub open spec fn right_starts(v: QualifiedVariant, s: Seq<u8>, i: int) -> bool {
    match v {
        QualifiedVariant::Lower => lc_ident_starts(s, i),
        QualifiedVariant::Upper => uc_ident_starts(s, i),
        QualifiedVariant::Loose => uc_ident_starts(s, i),
    }
}

/// Where the right-hand identifier beginning at `i` ends.
pub open spec fn right_end(s: Seq<u8>, i: int) -> int {
    ident_run_end(s, i + 1)
}

/// A `.` separator stands at offset `e`.
pub open spec fn separator_at(s: Seq<u8>, e: int) -> bool {
    0 <= e < s.len() && s[e] == DOT
}

/// A `#` marker stands at offset `e` (the wildcard type token, or the opening
/// of a hex tag).
pub open spec fn hash_at(s: Seq<u8>, e: int) -> bool {
    0 <= e < s.len() && s[e] == HASH
}

/// A qualified form of the given variant succeeds at `i`: its left identifier
/// is there and, when a `.` follows it, so is a valid right identifier. The
/// separator being present with no valid right identifier after it is a hard
/// failure, never a fallback to "no namespace".
pub open spec fn qualified_ok(v: QualifiedVariant, s: Seq<u8>, i: int) -> bool {
    &&& left_starts(v, s, i)
    &&& (separator_at(s, left_end(v, s, i)) ==> right_starts(v, s, left_end(v, s, i) + 1))
}

/// The values a successful qualified recognition yields: the offset just past
/// what was consumed, the name, and the namespace when one is present. The
/// recognizer is greedy: a `.` after the left identifier, when followed by a
/// valid right identifier, is always taken as a namespace separator.
pub open spec fn qualified_values(v: QualifiedVariant, s: Seq<u8>, i: int) -> (
    int,
    Seq<u8>,
    Option<Seq<u8>>,
) {
    let e1 = left_end(v, s, i);
    if separator_at(s, e1) {
        (right_end(s, e1 + 1), s.subrange(e1 + 1, right_end(s, e1 + 1)), Some(
            s.subrange(i, e1),
        ))
    } else {
        (e1, s.subrange(i, e1), None)
    }
}

/// The full contract of the qualified recognizers, shared by all three
/// variants: success exactly on [`qualified_ok`], yielding
/// [`qualified_values`]; an unmatched failure exactly when the left
/// identifier's leading class is absent; any other failure hard.
pub open spec fn qualified_post(
    v: QualifiedVariant,
    s: Seq<u8>,
    pos: int,
    r: Result<(usize, Vec<u8>, Option<Vec<u8>>), LexError>,
) -> bool {
    &&& ((r matches Ok(_)) <==> qualified_ok(v, s, pos))
    &&& (r matches Ok((end, name, ns)) ==> {
        let (e, n, m) = qualified_values(v, s, pos);
        &&& end == e
        &&& consumes(s.len() as int, pos, end as int)
        &&& name@ == n
        &&& (match (ns, m) {
            (Some(nsv), Some(msv)) => nsv@ == msv,
            (None, None) => true,
            _ => false,
        })
    })
    &&& (r matches Err(e) ==> (e == LexError::Unmatched <==> left_unmatched(v, s, pos)) && (e
        == LexError::Unmatched || e == LexError::Malformed))
}

/// Recognizes a namespace-qualified identifier of the given variant: the
/// variant's left identifier, then optionally a `.` followed by the variant's
/// right identifier. When the `.` is absent, the left identifier is the name
/// and there is no namespace; when the `.` is present, the right identifier
/// must follow, and the left one becomes the namespace.
pub fn qualified(variant: QualifiedVariant, s: &[u8], pos: usize) -> (r: Result<
    (usize, Vec<u8>, Option<Vec<u8>>),
    LexError,
>)
    requires
        pos <= s@.len(),
    ensures
        qualified_post(variant, s@, pos as int, r),
{
    let left = match variant {
        QualifiedVariant::Lower => lc_ident(s, pos),
        QualifiedVariant::Upper => lc_ident(s, pos),
        QualifiedVariant::Loose => var_ident(s, pos),
    };
    match left {
        Err(e) => Err(e),
        Ok((e1, lid)) => {
            if e1 < s.len() && s[e1] == DOT {
                let right = match variant {
                    QualifiedVariant::Lower => lc_ident(s, e1 + 1),
                    QualifiedVariant::Upper => uc_ident(s, e1 + 1),
                    QualifiedVariant::Loose => uc_ident(s, e1 + 1),
                };
                match right {
                    Ok((e2, rid)) => Ok((e2, rid, Some(lid))),
                    Err(_) => Err(LexError::Malformed),
                }
            } else {
                Ok((e1, lid, None))
            }
        },
    }
}

/// Recognizes a lowercase identifier with an optional lowercase namespace.
pub fn lc_ident_ns(s: &[u8], pos: usize) -> (r: Result<
    (usize, Vec<u8>, Option<Vec<u8>>),
    LexError,
>)
    requires
        pos <= s@.len(),
    ensures
        qualified_post(QualifiedVariant::Lower, s@, pos as int, r),
{
    qualified(QualifiedVariant::Lower, s, pos)
}

/// Recognizes an uppercase identifier with an optional lowercase namespace.
pub fn uc_ident_ns(s: &[u8], pos: usize) -> (r: Result<
    (usize, Vec<u8>, Option<Vec<u8>>),
    LexError,
>)
    requires
        pos <= s@.len(),
    ensures
        qualified_post(QualifiedVariant::Upper, s@, pos as int, r),
{
    qualified(QualifiedVariant::Upper, s, pos)
}

/// Recognizes an uppercase identifier with an optional variable-identifier
/// namespace.
pub fn var_ident_ns(s: &[u8], pos: usize) -> (r: Result<
    (usize, Vec<u8>, Option<Vec<u8>>),
    LexError,
>)
    requires
        pos <= s@.len(),
    ensures
        qualified_post(QualifiedVariant::Loose, s@, pos as int, r),
{
    qualified(QualifiedVariant::Loose, s, pos)
}

/// A type token: either a (possibly qualified) identifier, or the literal `#`
/// wildcard marker denoting "any type". The wildcard carries no namespace.
#[derive(Debug, PartialEq, Eq)]
pub enum TypeToken {
    /// A qualified identifier naming a type.
    Ident { name: Vec<u8>, namespace: Option<Vec<u8>> },
    /// The `#` wildcard marker.
    Wildcard,
}

/// The contract of [`type_ident`]: the lower qualified form is preferred,
/// then the upper one; the `#` wildcard is attempted only when neither
/// identifier form even begins (no lowercase letter at the cursor — both
/// forms share their left rule, so they begin together). A deeper structural
/// failure inside a matched branch propagates unchanged.
pub open spec fn type_ident_post(
    s: Seq<u8>,
    pos: int,
    r: Result<(usize, TypeToken), LexError>,
) -> bool {
    if qualified_ok(QualifiedVariant::Lower, s, pos) {
        type_ident_yields(QualifiedVariant::Lower, s, pos, r)
    } else if qualified_ok(QualifiedVariant::Upper, s, pos) {
        type_ident_yields(QualifiedVariant::Upper, s, pos, r)
    } else if !lc_letter_at(s, pos) {
        if hash_at(s, pos) {
            r matches Ok((end, tok)) && end == pos + 1 && tok is Wildcard && consumes(
                s.len() as int,
                pos,
                end as int,
            )
        } else {
            r == Err::<(usize, TypeToken), LexError>(LexError::Unmatched)
        }
    } else {
        r == Err::<(usize, TypeToken), LexError>(LexError::Malformed)
    }
}

/// The type token is the qualified identifier the given variant recognizes at
/// `pos`, consuming exactly what that form consumes.
pub open spec fn type_ident_yields(
    v: QualifiedVariant,
    s: Seq<u8>,
    pos: int,
    r: Result<(usize, TypeToken), LexError>,
) -> bool {
    let (e, n, m) = qualified_values(v, s, pos);
    &&& r matches Ok((end, tok))
    &&& end == e
    &&& consumes(s.len() as int, pos, end as int)
    &&& tok matches TypeToken::Ident { name, namespace }
    &&& name@ == n
    &&& (match (namespace, m) {
        (Some(nsv), Some(msv)) => nsv@ == msv,
        (None, None) => true,
        _ => false,
    })
}

/// Recognizes a type token: a lowercase qualified identifier, else an
/// uppercase one, else — only when no identifier begins at the cursor at all
/// — the `#` wildcard marker. A genuine identifier is always preferred over
/// the wildcard interpretation.
pub fn type_ident(s: &[u8], pos: usize) -> (r: Result<(usize, TypeToken), LexError>)
    requires
        pos <= s@.len(),
    ensures
        type_ident_post(s@, pos as int, r),
{
    match qualified(QualifiedVariant::Lower, s, pos) {
        Ok((end, name, namespace)) => Ok((end, TypeToken::Ident { name, namespace })),
        Err(_) => match qualified(QualifiedVariant::Upper, s, pos) {
            Ok((end, name, namespace)) => Ok((end, TypeToken::Ident { name, namespace })),
            Err(e) => {
                if e.is_recoverable() {
                    if pos < s.len() && s[pos] == HASH {
                        Ok((pos + 1, TypeToken::Wildcard))
                    } else {
                        Err(LexError::Unmatched)
                    }
                } else {
                    Err(e)
                }
            },
        },
    }
}

/// Exactly eight lowercase hex digits stand at offset `i`.
pub open spec fn hex_tag_at(s: Seq<u8>, i: int) -> bool {
    &&& 0 <= i && i + 8 <= s.len()
    &&& forall|j: int| i <= j < i + 8 ==> is_hex_digit(s[j])
}

/// Tests whether exactly eight lowercase hex digits stand at offset `from`.
fn check_hex_tag(s: &[u8], from: usize) -> (b: bool)
    requires
        from <= s@.len(),
    ensures
        b == hex_tag_at(s@, from as int),
{
    if s.len() - from < 8 {
        return false;
    }
    let mut j: usize = 0;
    while j < 8 && is_hex_digit_byte(s[from + j])
        invariant
            0 <= j <= 8,
            from + 8 <= s@.len() <= usize::MAX,
            forall|k: int| from <= k < from + j ==> is_hex_digit(s@[k]),
        decreases 8 - j,
    {
        j = j + 1;
    }
    j == 8
}

/// The contract of [`lc_ident_full`]: a lowercase qualified identifier, then
/// an optional `#` introducing a tag of exactly eight lowercase hex digits.
/// An absent `#` leaves the tag unset and the cursor where the qualified
/// identifier ended; a `#` with fewer than eight valid hex digits after it is
/// a hard failure, never treated as "tag absent".
pub open spec fn full_ident_post(
    s: Seq<u8>,
    pos: int,
    r: Result<(usize, Vec<u8>, Option<Vec<u8>>, Option<Vec<u8>>), LexError>,
) -> bool {
    let (e, n, m) = qualified_values(QualifiedVariant::Lower, s, pos);
    if qualified_ok(QualifiedVariant::Lower, s, pos) {
        if hash_at(s, e) {
            if hex_tag_at(s, e + 1) {
                &&& r matches Ok((end, name, ns, tag))
                &&& end == e + 9
                &&& consumes(s.len() as int, pos, end as int)
                &&& name@ == n
                &&& (match (ns, m) {
                    (Some(nsv), Some(msv)) => nsv@ == msv,
                    (None, None) => true,
                    _ => false,
                })
                &&& (tag matches Some(t) && t@ == s.subrange(e + 1, e + 9))
            } else {
                r == Err::<(usize, Vec<u8>, Option<Vec<u8>>, Option<Vec<u8>>), LexError>(
                    LexError::Malformed,
                )
            }
        } else {
            &&& r matches Ok((end, name, ns, tag))
            &&& end == e
            &&& consumes(s.len() as int, pos, end as int)
            &&& name@ == n
            &&& (match (ns, m) {
                (Some(nsv), Some(msv)) => nsv@ == msv,
                (None, None) => true,
                _ => false,
            })
            &&& tag is None
        }
    } else {
        &&& r matches Err(err)
        &&& (err == LexError::Unmatched <==> !lc_letter_at(s, pos))
        &&& (err == LexError::Unmatched || err == LexError::Malformed)
    }
}

/// Recognizes a full identifier: a lowercase qualified identifier plus an
/// optional `#` followed by exactly eight lowercase hex digits (a declared
/// 32-bit content hash). Yields the name, the namespace when present, and the
/// tag when present.
pub fn lc_ident_full(s: &[u8], pos: usize) -> (r: Result<
    (usize, Vec<u8>, Option<Vec<u8>>, Option<Vec<u8>>),
    LexError,
>)
    requires
        pos <= s@.len(),
    ensures
        full_ident_post(s@, pos as int, r),
{
    match qualified(QualifiedVariant::Lower, s, pos) {
        Err(e) => Err(e),
        Ok((e1, name, ns)) => {
            if e1 < s.len() && s[e1] == HASH {
                if check_hex_tag(s, e1 + 1) {
                    let tag = copy_range(s, e1 + 1, e1 + 9);
                    Ok((e1 + 9, name, ns, Some(tag)))
                } else {
                    Err(LexError::Malformed)
                }
            } else {
                Ok((e1, name, ns, None))
            }
        },
    }
}

} // verus!
