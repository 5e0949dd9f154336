//! Scores on a fixed, saturating signed scale. The scale is the symmetric
//! range `[SCORE_LOSS, SCORE_WIN]`; its two extreme values are sentinels:
//! `SCORE_WIN` means a forced win for the side to move and `SCORE_LOSS` a
//! forced loss. Negation saturates instead of wrapping, so it never
//! overflows: on the scale it maps each sentinel exactly onto the other
//! and is an involution.

use vstd::prelude::*;

verus! {

/// Sentinel for a forced win for the side to move: the maximum score.
pub const SCORE_WIN: i64 = i64::MAX;

/// Sentinel for a forced loss for the side to move: the minimum score.
/// The scale leaves out `i64::MIN` so that every score has an exact
/// negation.
pub const SCORE_LOSS: i64 = -i64::MAX;

/// A value on the score scale.
pub open spec fn valid_score(x: i64) -> bool {
    SCORE_LOSS <= x <= SCORE_WIN
}

/// Saturating negation: exact on the whole score scale, and clamping the
/// one `i64` below it instead of overflowing.
pub open spec fn neg_score(x: i64) -> i64 {
    if x == i64::MIN {
        i64::MAX
    } else {
        (-x) as i64
    }
}

/// Executable saturating negation; never panics or wraps.
pub fn score_neg(x: i64) -> (r: i64)
    ensures
        r == neg_score(x),
        valid_score(r),
{
    if x == i64::MIN {
        i64::MAX
    } else {
        -x
    }
}

/// On the score scale, negation is an involution: negating twice gives
/// the value back.
pub proof fn lemma_neg_score_involutive(x: i64)
    requires
        valid_score(x),
    ensures
        neg_score(neg_score(x)) == x,
{
}

/// Negation maps each sentinel exactly onto the other: negating the
/// maximum representable score yields the minimum representable score,
/// and vice versa.
pub proof fn lemma_neg_score_sentinels()
    ensures
        neg_score(SCORE_WIN) == SCORE_LOSS,
        neg_score(SCORE_LOSS) == SCORE_WIN,
{
}

/// On the score scale, negation is strictly antitone, so it flips the
/// order of a search window without collapsing it.
pub proof fn lemma_neg_score_antitone(x: i64, y: i64)
    requires
        valid_score(x),
        valid_score(y),
        x < y,
    ensures
        neg_score(y) < neg_score(x),
{
}

} // verus!
