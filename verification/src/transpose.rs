//! The transpose suggestion: which transpose and octave setting brings a
//! note that lies outside the playable range back to its boundary.
//!
//! Five candidates are weighed, one for each octave shift from -2 to 2. A
//! candidate's score is the sum of the absolute transpose and the absolute
//! octave, less one half where the absolute transpose is 5, 6 or 7. Scores
//! are kept doubled here, so that they stay integers.

use vstd::prelude::*;

verus! {

/// The absolute value of an integer.
pub open spec fn magnitude(v: int) -> int {
    if v < 0 {
        -v
    } else {
        v
    }
}

/// The setting that an octave shift leads to: the octave moves by `shift`,
/// and the transpose makes up the rest of `diff`.
pub open spec fn candidate(diff: int, transpose: int, octave: int, shift: int) -> (int, int) {
    (transpose + (diff - 12 * shift), octave + shift)
}

/// Twice the score of a setting; lower is better.
pub open spec fn doubled_score(setting: (int, int)) -> int {
    2 * (magnitude(setting.0) + magnitude(setting.1)) - if 5 <= magnitude(setting.0) <= 7 {
        1int
    } else {
        0int
    }
}

/// Twice the score of the candidate for `shift`.
#[verifier::opaque]
pub open spec fn shift_score(diff: int, transpose: int, octave: int, shift: int) -> int {
    doubled_score(candidate(diff, transpose, octave, shift))
}

/// `shift` is the best octave shift: none of the five scores lower, and
/// every lower shift scores strictly higher.
pub open spec fn is_best_shift(diff: int, transpose: int, octave: int, shift: int) -> bool {
    &&& -2 <= shift <= 2
    &&& forall|other: int|
        -2 <= other <= 2 ==> shift_score(diff, transpose, octave, shift) <= #[trigger] shift_score(
            diff,
            transpose,
            octave,
            other,
        )
    &&& forall|other: int|
        -2 <= other < shift ==> shift_score(diff, transpose, octave, shift) < #[trigger] shift_score(
            diff,
            transpose,
            octave,
            other,
        )
}

/// The better of two shifts, the first winning a tie.
pub open spec fn better_shift(diff: int, transpose: int, octave: int, first: int, second: int) -> int {
    if shift_score(diff, transpose, octave, second) < shift_score(diff, transpose, octave, first) {
        second
    } else {
        first
    }
}

/// The best octave shift, found by weighing the five in ascending order.
pub open spec fn best_shift(diff: int, transpose: int, octave: int) -> int {
    let a = better_shift(diff, transpose, octave, -2, -1);
    let b = better_shift(diff, transpose, octave, a, 0);
    let c = better_shift(diff, transpose, octave, b, 1);
    better_shift(diff, transpose, octave, c, 2)
}

/// The suggested setting: the candidate of the best octave shift.
pub open spec fn suggestion(diff: int, transpose: int, octave: int) -> (int, int) {
    candidate(diff, transpose, octave, best_shift(diff, transpose, octave))
}

/// The shift that the ascending scan finds is the best one, and no other
/// shift is.
pub proof fn lemma_best_shift(diff: int, transpose: int, octave: int, shift: int)
    ensures
        is_best_shift(diff, transpose, octave, best_shift(diff, transpose, octave)),
        is_best_shift(diff, transpose, octave, shift) ==> shift == best_shift(
            diff,
            transpose,
            octave,
        ),
{
    let best = best_shift(diff, transpose, octave);
    assert(is_best_shift(diff, transpose, octave, best));
    if is_best_shift(diff, transpose, octave, shift) && shift != best {
        if shift < best {
            assert(shift_score(diff, transpose, octave, best) < shift_score(
                diff,
                transpose,
                octave,
                shift,
            ));
        } else {
            assert(shift_score(diff, transpose, octave, shift) < shift_score(
                diff,
                transpose,
                octave,
                best,
            ));
        }
    }
}

/// The five candidates can be computed in 32 bits.
pub open spec fn suggestion_fits(diff: int, transpose: int, octave: int) -> bool {
    &&& i32::MIN + 24 <= diff <= i32::MAX - 24
    &&& i32::MIN < transpose + diff - 24
    &&& transpose + diff + 24 <= i32::MAX
    &&& i32::MIN < octave - 2
    &&& octave + 2 <= i32::MAX
}

fn score_of(diff: i32, transpose: i32, octave: i32, shift: i32) -> (score: i64)
    requires
        suggestion_fits(diff as int, transpose as int, octave as int),
        -2 <= shift <= 2,
    ensures
        score == shift_score(diff as int, transpose as int, octave as int, shift as int),
{
    proof {
        reveal(shift_score);
    }
    let final_transpose: i64 = transpose as i64 + (diff as i64 - 12 * (shift as i64));
    let final_octave: i64 = octave as i64 + shift as i64;
    let t: i64 = if final_transpose < 0 {
        -final_transpose
    } else {
        final_transpose
    };
    let o: i64 = if final_octave < 0 {
        -final_octave
    } else {
        final_octave
    };
    if 5 <= t && t <= 7 {
        2 * (t + o) - 1
    } else {
        2 * (t + o)
    }
}

/// Suggests the transpose and octave setting that makes up `diff` semitones
/// from the current setting at the lowest score; of equal scores, the one
/// with the lowest octave shift.
pub fn optimize_transpose_suggestion(diff: i32, current_transpose: i32, current_octave: i32) -> (best:
    Option<(i32, i32)>)
    requires
        suggestion_fits(diff as int, current_transpose as int, current_octave as int),
    ensures
        best matches Some(setting) && (setting.0 as int, setting.1 as int) == suggestion(
            diff as int,
            current_transpose as int,
            current_octave as int,
        ),
        is_best_shift(
            diff as int,
            current_transpose as int,
            current_octave as int,
            best_shift(diff as int, current_transpose as int, current_octave as int),
        ),
{
    let mut best_shift_found: i32 = -2;
    let mut best_score: i64 = score_of(diff, current_transpose, current_octave, -2);
    let mut shift: i32 = -1;
    while shift <= 2
        invariant
            -1 <= shift <= 3,
            -2 <= best_shift_found < shift,
            suggestion_fits(diff as int, current_transpose as int, current_octave as int),
            best_score == shift_score(
                diff as int,
                current_transpose as int,
                current_octave as int,
                best_shift_found as int,
            ),
            shift == -1 ==> best_shift_found == -2,
            shift == 0 ==> best_shift_found == better_shift(
                diff as int,
                current_transpose as int,
                current_octave as int,
                -2,
                -1,
            ),
            shift == 1 ==> best_shift_found == better_shift(
                diff as int,
                current_transpose as int,
                current_octave as int,
                better_shift(diff as int, current_transpose as int, current_octave as int, -2, -1),
                0,
            ),
            shift == 2 ==> best_shift_found == better_shift(
                diff as int,
                current_transpose as int,
                current_octave as int,
                better_shift(
                    diff as int,
                    current_transpose as int,
                    current_octave as int,
                    better_shift(
                        diff as int,
                        current_transpose as int,
                        current_octave as int,
                        -2,
                        -1,
                    ),
                    0,
                ),
                1,
            ),
            shift == 3 ==> best_shift_found == best_shift(
                diff as int,
                current_transpose as int,
                current_octave as int,
            ),
        decreases 3 - shift,
    {
        let score: i64 = score_of(diff, current_transpose, current_octave, shift);
        if score < best_score {
            best_score = score;
            best_shift_found = shift;
        }
        shift = shift + 1;
    }
    proof {
        lemma_best_shift(diff as int, current_transpose as int, current_octave as int, 0);
    }
    Some(
        (
            current_transpose + (diff - 12 * best_shift_found),
            current_octave + best_shift_found,
        ),
    )
}

} // verus!
