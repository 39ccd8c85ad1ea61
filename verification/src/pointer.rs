//! Pointer targets: the small random offset that a click lands with.

use rand::Rng;
use vstd::prelude::*;

verus! {

/// The farthest a click may land from its target on either axis, in pixels.
pub const MAX_OFFSET: i32 = 5;

/// Draws an integer from `low` to `high`, both included, with
/// `rand::thread_rng` and `Rng::gen_range`. The contract claims only that
/// the draw lies in the range; two draws may differ.
#[verifier::external_body]
fn random_between(low: i32, high: i32) -> (drawn: i32)
    requires
        low <= high,
    ensures
        low <= drawn <= high,
{
    rand::thread_rng().gen_range(low..=high)
}

/// Both coordinates leave room for the offset.
pub open spec fn offset_fits(x: i32, y: i32) -> bool {
    &&& i32::MIN + MAX_OFFSET <= x <= i32::MAX - MAX_OFFSET
    &&& i32::MIN + MAX_OFFSET <= y <= i32::MAX - MAX_OFFSET
}

/// Moves a point by an offset on each axis.
pub fn offset_coordinate(x: i32, y: i32, offset_x: i32, offset_y: i32) -> (moved: (i32, i32))
    requires
        offset_fits(x, y),
        -MAX_OFFSET <= offset_x <= MAX_OFFSET,
        -MAX_OFFSET <= offset_y <= MAX_OFFSET,
    ensures
        moved.0 == x + offset_x,
        moved.1 == y + offset_y,
{
    (x + offset_x, y + offset_y)
}

/// Moves a point by a random offset of at most `MAX_OFFSET` pixels on each
/// axis.
pub fn add_coordinate_offset(x: i32, y: i32) -> (moved: (i32, i32))
    requires
        offset_fits(x, y),
    ensures
        x - MAX_OFFSET <= moved.0 <= x + MAX_OFFSET,
        y - MAX_OFFSET <= moved.1 <= y + MAX_OFFSET,
{
    let offset_x: i32 = random_between(-MAX_OFFSET, MAX_OFFSET);
    let offset_y: i32 = random_between(-MAX_OFFSET, MAX_OFFSET);
    offset_coordinate(x, y, offset_x, offset_y)
}

} // verus!
