//! Angles in whole microdegrees and their wrap into one turn.
use vstd::prelude::*;

verus! {

/// One full turn, 360 degrees, in microdegrees.
pub const FULL_TURN: i64 = 360_000_000;

/// Half a turn, 180 degrees, in microdegrees.
pub const HALF_TURN: i64 = 180_000_000;

/// A quarter turn, 90 degrees, in microdegrees.
pub const QUARTER_TURN: i64 = 90_000_000;

/// The representative of `angle` in the half-open range from minus half a
/// turn (excluded) to half a turn (included).
pub open spec fn wrap(angle: int) -> int {
    let r = angle % 360_000_000;
    if r > HALF_TURN {
        r - FULL_TURN
    } else {
        r
    }
}

/// Whether two angles name the same direction.
pub open spec fn same_direction(a: int, b: int) -> bool {
    (a - b) % 360_000_000 == 0
}

/// The signed rotation that leads from `from` to `to` the short way round.
pub open spec fn delta(from: int, to: int) -> int {
    wrap(to - from)
}

/// The unsigned angle between two headings, at most half a turn.
pub open spec fn distance(a: int, b: int) -> int {
    let d = delta(a, b);
    if d < 0 {
        -d
    } else {
        d
    }
}

/// Wraps `angle` into the range from minus half a turn (excluded) to half a
/// turn (included).
pub fn normalize(angle: i64) -> (r: i64)
    ensures
        r == wrap(angle as int),
        -HALF_TURN < r <= HALF_TURN,
        same_direction(r as int, angle as int),
{
    let r: i64 = match angle.checked_rem_euclid(FULL_TURN) {
        Some(r) => r,
        None => 0,
    };
    if r > HALF_TURN {
        r - FULL_TURN
    } else {
        r
    }
}

/// The signed rotation from `from` to `to`, wrapped into the range from minus
/// half a turn (excluded) to half a turn (included). Neither argument needs to
/// be normalized.
pub fn angular_delta(from: i64, to: i64) -> (d: i64)
    ensures
        d == delta(from as int, to as int),
        -HALF_TURN < d <= HALF_TURN,
{
    let a: i64 = normalize(to);
    let b: i64 = normalize(from);
    let diff: i64 = a - b;
    normalize(diff)
}

/// The unsigned angle between two headings.
pub fn angular_distance(a: i64, b: i64) -> (d: i64)
    ensures
        d == distance(a as int, b as int),
        0 <= d <= HALF_TURN,
{
    let d: i64 = angular_delta(a, b);
    if d < 0 {
        -d
    } else {
        d
    }
}

/// The heading opposite to `angle`, normalized.
pub fn opposite(angle: i64) -> (r: i64)
    ensures
        r == wrap(angle as int + HALF_TURN as int),
        -HALF_TURN < r <= HALF_TURN,
        same_direction(r as int, angle as int + HALF_TURN as int),
{
    let a: i64 = normalize(angle);
    normalize(a + HALF_TURN)
}

} // verus!
