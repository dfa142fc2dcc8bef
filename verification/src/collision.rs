//! The test of a circle against an axis-aligned rectangle.
//!
//! The point of the rectangle nearest to the circle's centre is found by
//! clamping the centre into the rectangle, one coordinate at a time. The
//! circle touches the rectangle when that point is nearer to the centre
//! than the radius; a circle that is exactly tangent does not.

use vstd::prelude::*;

use crate::level::CollisionResult;
use crate::math::{direction_of, dominant_direction, IntVec2, Vector2};

verus! {

/// `v` moved into the interval from `low` to `high` by the shortest way.
pub open spec fn clamp_int(v: int, low: int, high: int) -> int {
    if v < low {
        low
    } else if v > high {
        high
    } else {
        v
    }
}

/// The point nearest to `center` in the rectangle whose corner of least
/// coordinates is `position` and whose extent is `size`.
pub open spec fn closest_point(center: IntVec2, position: IntVec2, size: IntVec2) -> IntVec2 {
    IntVec2 {
        x: clamp_int(center.x, position.x, position.x + size.x),
        y: clamp_int(center.y, position.y, position.y + size.y),
    }
}

/// The penetration vector: from the circle's centre to the nearest point
/// of the rectangle.
pub open spec fn penetration(center: IntVec2, position: IntVec2, size: IntVec2) -> IntVec2 {
    closest_point(center, position, size).minus(center)
}

/// Whether the circle reaches into the rectangle: the penetration vector
/// is strictly shorter than the radius.
pub open spec fn circle_overlaps(
    center: IntVec2,
    radius: int,
    position: IntVec2,
    size: IntVec2,
) -> bool {
    &&& radius > 0
    &&& penetration(center, position, size).norm_squared() < radius * radius
}

/// Tests the circle of the given centre and radius against the rectangle
/// at `position` with extent `size`.
///
/// A hit carries the penetration vector and the compass direction it
/// points along most. Where the centre lies in the rectangle that vector
/// is zero, all four directions tie, and the hit is reported as `Up`.
pub fn circle_rectangle_collision(
    center: Vector2,
    radius: i64,
    position: Vector2,
    size: Vector2,
) -> (r: CollisionResult)
    ensures
        match r {
            CollisionResult::Hit(direction, delta) => {
                &&& circle_overlaps(center@, radius as int, position@, size@)
                &&& delta@ == penetration(center@, position@, size@)
                &&& direction == dominant_direction(delta@)
            },
            CollisionResult::Miss => !circle_overlaps(center@, radius as int, position@, size@),
        },
        radius > 0 && position.x <= center.x <= position.x + size.x && position.y <= center.y
            <= position.y + size.y ==> r is Hit,
        size.x >= 0 && size.y >= 0 && (center.x < position.x - radius || center.x > position.x
            + size.x + radius) && (center.y < position.y - radius || center.y > position.y
            + size.y + radius) ==> r is Miss,
{
    proof {
        if radius > 0 && position.x <= center.x <= position.x + size.x && position.y <= center.y
            <= position.y + size.y {
            center_inside_always_hits(center@, radius as int, position@, size@);
        }
        if size.x >= 0 && size.y >= 0 && (center.x < position.x - radius || center.x > position.x
            + size.x + radius) && (center.y < position.y - radius || center.y > position.y
            + size.y + radius) {
            separated_on_every_axis_misses(center@, radius as int, position@, size@);
        }
    }
    let dx: i128 = clamp_wide(center.x, position.x, size.x) - center.x as i128;
    let dy: i128 = clamp_wide(center.y, position.y, size.y) - center.y as i128;
    let r: i128 = radius as i128;
    if r <= 0 {
        return CollisionResult::Miss;
    }
    if dx >= r || dx <= -r || dy >= r || dy <= -r {
        proof {
            lemma_long_coordinate(dx as int, dy as int, r as int);
        }
        return CollisionResult::Miss;
    }
    proof {
        lemma_square_bound(dx as int, r as int);
        lemma_square_bound(dy as int, r as int);
        lemma_square_bound(r as int - 1, r as int);
    }
    assert(r * r <= 0x4000_0000_0000_0000_0000_0000_0000_0000) by (nonlinear_arith)
        requires
            0 < r <= 0x8000_0000_0000_0000,
    ;
    if dx * dx + dy * dy < r * r {
        let delta = Vector2 { x: dx as i64, y: dy as i64 };
        CollisionResult::Hit(direction_of(delta.x, delta.y), delta)
    } else {
        CollisionResult::Miss
    }
}

/// `v` clamped into the interval that starts at `low` and is `extent` long.
fn clamp_wide(v: i64, low: i64, extent: i64) -> (c: i128)
    ensures
        c == clamp_int(v as int, low as int, low + extent),
{
    let high: i128 = low as i128 + extent as i128;
    if v < low {
        low as i128
    } else if v as i128 > high {
        high
    } else {
        v as i128
    }
}

/// A vector with a coordinate at least as long as `r` is at least as long
/// as `r` itself.
proof fn lemma_long_coordinate(dx: int, dy: int, r: int)
    by (nonlinear_arith)
    requires
        r > 0,
        dx >= r || dx <= -r || dy >= r || dy <= -r,
    ensures
        dx * dx + dy * dy >= r * r,
{
}

/// The square of a number strictly between `-r` and `r` is below that of `r`.
proof fn lemma_square_bound(d: int, r: int)
    by (nonlinear_arith)
    requires
        -r < d < r,
    ensures
        0 <= d * d <= (r - 1) * (r - 1),
        (r - 1) * (r - 1) < r * r,
{
}

/// A circle of positive radius whose centre lies in the rectangle, its
/// boundary included, always overlaps it, and its penetration vector is
/// zero.
pub proof fn center_inside_always_hits(
    center: IntVec2,
    radius: int,
    position: IntVec2,
    size: IntVec2,
)
    requires
        radius > 0,
        position.x <= center.x <= position.x + size.x,
        position.y <= center.y <= position.y + size.y,
    ensures
        penetration(center, position, size).is_zero(),
        circle_overlaps(center, radius, position, size),
{
    let delta = penetration(center, position, size);
    assert(delta.x == 0 && delta.y == 0);
    assert(delta.norm_squared() < radius * radius) by (nonlinear_arith)
        requires
            radius > 0,
            delta.x == 0,
            delta.y == 0,
    ;
}

/// A circle whose centre is at least a radius away from the rectangle
/// along one of the two axes does not overlap it.
pub proof fn separation_on_one_axis_misses(
    center: IntVec2,
    radius: int,
    position: IntVec2,
    size: IntVec2,
)
    requires
        size.x >= 0,
        size.y >= 0,
        ({
            ||| center.x <= position.x - radius
            ||| center.x >= position.x + size.x + radius
            ||| center.y <= position.y - radius
            ||| center.y >= position.y + size.y + radius
        }),
    ensures
        !circle_overlaps(center, radius, position, size),
{
    if radius > 0 {
        let delta = penetration(center, position, size);
        lemma_long_coordinate(delta.x, delta.y, radius);
    }
}

/// A circle whose centre is more than a radius away from the rectangle
/// along both axes does not overlap it.
pub proof fn separated_on_every_axis_misses(
    center: IntVec2,
    radius: int,
    position: IntVec2,
    size: IntVec2,
)
    requires
        size.x >= 0,
        size.y >= 0,
        center.x < position.x - radius || center.x > position.x + size.x + radius,
        center.y < position.y - radius || center.y > position.y + size.y + radius,
    ensures
        !circle_overlaps(center, radius, position, size),
{
    separation_on_one_axis_misses(center, radius, position, size);
}

/// The nearest point is the rectangle's centre moved by the offset of the
/// circle's centre from it, that offset clamped to the half extents. All
/// lengths are doubled here, so that the centre and the half extents of a
/// rectangle of odd extent are whole numbers too.
pub proof fn closest_point_by_half_extents(center: IntVec2, position: IntVec2, size: IntVec2)
    requires
        size.x >= 0,
        size.y >= 0,
    ensures
        ({
            let middle = position.scaled(2).plus(size);
            let offset = center.scaled(2).minus(middle);
            let clamped = IntVec2 {
                x: clamp_int(offset.x, -size.x, size.x),
                y: clamp_int(offset.y, -size.y, size.y),
            };
            closest_point(center, position, size).scaled(2) == middle.plus(clamped)
        }),
{
}

} // verus!
