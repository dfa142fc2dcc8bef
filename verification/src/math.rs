//! Plane vectors over whole length units and the compass classifier.

use vstd::prelude::*;

use crate::error::GameError;
use crate::level::Direction;

verus! {

/// A vector of the plane with unbounded whole coordinates: what a
/// [`Vector2`] stands for in contracts.
pub struct IntVec2 {
    pub x: int,
    pub y: int,
}

impl IntVec2 {
    /// The sum of two vectors.
    pub open spec fn plus(self, other: IntVec2) -> IntVec2 {
        IntVec2 { x: self.x + other.x, y: self.y + other.y }
    }

    /// The difference of two vectors.
    pub open spec fn minus(self, other: IntVec2) -> IntVec2 {
        IntVec2 { x: self.x - other.x, y: self.y - other.y }
    }

    /// The vector stretched by a whole factor.
    pub open spec fn scaled(self, factor: int) -> IntVec2 {
        IntVec2 { x: self.x * factor, y: self.y * factor }
    }

    /// The dot product of two vectors.
    pub open spec fn dot(self, other: IntVec2) -> int {
        self.x * other.x + self.y * other.y
    }

    /// The square of the vector's length.
    pub open spec fn norm_squared(self) -> int {
        self.x * self.x + self.y * self.y
    }

    /// Whether both coordinates are zero.
    pub open spec fn is_zero(self) -> bool {
        self.x == 0 && self.y == 0
    }

    /// Whether both coordinates can be held in a [`Vector2`].
    pub open spec fn representable(self) -> bool {
        &&& i64::MIN <= self.x <= i64::MAX
        &&& i64::MIN <= self.y <= i64::MAX
    }
}

/// No vector has a negative length.
pub proof fn norm_squared_is_nonnegative(v: IntVec2)
    by (nonlinear_arith)
    ensures
        v.norm_squared() >= 0,
{
}

/// A vector of the plane whose coordinates count thousandths of a pixel
/// (or, for a velocity, pixels per second).
#[derive(Clone, Copy, Debug, PartialEq, Eq, Structural)]
pub struct Vector2 {
    pub x: i64,
    pub y: i64,
}

impl View for Vector2 {
    type V = IntVec2;

    open spec fn view(&self) -> IntVec2 {
        IntVec2 { x: self.x as int, y: self.y as int }
    }
}

impl Vector2 {
    /// The vector with the given coordinates.
    pub fn new(x: i64, y: i64) -> (v: Vector2)
        ensures
            v == (Vector2 { x, y }),
    {
        Vector2 { x, y }
    }
}

/// The unit vector of a compass direction. `Up` is the direction of
/// growing `y`.
pub open spec fn compass(direction: Direction) -> IntVec2 {
    match direction {
        Direction::Up => IntVec2 { x: 0, y: 1 },
        Direction::Right => IntVec2 { x: 1, y: 0 },
        Direction::Down => IntVec2 { x: 0, y: -1 },
        Direction::Left => IntVec2 { x: -1, y: 0 },
    }
}

/// The place of a direction in the order in which ties are broken:
/// up, right, down, left.
pub open spec fn compass_rank(direction: Direction) -> int {
    match direction {
        Direction::Up => 0,
        Direction::Right => 1,
        Direction::Down => 2,
        Direction::Left => 3,
    }
}

/// How far `v` reaches along a compass direction: the dot product with the
/// direction's unit vector.
///
/// Dividing `v` by its length divides all four of these by the same
/// positive number, so the direction that is largest here is also the one
/// that is largest for the normalised vector.
pub open spec fn alignment(direction: Direction, v: IntVec2) -> int {
    compass(direction).dot(v)
}

/// Whether `direction` is the first of the compass directions, in tie-break
/// order, along which `v` reaches furthest.
pub open spec fn is_dominant(direction: Direction, v: IntVec2) -> bool {
    forall|other: Direction|
        {
            &&& #[trigger] alignment(other, v) <= alignment(direction, v)
            &&& compass_rank(other) < compass_rank(direction) ==> alignment(other, v)
                < alignment(direction, v)
        }
}

/// The larger of two integers.
pub open spec fn max_int(a: int, b: int) -> int {
    if a >= b {
        a
    } else {
        b
    }
}

/// The compass direction along which `v` reaches furthest, the earliest in
/// tie-break order if several do.
pub open spec fn dominant_direction(v: IntVec2) -> Direction {
    let best = max_int(max_int(v.y, v.x), max_int(-v.y, -v.x));
    if v.y == best {
        Direction::Up
    } else if v.x == best {
        Direction::Right
    } else if -v.y == best {
        Direction::Down
    } else {
        Direction::Left
    }
}

/// [`dominant_direction`] names a direction that is dominant, and no other
/// direction is.
pub proof fn dominant_direction_is_first_maximum(v: IntVec2, direction: Direction)
    ensures
        is_dominant(dominant_direction(v), v),
        is_dominant(direction, v) ==> direction == dominant_direction(v),
{
    let chosen = dominant_direction(v);
    assert forall|other: Direction|
        {
            &&& #[trigger] alignment(other, v) <= alignment(chosen, v)
            &&& compass_rank(other) < compass_rank(chosen) ==> alignment(other, v) < alignment(
                chosen,
                v,
            )
        } by {
        lemma_alignment_values(v);
    }
    if is_dominant(direction, v) {
        lemma_alignment_values(v);
        assert(alignment(chosen, v) <= alignment(direction, v));
        assert(alignment(direction, v) <= alignment(chosen, v));
    }
}

/// The four alignments of a vector are its coordinates and their negations.
proof fn lemma_alignment_values(v: IntVec2)
    ensures
        alignment(Direction::Up, v) == v.y,
        alignment(Direction::Right, v) == v.x,
        alignment(Direction::Down, v) == -v.y,
        alignment(Direction::Left, v) == -v.x,
{
}

/// Classifies a vector by the compass direction it points along most.
///
/// The zero vector has no direction and is refused.
pub fn calculate_vector_direction(target: &Vector2) -> (r: Result<Direction, GameError>)
    ensures
        target@.is_zero() ==> r == Err::<Direction, GameError>(GameError::InvalidArgument),
        !target@.is_zero() ==> r == Ok::<Direction, GameError>(dominant_direction(target@)),
        target.x == 0 && target.y > 0 ==> r == Ok::<Direction, GameError>(Direction::Up),
        target.x == 0 && target.y < 0 ==> r == Ok::<Direction, GameError>(Direction::Down),
        target.y == 0 && target.x < 0 ==> r == Ok::<Direction, GameError>(Direction::Left),
        target.y == 0 && target.x > 0 ==> r == Ok::<Direction, GameError>(Direction::Right),
{
    if target.x == 0 && target.y == 0 {
        return Err(GameError::InvalidArgument);
    }
    Ok(direction_of(target.x, target.y))
}

/// The dominant direction of the vector `(x, y)`, defined for the zero
/// vector too, where all four directions tie and `Up` comes first.
pub fn direction_of(x: i64, y: i64) -> (d: Direction)
    ensures
        d == dominant_direction(IntVec2 { x: x as int, y: y as int }),
{
    let sum: i128 = x as i128 + y as i128;
    if y >= x && sum >= 0 {
        Direction::Up
    } else if x >= y && sum >= 0 {
        Direction::Right
    } else if x >= y {
        Direction::Down
    } else {
        Direction::Left
    }
}

/// The whole part of the square root of `n`: the greatest whole number
/// whose square does not exceed `n`, and `0` for a negative `n`.
pub open spec fn floor_sqrt(n: int) -> int
    decreases n,
{
    if n <= 0 {
        0
    } else {
        let below = floor_sqrt(n - 1);
        if (below + 1) * (below + 1) <= n {
            below + 1
        } else {
            below
        }
    }
}

/// Whether `root` is the whole part of the square root of `n`.
pub open spec fn is_floor_sqrt(n: int, root: int) -> bool {
    &&& 0 <= root
    &&& root * root <= n
    &&& n < (root + 1) * (root + 1)
}

/// [`floor_sqrt`] of a number that is not negative is the whole part of
/// its square root.
pub proof fn floor_sqrt_is_root(n: int)
    requires
        0 <= n,
    ensures
        is_floor_sqrt(n, floor_sqrt(n)),
    decreases n,
{
    if n > 0 {
        floor_sqrt_is_root(n - 1);
        let below = floor_sqrt(n - 1);
        lemma_square_order(below + 1, below + 1);
    }
}

/// Only one number is the whole part of the square root of `n`.
pub proof fn floor_sqrt_is_unique(n: int, root: int)
    requires
        is_floor_sqrt(n, root),
    ensures
        root == floor_sqrt(n),
{
    floor_sqrt_is_root(n);
    let other = floor_sqrt(n);
    lemma_square_order(root, other);
    lemma_square_order(other, root);
}

/// A number that is not negative and below another has a square below
/// that one's, even after one is added to it.
proof fn lemma_square_order(a: int, b: int)
    by (nonlinear_arith)
    requires
        0 <= a,
        0 <= b,
    ensures
        a < b ==> (a + 1) * (a + 1) <= b * b,
        a <= b ==> a * a <= b * b,
        a * a < (a + 1) * (a + 1),
{
}

/// The whole part of the square root of `n`.
pub fn integer_sqrt(n: u128) -> (root: u64)
    ensures
        root == floor_sqrt(n as int),
        is_floor_sqrt(n as int, root as int),
{
    let mut low: u128 = 0;
    let mut high: u128 = 0x1_0000_0000_0000_0000;
    assert(0x1_0000_0000_0000_0000int * 0x1_0000_0000_0000_0000int
        == 0x1_0000_0000_0000_0000_0000_0000_0000_0000int) by (nonlinear_arith);
    while high - low > 1
        invariant
            0 <= low < high <= 0x1_0000_0000_0000_0000,
            low * low <= n,
            n < high * high,
        decreases high - low,
    {
        let middle: u128 = low + (high - low) / 2;
        proof {
            lemma_square_order(middle as int, 0xffff_ffff_ffff_ffff);
            assert(0xffff_ffff_ffff_ffffint * 0xffff_ffff_ffff_ffffint
                < 0x1_0000_0000_0000_0000_0000_0000_0000_0000int) by (nonlinear_arith);
        }
        if middle * middle <= n {
            low = middle;
        } else {
            high = middle;
        }
    }
    proof {
        floor_sqrt_is_unique(n as int, low as int);
    }
    low as u64
}

/// `a` divided by a positive `b`, rounded away from zero.
pub open spec fn quotient_away_from_zero(a: int, b: int) -> int {
    if a >= 0 {
        (a + b - 1) / b
    } else {
        -((-a + b - 1) / b)
    }
}

} // verus!
