//! The ball: at rest on the paddle until it is launched, then moving
//! freely and bouncing off the left, right and top walls and off bricks.

use vstd::prelude::*;

use crate::collision::{circle_overlaps, penetration};
use crate::entity::{Color, Drawable, EntityKind, Sprite};
use crate::error::GameError;
use crate::level::Direction;
use crate::math::{
    floor_sqrt, floor_sqrt_is_root, integer_sqrt, norm_squared_is_nonnegative,
    quotient_away_from_zero, IntVec2, Vector2,
};
use crate::ARENA_WIDTH;

verus! {

/// The radius of the ball of a new game.
pub const BALL_RADIUS: i64 = 12_500;

/// The horizontal speed with which the ball of a new game is launched.
pub const BALL_SPEED_X: i64 = 100;

/// The vertical speed with which the ball of a new game is launched.
pub const BALL_SPEED_Y: i64 = -350;

/// The largest radius a ball can have: half the largest length, so that
/// the ball's diameter is a length.
pub const MAX_RADIUS: i64 = 0x3fff_ffff_ffff_ffff;

/// The distance of `v` from zero.
pub open spec fn magnitude(v: int) -> int {
    if v >= 0 {
        v
    } else {
        -v
    }
}

/// A velocity after a bounce off something that lies in the given
/// direction: up and down turn the vertical part round, left and right
/// the horizontal part.
pub open spec fn reflected(velocity: IntVec2, direction: Direction) -> IntVec2 {
    match direction {
        Direction::Up | Direction::Down => IntVec2 { x: velocity.x, y: -velocity.y },
        Direction::Left | Direction::Right => IntVec2 { x: -velocity.x, y: velocity.y },
    }
}

/// The vector by which a ball is set back after a hit: the penetration
/// vector, scaled so that its length becomes what the penetration falls
/// short of the radius. The penetration's length is taken to the whole
/// unit below and quotients are rounded away from zero, so that the ball
/// is set back by no less than the shortfall. Nothing is set back where
/// the penetration has no direction or does not fall short of the radius.
pub open spec fn push_out(penetration: IntVec2, radius: int) -> IntVec2 {
    let length = floor_sqrt(penetration.norm_squared());
    if 0 < length < radius {
        IntVec2 {
            x: quotient_away_from_zero(penetration.x * (radius - length), length),
            y: quotient_away_from_zero(penetration.y * (radius - length), length),
        }
    } else {
        IntVec2 { x: 0, y: 0 }
    }
}

/// What a [`Ball`] is, as plain values.
pub struct BallModel {
    /// Where the ball is.
    pub position: IntVec2,
    /// How fast the ball moves once it is free, in pixels per second.
    pub velocity: IntVec2,
    /// The radius of the ball.
    pub radius: int,
    /// Whether the ball still rests on the paddle.
    pub stuck: bool,
}

impl BallModel {
    /// The radius is a length of which the double is a length too, and
    /// each part of the velocity can be turned round.
    pub open spec fn wf(self) -> bool {
        &&& 0 <= self.radius <= MAX_RADIUS
        &&& -i64::MAX <= self.velocity.x <= i64::MAX
        &&& -i64::MAX <= self.velocity.y <= i64::MAX
    }

    /// The extent of the ball's picture: its diameter both ways.
    pub open spec fn size(self) -> IntVec2 {
        IntVec2 { x: 2 * self.radius, y: 2 * self.radius }
    }

    /// The ball after its launch.
    pub open spec fn released(self) -> BallModel {
        BallModel { stuck: false, ..self }
    }

    /// The ball after the paddle has moved by `by`: a ball at rest goes
    /// with it, a free ball does not care.
    pub open spec fn carried(self, by: int) -> BallModel {
        if self.stuck {
            BallModel { position: IntVec2 { x: self.position.x + by, y: self.position.y }, ..self }
        } else {
            self
        }
    }

    /// Where the ball's velocity takes it in `millis` milliseconds, walls
    /// set aside.
    pub open spec fn drifted(self, millis: int) -> IntVec2 {
        self.position.plus(self.velocity.scaled(millis))
    }

    /// The ball one frame of `millis` milliseconds later.
    ///
    /// A ball at rest stays. A free ball moves with its velocity; then, at
    /// the left wall and at the right wall it is put back to the wall and
    /// turns round horizontally, and at the top wall it is put back and
    /// turns round vertically. There is no wall at the bottom.
    pub open spec fn integrated(self, millis: int) -> BallModel {
        if self.stuck {
            self
        } else {
            let moved = self.drifted(millis);
            let bounce_x = moved.x <= 0 || moved.x + self.radius >= ARENA_WIDTH;
            let bounce_y = moved.y <= 0;
            BallModel {
                position: IntVec2 {
                    x: if moved.x <= 0 {
                        0
                    } else if moved.x + self.radius >= ARENA_WIDTH {
                        ARENA_WIDTH - self.radius
                    } else {
                        moved.x
                    },
                    y: if bounce_y {
                        0
                    } else {
                        moved.y
                    },
                },
                velocity: IntVec2 {
                    x: if bounce_x {
                        -self.velocity.x
                    } else {
                        self.velocity.x
                    },
                    y: if bounce_y {
                        -self.velocity.y
                    } else {
                        self.velocity.y
                    },
                },
                ..self
            }
        }
    }

    /// Whether the frame of `millis` milliseconds can be computed: the
    /// place the velocity takes a free ball to, before any wall puts it
    /// back, must be a place that a ball can hold.
    pub open spec fn can_integrate(self, millis: int) -> bool {
        self.stuck || self.drifted(millis).representable()
    }

    /// The ball after a series of frames, each given by its length in
    /// milliseconds.
    pub open spec fn after_frames(self, frames: Seq<int>) -> BallModel
        decreases frames.len(),
    {
        if frames.len() == 0 {
            self
        } else {
            self.after_frames(frames.drop_last()).integrated(frames.last())
        }
    }

    /// The ball after its answer to a hit: the part of the velocity that
    /// the hit's direction names turns round, and the ball is set back
    /// against the penetration vector by [`push_out`].
    pub open spec fn bounced(self, direction: Direction, penetration: IntVec2) -> BallModel {
        BallModel {
            position: self.position.minus(push_out(penetration, self.radius)),
            velocity: reflected(self.velocity, direction),
            ..self
        }
    }
}

/// Launching is idempotent: a second launch changes nothing, and a launch
/// leaves the ball free with the velocity it had.
pub proof fn unstick_is_idempotent(ball: BallModel)
    ensures
        !ball.released().stuck,
        ball.released().released() == ball.released(),
        ball.released().velocity == ball.velocity,
        ball.released().released().velocity == ball.released().velocity,
{
}

/// Walls only turn the velocity round: through any series of frames each
/// part of the velocity keeps its magnitude, and the radius and the state
/// of the ball stay as they are.
pub proof fn wall_bounces_conserve_speed(ball: BallModel, frames: Seq<int>)
    ensures
        magnitude(ball.after_frames(frames).velocity.x) == magnitude(ball.velocity.x),
        magnitude(ball.after_frames(frames).velocity.y) == magnitude(ball.velocity.y),
        ball.after_frames(frames).radius == ball.radius,
        ball.after_frames(frames).stuck == ball.stuck,
        ball.wf() ==> ball.after_frames(frames).wf(),
    decreases frames.len(),
{
    if frames.len() > 0 {
        wall_bounces_conserve_speed(ball, frames.drop_last());
    }
}

/// A hit only turns the velocity round as well, and moves the ball by no
/// more than its radius along each axis.
pub proof fn bounce_conserves_speed(ball: BallModel, direction: Direction, penetration: IntVec2)
    ensures
        magnitude(ball.bounced(direction, penetration).velocity.x) == magnitude(ball.velocity.x),
        magnitude(ball.bounced(direction, penetration).velocity.y) == magnitude(ball.velocity.y),
        magnitude(push_out(penetration, ball.radius).x) <= magnitude(ball.radius),
        magnitude(push_out(penetration, ball.radius).y) <= magnitude(ball.radius),
{
    push_out_is_short(penetration, ball.radius);
}

/// Each part of [`push_out`] is at most as long as what the penetration
/// falls short of the radius, and points the way the penetration does.
pub proof fn push_out_is_short(penetration: IntVec2, radius: int)
    ensures
        ({
            let length = floor_sqrt(penetration.norm_squared());
            let push = push_out(penetration, radius);
            if 0 < length < radius {
                &&& magnitude(push.x) <= radius - length
                &&& magnitude(push.y) <= radius - length
                &&& (penetration.x >= 0 ==> push.x >= 0)
                &&& (penetration.x <= 0 ==> push.x <= 0)
                &&& (penetration.y >= 0 ==> push.y >= 0)
                &&& (penetration.y <= 0 ==> push.y <= 0)
            } else {
                push.is_zero()
            }
        }),
{
    let n = penetration.norm_squared();
    let length = floor_sqrt(n);
    norm_squared_is_nonnegative(penetration);
    floor_sqrt_is_root(n);
    if 0 < length < radius {
        lemma_scaled_part(penetration.x, penetration.y, length, radius - length);
        lemma_scaled_part(penetration.y, penetration.x, length, radius - length);
    }
}

/// A part `a` of a vector whose length is below `length + 1`, multiplied
/// by `gap` and divided by `length`, is at most `gap` long, keeps its
/// sign, and is no shorter than the exact quotient.
proof fn lemma_scaled_part(a: int, b: int, length: int, gap: int)
    requires
        0 < length,
        0 < gap,
        a * a + b * b < (length + 1) * (length + 1),
    ensures
        magnitude(quotient_away_from_zero(a * gap, length)) <= gap,
        a >= 0 ==> quotient_away_from_zero(a * gap, length) >= 0,
        a <= 0 ==> quotient_away_from_zero(a * gap, length) <= 0,
        magnitude(a) <= length,
        magnitude(quotient_away_from_zero(a * gap, length)) == (magnitude(a) * gap + length - 1)
            / length,
        magnitude(quotient_away_from_zero(a * gap, length)) * length >= magnitude(a) * gap,
{
    let m = magnitude(a);
    assert(m <= length) by (nonlinear_arith)
        requires
            a * a + b * b < (length + 1) * (length + 1),
            0 < length,
            m == a || m == -a,
            m >= 0,
    ;
    assert((a >= 0 ==> a * gap == m * gap) && (a <= 0 ==> -(a * gap) == m * gap) && m * gap >= 0
        && (a < 0 ==> a * gap < 0)) by (nonlinear_arith)
        requires
            0 < gap,
            m == magnitude(a),
    ;
    let q = (m * gap + length - 1) / length;
    assert(0 <= q <= gap && q * length >= m * gap && (m == 0 ==> q == 0)) by (nonlinear_arith)
        requires
            0 <= m <= length,
            0 < length,
            0 < gap,
            q == (m * gap + length - 1) / length,
    ;
    assert(a == 0 ==> a * gap == 0);
}

/// Two parts that are each stretched by at least the factor `(length +
/// gap) / length` make a vector at least `length + gap` long, if the
/// vector they came from was at least `length` long.
proof fn lemma_pushed_length(a: int, b: int, pa: int, pb: int, length: int, gap: int)
    requires
        0 <= a,
        0 <= b,
        0 <= pa,
        0 <= pb,
        0 < length,
        0 <= gap,
        length * length <= a * a + b * b,
        pa * length >= a * gap,
        pb * length >= b * gap,
    ensures
        (a + pa) * (a + pa) + (b + pb) * (b + pb) >= (length + gap) * (length + gap),
{
    let r = length + gap;
    let sa = a + pa;
    let sb = b + pb;
    assert(sa * length >= a * r && sb * length >= b * r) by (nonlinear_arith)
        requires
            sa == a + pa,
            sb == b + pb,
            r == length + gap,
            pa * length >= a * gap,
            pb * length >= b * gap,
    ;
    lemma_square_of_product_order(a * r, sa * length);
    lemma_square_of_product_order(b * r, sb * length);
    assert(a * r >= 0 && b * r >= 0) by (nonlinear_arith)
        requires
            0 <= a,
            0 <= b,
            0 < r,
    ;
    let lhs = sa * sa + sb * sb;
    let n = a * a + b * b;
    let l2 = length * length;
    let r2 = r * r;
    assert((sa * length) * (sa * length) == (sa * sa) * l2 && (sb * length) * (sb * length) == (
    sb * sb) * l2 && (a * r) * (a * r) == (a * a) * r2 && (b * r) * (b * r) == (b * b) * r2)
        by (nonlinear_arith)
        requires
            l2 == length * length,
            r2 == r * r,
    ;
    assert(lhs * l2 >= n * r2) by (nonlinear_arith)
        requires
            lhs == sa * sa + sb * sb,
            n == a * a + b * b,
            (sa * sa) * l2 >= (a * a) * r2,
            (sb * sb) * l2 >= (b * b) * r2,
    ;
    assert(n * r2 >= l2 * r2) by (nonlinear_arith)
        requires
            n >= l2,
            r2 == r * r,
    ;
    assert(l2 > 0) by (nonlinear_arith)
        requires
            l2 == length * length,
            0 < length,
    ;
    assert(lhs >= r2) by (nonlinear_arith)
        requires
            lhs * l2 >= l2 * r2,
            l2 > 0,
    ;
}

/// Of two numbers that are not negative, the larger has the larger
/// square.
proof fn lemma_square_of_product_order(small: int, large: int)
    by (nonlinear_arith)
    requires
        0 <= small <= large,
    ensures
        small * small <= large * large,
{
}

/// The bounce does what it is for: after the ball's answer to a hit on a
/// rectangle, from outside of it, the ball no longer reaches into that
/// rectangle.
pub proof fn bounce_clears_the_rectangle(
    ball: BallModel,
    direction: Direction,
    position: IntVec2,
    size: IntVec2,
)
    requires
        size.x >= 0,
        size.y >= 0,
        circle_overlaps(ball.position, ball.radius, position, size),
        !penetration(ball.position, position, size).is_zero(),
    ensures
        !circle_overlaps(
            ball.bounced(direction, penetration(ball.position, position, size)).position,
            ball.radius,
            position,
            size,
        ),
{
    let delta = penetration(ball.position, position, size);
    let radius = ball.radius;
    let n = delta.norm_squared();
    let length = floor_sqrt(n);
    norm_squared_is_nonnegative(delta);
    floor_sqrt_is_root(n);
    assert(n >= 1) by (nonlinear_arith)
        requires
            n == delta.x * delta.x + delta.y * delta.y,
            delta.x != 0 || delta.y != 0,
    ;
    assert(length >= 1) by (nonlinear_arith)
        requires
            0 <= length,
            n < (length + 1) * (length + 1),
            n >= 1,
    ;
    assert(length < radius) by (nonlinear_arith)
        requires
            length * length <= n,
            n < radius * radius,
            0 <= length,
            0 < radius,
    ;
    let gap = radius - length;
    let push = push_out(delta, radius);
    lemma_scaled_part(delta.x, delta.y, length, gap);
    lemma_scaled_part(delta.y, delta.x, length, gap);
    let after = ball.bounced(direction, delta).position;
    let later = penetration(after, position, size);
    assert(later.x == delta.x + push.x);
    assert(later.y == delta.y + push.y);
    let a = magnitude(delta.x);
    let b = magnitude(delta.y);
    let pa = magnitude(push.x);
    let pb = magnitude(push.y);
    assert(a * a + b * b == n) by (nonlinear_arith)
        requires
            n == delta.x * delta.x + delta.y * delta.y,
            a == delta.x || a == -delta.x,
            b == delta.y || b == -delta.y,
    ;
    lemma_pushed_length(a, b, pa, pb, length, gap);
    assert(later.x * later.x == (a + pa) * (a + pa) && later.y * later.y == (b + pb) * (b + pb))
        by (nonlinear_arith)
        requires
            later.x == a + pa || later.x == -(a + pa),
            later.y == b + pb || later.y == -(b + pb),
    ;
}

/// The ball.
#[derive(Clone, Copy, Debug)]
pub struct Ball {
    position: Vector2,
    velocity: Vector2,
    radius: i64,
    stuck: bool,
}

impl View for Ball {
    type V = BallModel;

    closed spec fn view(&self) -> BallModel {
        BallModel {
            position: self.position@,
            velocity: self.velocity@,
            radius: self.radius as int,
            stuck: self.stuck,
        }
    }
}

impl Ball {
    /// Whether the ball is well formed: see [`BallModel::wf`].
    pub open spec fn wf(&self) -> bool {
        self@.wf()
    }

    /// The place and the velocity of a ball are vectors that a
    /// [`Vector2`] can hold, and its radius is a length.
    pub proof fn view_is_representable(self)
        ensures
            self@.position.representable(),
            self@.velocity.representable(),
            i64::MIN <= self@.radius <= i64::MAX,
    {
    }

    /// What the ball of a new game is for a paddle whose upper edge is at
    /// `paddle_y`: at rest, centred in the arena, one diameter above the
    /// paddle.
    pub open spec fn new_model(paddle_y: int) -> BallModel {
        BallModel {
            position: IntVec2 {
                x: (ARENA_WIDTH - BALL_RADIUS) / 2,
                y: paddle_y - 2 * BALL_RADIUS,
            },
            velocity: IntVec2 { x: BALL_SPEED_X as int, y: BALL_SPEED_Y as int },
            radius: BALL_RADIUS as int,
            stuck: true,
        }
    }

    /// The ball of a new game for a paddle at `player`: see
    /// [`Ball::new_model`].
    pub fn new(player: Vector2) -> (ball: Ball)
        requires
            player.y - 2 * BALL_RADIUS >= i64::MIN,
        ensures
            ball.wf(),
            ball@ == Ball::new_model(player.y as int),
    {
        Ball {
            position: Vector2 { x: (ARENA_WIDTH - BALL_RADIUS) / 2, y: player.y - 2 * BALL_RADIUS },
            velocity: Vector2 { x: BALL_SPEED_X, y: BALL_SPEED_Y },
            radius: BALL_RADIUS,
            stuck: true,
        }
    }

    /// A ball at rest at `position` that will move with `velocity` once
    /// it is launched.
    ///
    /// Refused are a radius that is negative or above [`MAX_RADIUS`] and a
    /// velocity with a part that cannot be turned round.
    pub fn with_motion(position: Vector2, velocity: Vector2, radius: i64) -> (r: Result<
        Ball,
        GameError,
    >)
        ensures
            match r {
                Ok(ball) => {
                    &&& ball.wf()
                    &&& ball@ == (BallModel {
                        position: position@,
                        velocity: velocity@,
                        radius: radius as int,
                        stuck: true,
                    })
                },
                Err(e) => {
                    &&& e == GameError::InvalidArgument
                    &&& !(BallModel {
                        position: position@,
                        velocity: velocity@,
                        radius: radius as int,
                        stuck: true,
                    }).wf()
                },
            },
    {
        if radius < 0 || radius > MAX_RADIUS || velocity.x == i64::MIN || velocity.y == i64::MIN {
            return Err(GameError::InvalidArgument);
        }
        Ok(Ball { position, velocity, radius, stuck: true })
    }

    /// The radius of the ball.
    pub fn get_radius(&self) -> (radius: i64)
        ensures
            radius == self@.radius,
    {
        self.radius
    }

    /// Whether the ball still rests on the paddle.
    pub fn is_stuck(&self) -> (stuck: bool)
        ensures
            stuck == self@.stuck,
    {
        self.stuck
    }

    /// The velocity of the ball.
    pub fn get_velocity(&self) -> (velocity: Vector2)
        ensures
            velocity@ == self@.velocity,
    {
        self.velocity
    }

    /// Launches the ball. A ball that is free stays free.
    pub fn unstick(&mut self)
        ensures
            final(self)@ == old(self)@.released(),
            !final(self)@.stuck,
            final(self)@.velocity == old(self)@.velocity,
            old(self)@.stuck == false ==> final(self)@ == old(self)@,
    {
        self.stuck = false;
    }

    /// Whether [`Ball::move_by`] can be called with `by`.
    pub fn can_move_by(&self, by: i64) -> (b: bool)
        ensures
            b == self@.carried(by as int).position.representable(),
    {
        !self.stuck || self.position.x.checked_add(by).is_some()
    }

    /// Moves a ball at rest horizontally by `by`, as its paddle moved; a
    /// free ball is left alone.
    pub fn move_by(&mut self, by: i64)
        requires
            old(self)@.carried(by as int).position.representable(),
        ensures
            final(self)@ == old(self)@.carried(by as int),
    {
        if self.stuck {
            self.position.x = self.position.x + by;
        }
    }

    /// Whether [`Ball::update_position`] can be called with `delta_ms`.
    pub fn can_update_position(&self, delta_ms: u64) -> (b: bool)
        requires
            self.wf(),
        ensures
            b == self@.can_integrate(delta_ms as int),
    {
        if self.stuck {
            return true;
        }
        let x: i128 = drift(self.position.x, self.velocity.x, delta_ms);
        let y: i128 = drift(self.position.y, self.velocity.y, delta_ms);
        i64::MIN as i128 <= x && x <= i64::MAX as i128 && i64::MIN as i128 <= y && y
            <= i64::MAX as i128
    }

    /// Advances the ball by one frame of `delta_ms` milliseconds: see
    /// [`BallModel::integrated`].
    pub fn update_position(&mut self, delta_ms: u64)
        requires
            old(self).wf(),
            old(self)@.can_integrate(delta_ms as int),
        ensures
            final(self).wf(),
            final(self)@ == old(self)@.integrated(delta_ms as int),
            magnitude(final(self)@.velocity.x) == magnitude(old(self)@.velocity.x),
            magnitude(final(self)@.velocity.y) == magnitude(old(self)@.velocity.y),
    {
        if !self.stuck {
            let x: i128 = drift(self.position.x, self.velocity.x, delta_ms);
            let y: i128 = drift(self.position.y, self.velocity.y, delta_ms);
            if x <= 0 {
                self.velocity.x = -self.velocity.x;
                self.position.x = 0;
            } else if x + self.radius as i128 >= ARENA_WIDTH as i128 {
                self.velocity.x = -self.velocity.x;
                self.position.x = ARENA_WIDTH - self.radius;
            } else {
                self.position.x = x as i64;
            }
            if y <= 0 {
                self.velocity.y = -self.velocity.y;
                self.position.y = 0;
            } else {
                self.position.y = y as i64;
            }
        }
    }

    /// Whether [`Ball::resolve_collision`] can be called with
    /// `penetration`.
    pub fn can_resolve_collision(&self, penetration: Vector2) -> (b: bool)
        requires
            self.wf(),
        ensures
            b == self@.position.minus(push_out(penetration@, self@.radius)).representable(),
    {
        let push: Vector2 = push_vector(penetration, self.radius);
        self.position.x.checked_sub(push.x).is_some() && self.position.y.checked_sub(
            push.y,
        ).is_some()
    }

    /// Answers a hit: turns round the part of the velocity that the hit's
    /// direction names and sets the ball back against the penetration
    /// vector, so that it does not hit again at once.
    pub fn resolve_collision(&mut self, direction: Direction, penetration: Vector2)
        requires
            old(self).wf(),
            old(self)@.bounced(direction, penetration@).position.representable(),
        ensures
            final(self).wf(),
            final(self)@ == old(self)@.bounced(direction, penetration@),
    {
        let push: Vector2 = push_vector(penetration, self.radius);
        self.position.x = self.position.x - push.x;
        self.position.y = self.position.y - push.y;
        match direction {
            Direction::Up | Direction::Down => {
                self.velocity.y = -self.velocity.y;
            },
            Direction::Left | Direction::Right => {
                self.velocity.x = -self.velocity.x;
            },
        }
    }

    /// The picture of the ball.
    pub fn get_sprite(&self) -> (sprite: Sprite)
        ensures
            sprite == Sprite::Ball,
    {
        Sprite::Ball
    }

    /// Where the ball is.
    pub fn get_position(&self) -> (position: Vector2)
        ensures
            position@ == self@.position,
    {
        self.position
    }

    /// The extent of the ball's picture: its diameter both ways.
    pub fn get_size(&self) -> (size: Vector2)
        requires
            self.wf(),
        ensures
            size@ == self@.size(),
    {
        Vector2 { x: 2 * self.radius, y: 2 * self.radius }
    }

    /// The tint of the ball: none.
    pub fn get_color(&self) -> (color: Color)
        ensures
            color == Color::white(),
    {
        Color { red: 1000, green: 1000, blue: 1000 }
    }

    /// What a renderer is handed for the ball.
    pub fn drawable(&self) -> (d: Drawable)
        requires
            self.wf(),
        ensures
            d.kind == EntityKind::Ball,
            d.sprite == Sprite::Ball,
            d.position@ == self@.position,
            d.size@ == self@.size(),
            d.color == Color::white(),
    {
        Drawable {
            kind: EntityKind::Ball,
            sprite: Sprite::Ball,
            position: self.position,
            size: self.get_size(),
            color: self.get_color(),
        }
    }
}

/// The coordinate `from` after `millis` milliseconds at `speed`.
fn drift(from: i64, speed: i64, millis: u64) -> (to: i128)
    ensures
        to == from + speed * millis,
{
    assert(-0x8000_0000_0000_0000 * 0xffff_ffff_ffff_ffff <= speed * millis
        <= 0x7fff_ffff_ffff_ffff * 0xffff_ffff_ffff_ffff) by (nonlinear_arith)
        requires
            -0x8000_0000_0000_0000 <= speed <= 0x7fff_ffff_ffff_ffff,
            0 <= millis <= 0xffff_ffff_ffff_ffff,
    ;
    from as i128 + (speed as i128) * (millis as i128)
}

/// [`push_out`], computed.
fn push_vector(penetration: Vector2, radius: i64) -> (push: Vector2)
    requires
        0 <= radius <= MAX_RADIUS,
    ensures
        push@ == push_out(penetration@, radius as int),
{
    let dx: i64 = penetration.x;
    let dy: i64 = penetration.y;
    proof {
        push_out_is_short(penetration@, radius as int);
        norm_squared_is_nonnegative(penetration@);
        floor_sqrt_is_root(penetration@.norm_squared());
    }
    if dx >= radius || dx <= -radius || dy >= radius || dy <= -radius {
        proof {
            lemma_long_part(dx as int, dy as int, radius as int);
        }
        return Vector2 { x: 0, y: 0 };
    }
    let ax: u128 = if dx >= 0 {
        dx as u128
    } else {
        (-dx) as u128
    };
    let ay: u128 = if dy >= 0 {
        dy as u128
    } else {
        (-dy) as u128
    };
    assert(ax * ax <= radius * radius && ay * ay <= radius * radius && radius * radius
        <= 0x4000_0000_0000_0000 * 0x4000_0000_0000_0000 && ax * ax == dx * dx && ay * ay == dy
        * dy) by (nonlinear_arith)
        requires
            0 <= ax < radius,
            0 <= ay < radius,
            radius <= 0x4000_0000_0000_0000,
            ax == dx || ax == -dx,
            ay == dy || ay == -dy,
    ;
    let n: u128 = ax * ax + ay * ay;
    assert(n == penetration@.norm_squared());
    let length: u128 = integer_sqrt(n) as u128;
    if length == 0 || length >= radius as u128 {
        return Vector2 { x: 0, y: 0 };
    }
    let gap: u128 = radius as u128 - length;
    proof {
        lemma_scaled_part(dx as int, dy as int, length as int, gap as int);
        lemma_scaled_part(dy as int, dx as int, length as int, gap as int);
        assert(ax * gap <= radius * radius && ay * gap <= radius * radius) by (nonlinear_arith)
            requires
                0 <= ax < radius,
                0 <= ay < radius,
                0 < gap <= radius,
        ;
    }
    let qx: u128 = (ax * gap + length - 1) / length;
    let qy: u128 = (ay * gap + length - 1) / length;
    Vector2 {
        x: if dx >= 0 {
            qx as i64
        } else {
            -(qx as i64)
        },
        y: if dy >= 0 {
            qy as i64
        } else {
            -(qy as i64)
        },
    }
}

/// A vector with a part at least as long as `radius` has a length whose
/// whole part is at least `radius`.
proof fn lemma_long_part(dx: int, dy: int, radius: int)
    requires
        0 <= radius,
        dx >= radius || dx <= -radius || dy >= radius || dy <= -radius,
    ensures
        floor_sqrt(dx * dx + dy * dy) >= radius,
{
    let n = dx * dx + dy * dy;
    assert(n >= radius * radius && n >= 0) by (nonlinear_arith)
        requires
            n == dx * dx + dy * dy,
            0 <= radius,
            dx >= radius || dx <= -radius || dy >= radius || dy <= -radius,
    ;
    floor_sqrt_is_root(n);
    let root = floor_sqrt(n);
    if root < radius {
        assert((root + 1) * (root + 1) <= radius * radius) by (nonlinear_arith)
            requires
                0 <= root < radius,
        ;
    }
}

} // verus!
