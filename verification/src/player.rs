//! The paddle: it moves left and right along the bottom of the arena and
//! never leaves it.

use vstd::prelude::*;

use crate::entity::{Color, Drawable, EntityKind, Sprite};
use crate::math::{IntVec2, Vector2};
use crate::{ARENA_HEIGHT, ARENA_WIDTH};

verus! {

/// The width of the paddle of a new game.
pub const PADDLE_WIDTH: i64 = 100_000;

/// The height of the paddle of a new game.
pub const PADDLE_HEIGHT: i64 = 20_000;

/// The speed of the paddle of a new game, in pixels per second.
pub const PADDLE_SPEED: i64 = 500;

/// What a [`Player`] is, as plain values.
pub struct PlayerModel {
    /// The corner of least coordinates.
    pub position: IntVec2,
    /// The extent along each axis.
    pub size: IntVec2,
    /// How fast the paddle moves while a key is held, in pixels per
    /// second.
    pub speed: int,
}

impl PlayerModel {
    /// Whether a paddle of this width can stand at `x`: between the left
    /// wall and the place where its right end meets the right wall.
    pub open spec fn admits(self, x: int) -> bool {
        0 <= x <= ARENA_WIDTH - self.size.x
    }

    /// The paddle has a width that is not negative and stands inside the
    /// arena.
    pub open spec fn wf(self) -> bool {
        0 <= self.size.x && self.admits(self.position.x)
    }

    /// How far the paddle moves in `millis` milliseconds if nothing is in
    /// its way.
    pub open spec fn stride(self, millis: int) -> int {
        self.speed * millis
    }

    /// The displacement that a move to the left by `millis` milliseconds
    /// applies: the whole stride, negative, if that keeps the paddle in
    /// the arena, and none if it does not.
    pub open spec fn left_displacement(self, millis: int) -> int {
        if self.admits(self.position.x - self.stride(millis)) {
            -self.stride(millis)
        } else {
            0
        }
    }

    /// The displacement that a move to the right by `millis` milliseconds
    /// applies: the whole stride if that keeps the paddle in the arena,
    /// and none if it does not.
    pub open spec fn right_displacement(self, millis: int) -> int {
        if self.admits(self.position.x + self.stride(millis)) {
            self.stride(millis)
        } else {
            0
        }
    }

    /// The paddle moved horizontally by `by`.
    pub open spec fn shifted(self, by: int) -> PlayerModel {
        PlayerModel { position: IntVec2 { x: self.position.x + by, y: self.position.y }, ..self }
    }

    /// The paddle after a move to the left by `millis` milliseconds.
    pub open spec fn moved_left(self, millis: int) -> PlayerModel {
        self.shifted(self.left_displacement(millis))
    }

    /// The paddle after a move to the right by `millis` milliseconds.
    pub open spec fn moved_right(self, millis: int) -> PlayerModel {
        self.shifted(self.right_displacement(millis))
    }
}

/// A move never takes the paddle out of the arena, and a move that is
/// blocked leaves it where it is.
pub proof fn paddle_stays_in_arena(paddle: PlayerModel, millis: int)
    requires
        paddle.wf(),
    ensures
        paddle.moved_left(millis).wf(),
        paddle.moved_right(millis).wf(),
        paddle.left_displacement(millis) == 0 ==> paddle.moved_left(millis) == paddle,
        paddle.right_displacement(millis) == 0 ==> paddle.moved_right(millis) == paddle,
{
}

/// The paddle.
#[derive(Clone, Copy, Debug)]
pub struct Player {
    position: Vector2,
    size: Vector2,
    speed: i64,
}

impl View for Player {
    type V = PlayerModel;

    closed spec fn view(&self) -> PlayerModel {
        PlayerModel { position: self.position@, size: self.size@, speed: self.speed as int }
    }
}

impl Player {
    /// Whether the paddle is well formed: see [`PlayerModel::wf`].
    pub open spec fn wf(&self) -> bool {
        self@.wf()
    }

    /// What the paddle of a new game is: centred at the bottom of the
    /// arena.
    pub open spec fn new_model() -> PlayerModel {
        PlayerModel {
            position: IntVec2 {
                x: (ARENA_WIDTH - PADDLE_WIDTH) / 2,
                y: ARENA_HEIGHT - PADDLE_HEIGHT,
            },
            size: IntVec2 { x: PADDLE_WIDTH as int, y: PADDLE_HEIGHT as int },
            speed: PADDLE_SPEED as int,
        }
    }

    /// The paddle of a new game: see [`Player::new_model`].
    pub fn new() -> (player: Player)
        ensures
            player.wf(),
            player@ == Player::new_model(),
    {
        Player {
            position: Vector2 { x: (ARENA_WIDTH - PADDLE_WIDTH) / 2, y: ARENA_HEIGHT - PADDLE_HEIGHT },
            size: Vector2 { x: PADDLE_WIDTH, y: PADDLE_HEIGHT },
            speed: PADDLE_SPEED,
        }
    }

    /// Moves the paddle to the left for `delta_ms` milliseconds, unless
    /// that would take it out of the arena, and returns the displacement
    /// applied: negative, or zero if the move was blocked.
    pub fn move_left(&mut self, delta_ms: u64) -> (moved: i64)
        requires
            old(self).wf(),
        ensures
            final(self).wf(),
            final(self)@ == old(self)@.moved_left(delta_ms as int),
            moved == old(self)@.left_displacement(delta_ms as int),
    {
        let stride: i128 = self.stride(delta_ms);
        let target: i128 = self.position.x as i128 - stride;
        if 0 <= target && target <= ARENA_WIDTH as i128 - self.size.x as i128 {
            let moved: i64 = (target - self.position.x as i128) as i64;
            self.position.x = target as i64;
            moved
        } else {
            0
        }
    }

    /// Moves the paddle to the right for `delta_ms` milliseconds, unless
    /// that would take it out of the arena, and returns the displacement
    /// applied: positive, or zero if the move was blocked.
    pub fn move_right(&mut self, delta_ms: u64) -> (moved: i64)
        requires
            old(self).wf(),
        ensures
            final(self).wf(),
            final(self)@ == old(self)@.moved_right(delta_ms as int),
            moved == old(self)@.right_displacement(delta_ms as int),
    {
        let stride: i128 = self.stride(delta_ms);
        let target: i128 = self.position.x as i128 + stride;
        if 0 <= target && target <= ARENA_WIDTH as i128 - self.size.x as i128 {
            let moved: i64 = (target - self.position.x as i128) as i64;
            self.position.x = target as i64;
            moved
        } else {
            0
        }
    }

    /// How far the paddle moves in `delta_ms` milliseconds if nothing is
    /// in its way.
    fn stride(&self, delta_ms: u64) -> (stride: i128)
        ensures
            stride == self@.stride(delta_ms as int),
            -0x8000_0000_0000_0000 * 0xffff_ffff_ffff_ffff <= stride <= 0x7fff_ffff_ffff_ffff
                * 0xffff_ffff_ffff_ffff,
    {
        let speed: i64 = self.speed;
        assert(-0x8000_0000_0000_0000 * 0xffff_ffff_ffff_ffff <= speed * delta_ms
            <= 0x7fff_ffff_ffff_ffff * 0xffff_ffff_ffff_ffff) by (nonlinear_arith)
            requires
                -0x8000_0000_0000_0000 <= speed <= 0x7fff_ffff_ffff_ffff,
                0 <= delta_ms <= 0xffff_ffff_ffff_ffff,
        ;
        (speed as i128) * (delta_ms as i128)
    }

    /// The picture of the paddle.
    pub fn get_sprite(&self) -> (sprite: Sprite)
        ensures
            sprite == Sprite::Paddle,
    {
        Sprite::Paddle
    }

    /// The corner of least coordinates.
    pub fn get_position(&self) -> (position: Vector2)
        ensures
            position@ == self@.position,
    {
        self.position
    }

    /// The extent along each axis.
    pub fn get_size(&self) -> (size: Vector2)
        ensures
            size@ == self@.size,
    {
        self.size
    }

    /// The tint of the paddle: none.
    pub fn get_color(&self) -> (color: Color)
        ensures
            color == Color::white(),
    {
        Color { red: 1000, green: 1000, blue: 1000 }
    }

    /// What a renderer is handed for the paddle.
    pub fn drawable(&self) -> (d: Drawable)
        ensures
            d.kind == EntityKind::Paddle,
            d.sprite == Sprite::Paddle,
            d.position@ == self@.position,
            d.size@ == self@.size,
            d.color == Color::white(),
    {
        Drawable {
            kind: EntityKind::Paddle,
            sprite: Sprite::Paddle,
            position: self.position,
            size: self.size,
            color: self.get_color(),
        }
    }
}

} // verus!
