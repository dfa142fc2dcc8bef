//! The frame driver: it takes the player's intents, moves the paddle,
//! lets the ball fly, runs the collision pass over the current level and
//! lets the ball answer a hit, in that order, once per frame.

use vstd::prelude::*;

use crate::ball::{Ball, BallModel};
use crate::collision::penetration;
use crate::entity::{describes, Color, Drawable, EntityKind, Sprite};
use crate::error::GameError;
use crate::level::{BrickHit, Level, LevelModel};
use crate::math::{dominant_direction, Vector2};
use crate::player::{Player, PlayerModel};

verus! {

/// What the game is doing. Only an active game moves; nothing in the core
/// leaves the active state.
#[derive(Clone, Copy, Debug, PartialEq, Eq, Structural)]
pub enum GameState {
    Active,
    Menu,
    Win,
}

/// An intent of the player, as the input layer reports it.
#[derive(Clone, Copy, Debug, PartialEq, Eq, Structural)]
pub enum Input {
    /// The key for moving left went down (`true`) or up (`false`).
    MoveLeft(bool),
    /// The key for moving right went down (`true`) or up (`false`).
    MoveRight(bool),
    /// The ball is to be launched.
    Launch,
}

/// What a [`Game`] is, as plain values.
pub struct GameModel {
    /// The levels of the game.
    pub levels: Seq<LevelModel>,
    /// The index of the level being played.
    pub level: int,
    /// The paddle.
    pub player: PlayerModel,
    /// The ball.
    pub ball: BallModel,
    /// Whether the key for moving left is held.
    pub left_held: bool,
    /// Whether the key for moving right is held.
    pub right_held: bool,
    /// What the game is doing.
    pub state: GameState,
}

impl GameModel {
    /// There is a current level, and every part of the game is well
    /// formed.
    pub open spec fn wf(self) -> bool {
        &&& 0 <= self.level < self.levels.len()
        &&& forall|i: int| 0 <= i < self.levels.len() ==> (#[trigger] self.levels[i]).wf()
        &&& self.player.wf()
        &&& self.ball.wf()
    }

    /// The level being played.
    pub open spec fn current(self) -> LevelModel {
        self.levels[self.level]
    }

    /// The game after it has taken note of an intent: a key that goes
    /// down or up is remembered, a launch sets the ball free.
    pub open spec fn noted(self, input: Input) -> GameModel {
        match input {
            Input::MoveLeft(held) => GameModel { left_held: held, ..self },
            Input::MoveRight(held) => GameModel { right_held: held, ..self },
            Input::Launch => GameModel { ball: self.ball.released(), ..self },
        }
    }

    /// The first step of a frame: the paddle moves the way of the key
    /// that is held, left before right, and a ball at rest goes with it
    /// by the displacement that was applied.
    pub open spec fn steered(self, millis: int) -> GameModel {
        if self.left_held {
            GameModel {
                player: self.player.moved_left(millis),
                ball: self.ball.carried(self.player.left_displacement(millis)),
                ..self
            }
        } else if self.right_held {
            GameModel {
                player: self.player.moved_right(millis),
                ball: self.ball.carried(self.player.right_displacement(millis)),
                ..self
            }
        } else {
            self
        }
    }

    /// The second step of a frame: the ball flies and bounces off the
    /// walls.
    pub open spec fn flown(self, millis: int) -> GameModel {
        GameModel { ball: self.ball.integrated(millis), ..self }
    }

    /// The third step of a frame: the collision pass over the current
    /// level for the circle at the ball's position, and the ball's answer
    /// to the hit if there is one.
    pub open spec fn collided(self) -> GameModel {
        let level = self.current();
        let k = level.first_struck(self.ball.position, self.ball.radius);
        if 0 <= k < level.cells.len() {
            let brick = level.cells[k].unwrap();
            let delta = penetration(self.ball.position, brick.position@, brick.size@);
            GameModel {
                levels: self.levels.update(
                    self.level,
                    level.after_collision(self.ball.position, self.ball.radius),
                ),
                ball: self.ball.bounced(dominant_direction(delta), delta),
                ..self
            }
        } else {
            self
        }
    }

    /// The game one frame of `millis` milliseconds later. Only an active
    /// game moves.
    pub open spec fn advanced(self, millis: int) -> GameModel {
        if self.state is Active {
            self.steered(millis).flown(millis).collided()
        } else {
            self
        }
    }

    /// Whether the frame of `millis` milliseconds can be computed: every
    /// place that the ball comes to on its way through the frame must be
    /// a place that a ball can hold.
    pub open spec fn can_advance(self, millis: int) -> bool {
        self.state is Active ==> {
            &&& self.steered(millis).ball.position.representable()
            &&& self.steered(millis).ball.can_integrate(millis)
            &&& self.steered(millis).flown(millis).collided().ball.position.representable()
        }
    }

    /// Whether `drawables` is what a renderer is handed for the game: for
    /// an active game the bricks of the current level that are not
    /// destroyed, then the paddle, then the ball; else nothing.
    pub open spec fn shows(self, drawables: Seq<Drawable>) -> bool {
        if self.state is Active {
            let bricks = self.current().live_drawables();
            &&& drawables.len() == bricks.len() + 2
            &&& drawables.subrange(0, bricks.len() as int) == bricks
            &&& describes(
                drawables[bricks.len() as int],
                EntityKind::Paddle,
                Sprite::Paddle,
                self.player.position,
                self.player.size,
                Color::white(),
            )
            &&& describes(
                drawables[bricks.len() as int + 1],
                EntityKind::Ball,
                Sprite::Ball,
                self.ball.position,
                self.ball.size(),
                Color::white(),
            )
        } else {
            drawables.len() == 0
        }
    }
}

/// A frame keeps the game well formed, keeps the number of levels and
/// the level being played, and changes no level but that one.
pub proof fn frame_keeps_game(game: GameModel, millis: int)
    requires
        game.wf(),
    ensures
        game.advanced(millis).wf(),
        game.advanced(millis).levels.len() == game.levels.len(),
        game.advanced(millis).level == game.level,
        game.advanced(millis).state == game.state,
        forall|i: int|
            0 <= i < game.levels.len() && i != game.level ==> game.advanced(millis).levels[i]
                == game.levels[i],
{
    if game.state is Active {
        crate::player::paddle_stays_in_arena(game.player, millis);
        let flown = game.steered(millis).flown(millis);
        crate::level::collision_pass_keeps_grid(
            flown.current(),
            flown.ball.position,
            flown.ball.radius,
        );
        crate::level::first_struck_is_least(flown.current(), flown.ball.position, flown.ball.radius);
    }
}

/// A ball at rest tracks the paddle one to one: whatever the paddle's
/// move in a frame, the ball keeps its place relative to the paddle. A
/// free ball is not moved by the paddle.
pub proof fn resting_ball_tracks_paddle(game: GameModel, millis: int)
    ensures
        game.ball.stuck ==> game.steered(millis).ball.position.minus(
            game.steered(millis).player.position,
        ) == game.ball.position.minus(game.player.position),
        !game.ball.stuck ==> game.steered(millis).ball == game.ball,
{
}

/// The state of a game: its levels, the paddle, the ball, and the keys
/// that are held.
#[derive(Debug)]
pub struct Game {
    levels: Vec<Level>,
    level: usize,
    player: Player,
    ball: Ball,
    left_held: bool,
    right_held: bool,
    state: GameState,
}

impl View for Game {
    type V = GameModel;

    closed spec fn view(&self) -> GameModel {
        GameModel {
            levels: Seq::new(self.levels@.len(), |i: int| self.levels@[i]@),
            level: self.level as int,
            player: self.player@,
            ball: self.ball@,
            left_held: self.left_held,
            right_held: self.right_held,
            state: self.state,
        }
    }
}

impl Game {
    /// Whether the game is well formed: see [`GameModel::wf`].
    pub open spec fn wf(&self) -> bool {
        self@.wf()
    }

    /// A new game over the given levels: active, at the first level, with
    /// the paddle and the ball of a new game and no key held.
    ///
    /// A game needs a level to play: an empty list is refused.
    pub fn new(levels: Vec<Level>) -> (r: Result<Game, GameError>)
        requires
            forall|i: int| 0 <= i < levels@.len() ==> (#[trigger] levels@[i]).wf(),
        ensures
            match r {
                Ok(game) => {
                    &&& game.wf()
                    &&& game@.levels == Seq::new(levels@.len(), |i: int| levels@[i]@)
                    &&& game@.levels.len() > 0
                    &&& game@.level == 0
                    &&& game@.player == Player::new_model()
                    &&& game@.ball == Ball::new_model(Player::new_model().position.y)
                    &&& !game@.left_held
                    &&& !game@.right_held
                    &&& game@.state is Active
                },
                Err(e) => levels@.len() == 0 && e == GameError::InvalidArgument,
            },
    {
        if levels.len() == 0 {
            return Err(GameError::InvalidArgument);
        }
        let player: Player = Player::new();
        let ball: Ball = Ball::new(player.get_position());
        let game = Game {
            levels,
            level: 0,
            player,
            ball,
            left_held: false,
            right_held: false,
            state: GameState::Active,
        };
        assert(game@.levels =~= Seq::new(levels@.len(), |i: int| levels@[i]@));
        Ok(game)
    }

    /// The level being played.
    pub fn get_current_level(&self) -> (level: &Level)
        requires
            self.wf(),
        ensures
            level@ == self@.current(),
            level.wf(),
    {
        &self.levels[self.level]
    }

    /// The paddle.
    pub fn get_player(&self) -> (player: &Player)
        ensures
            player@ == self@.player,
    {
        &self.player
    }

    /// The ball.
    pub fn get_ball(&self) -> (ball: &Ball)
        ensures
            ball@ == self@.ball,
    {
        &self.ball
    }

    /// Takes note of an intent of the player: see [`GameModel::noted`].
    pub fn handle_event(&mut self, input: Input)
        requires
            old(self).wf(),
        ensures
            final(self).wf(),
            final(self)@ == old(self)@.noted(input),
    {
        match input {
            Input::MoveLeft(held) => {
                self.left_held = held;
            },
            Input::MoveRight(held) => {
                self.right_held = held;
            },
            Input::Launch => {
                self.ball.unstick();
            },
        }
    }

    /// Advances the game by one frame of `delta_ms` milliseconds and says
    /// whether it did.
    ///
    /// In a frame the paddle moves first, then the ball flies, then the
    /// collision pass runs and the ball answers a hit. A frame that would
    /// take the ball to a place that no ball can hold is not computed:
    /// the game stays as it is and `false` is returned.
    pub fn update(&mut self, delta_ms: u64) -> (done: bool)
        requires
            old(self).wf(),
        ensures
            final(self).wf(),
            done == old(self)@.can_advance(delta_ms as int),
            done ==> final(self)@ == old(self)@.advanced(delta_ms as int),
            !done ==> final(self)@ == old(self)@,
    {
        match self.state {
            GameState::Active => {},
            GameState::Menu => {
                return true;
            },
            GameState::Win => {
                return true;
            },
        }
        proof {
            frame_keeps_game(self@, delta_ms as int);
            self.ball.view_is_representable();
        }
        let mut player: Player = self.player;
        let mut ball: Ball = self.ball;
        if self.left_held {
            let moved: i64 = player.move_left(delta_ms);
            if !ball.can_move_by(moved) {
                return false;
            }
            ball.move_by(moved);
        } else if self.right_held {
            let moved: i64 = player.move_right(delta_ms);
            if !ball.can_move_by(moved) {
                return false;
            }
            ball.move_by(moved);
        }
        if !ball.can_update_position(delta_ms) {
            return false;
        }
        ball.update_position(delta_ms);
        let position: Vector2 = ball.get_position();
        let radius: i64 = ball.get_radius();
        let ghost flown = old(self)@.steered(delta_ms as int).flown(delta_ms as int);
        assert(flown.ball == ball@);
        assert(flown.current() == self.levels@[self.level as int]@);
        let hit: Option<BrickHit> = self.levels[self.level].find_collision(position, radius);
        match hit {
            Some(found) => {
                if !ball.can_resolve_collision(found.penetration) {
                    return false;
                }
                ball.resolve_collision(found.direction, found.penetration);
                let ghost levels_before = self.levels@;
                let _ = self.levels[self.level].perform_collisions(position, radius);
                assert(forall|i: int|
                    0 <= i < self.levels@.len() && i != self.level ==> self.levels@[i]
                        == levels_before[i]);
                assert(self@.levels =~= flown.collided().levels);
            },
            None => {},
        }
        self.player = player;
        self.ball = ball;
        true
    }

    /// Hands out, for the renderer, what is to be drawn: see
    /// [`GameModel::shows`].
    pub fn render(&self) -> (drawables: Vec<Drawable>)
        requires
            self.wf(),
        ensures
            self@.shows(drawables@),
    {
        match self.state {
            GameState::Active => {
                let mut drawables: Vec<Drawable> = self.levels[self.level].render();
                let ghost bricks = drawables@;
                drawables.push(self.player.drawable());
                drawables.push(self.ball.drawable());
                assert(drawables@.subrange(0, bricks.len() as int) =~= bricks);
                drawables
            },
            GameState::Menu => Vec::new(),
            GameState::Win => Vec::new(),
        }
    }
}

} // verus!
