use breakout::entity::{EntityKind, Sprite};
use breakout::error::GameError;
use breakout::game::{Game, Input};
use breakout::level::{Level, LevelData};
use breakout::math::Vector2;
use breakout::{ARENA_HEIGHT, ARENA_WIDTH, GAME_HEIGHT, GAME_WIDTH, UNITS_PER_PIXEL};

fn level(map: Vec<Vec<u32>>, rows: u32, cols: u32) -> Level {
    Level::load(&LevelData { rows, cols, map }).unwrap()
}

fn new_game() -> Game {
    let first = level(vec![vec![1, 0], vec![2, 1]], 2, 2);
    let second = level(vec![vec![3]], 1, 1);
    Game::new(vec![first, second]).unwrap()
}

#[test]
fn arena_is_1024_by_768_pixels() {
    assert_eq!(GAME_WIDTH, 1024);
    assert_eq!(GAME_HEIGHT, 768);
    assert_eq!(ARENA_WIDTH, GAME_WIDTH as i64 * UNITS_PER_PIXEL);
    assert_eq!(ARENA_HEIGHT, GAME_HEIGHT as i64 * UNITS_PER_PIXEL);
}

#[test]
fn game_needs_a_level() {
    assert_eq!(Game::new(Vec::new()).err(), Some(GameError::InvalidArgument));
}

#[test]
fn new_game_starts_at_the_first_level() {
    let game = new_game();
    assert_eq!(game.get_current_level().height(), 2);
    assert_eq!(game.get_current_level().width(), 2);
    assert_eq!(game.get_player().get_position(), Vector2::new(462_000, 748_000));
    assert_eq!(game.get_ball().get_position(), Vector2::new(505_750, 723_000));
    assert!(game.get_ball().is_stuck());
}

#[test]
fn frame_without_input_leaves_a_resting_ball() {
    let mut game = new_game();
    assert!(game.update(16));
    assert_eq!(game.get_player().get_position(), Vector2::new(462_000, 748_000));
    assert_eq!(game.get_ball().get_position(), Vector2::new(505_750, 723_000));
}

#[test]
fn resting_ball_follows_the_paddle() {
    let mut game = new_game();
    game.handle_event(Input::MoveLeft(true));
    assert!(game.update(16));
    assert_eq!(game.get_player().get_position(), Vector2::new(454_000, 748_000));
    assert_eq!(game.get_ball().get_position(), Vector2::new(497_750, 723_000));
    game.handle_event(Input::MoveLeft(false));
    assert!(game.update(16));
    assert_eq!(game.get_player().get_position(), Vector2::new(454_000, 748_000));
    game.handle_event(Input::MoveRight(true));
    assert!(game.update(20));
    assert_eq!(game.get_player().get_position(), Vector2::new(464_000, 748_000));
    assert_eq!(game.get_ball().get_position(), Vector2::new(507_750, 723_000));
}

#[test]
fn left_wins_when_both_keys_are_held() {
    let mut game = new_game();
    game.handle_event(Input::MoveRight(true));
    game.handle_event(Input::MoveLeft(true));
    assert!(game.update(10));
    assert_eq!(game.get_player().get_position().x, 457_000);
}

#[test]
fn blocked_paddle_does_not_carry_the_ball() {
    let mut game = new_game();
    game.handle_event(Input::MoveLeft(true));
    assert!(game.update(924));
    assert_eq!(game.get_player().get_position().x, 0);
    assert_eq!(game.get_ball().get_position().x, 43_750);
    assert!(game.update(16));
    assert_eq!(game.get_player().get_position().x, 0);
    assert_eq!(game.get_ball().get_position().x, 43_750);
}

#[test]
fn launched_ball_flies_and_leaves_the_paddle() {
    let mut game = new_game();
    game.handle_event(Input::Launch);
    assert!(!game.get_ball().is_stuck());
    game.handle_event(Input::MoveLeft(true));
    assert!(game.update(16));
    assert_eq!(game.get_player().get_position().x, 454_000);
    assert_eq!(game.get_ball().get_position(), Vector2::new(507_350, 717_400));
    game.handle_event(Input::Launch);
    assert!(!game.get_ball().is_stuck());
    assert_eq!(game.get_ball().get_velocity(), Vector2::new(100, -350));
}

#[test]
fn flying_ball_bounces_off_a_solid_brick() {
    let mut game = new_game();
    game.handle_event(Input::Launch);
    assert!(game.update(950));
    let ball = *game.get_ball();
    assert_eq!(ball.get_velocity(), Vector2::new(100, 350));
    assert_eq!(ball.get_position(), Vector2::new(600_750, 396_500));
    let level = game.get_current_level();
    assert!(!level.brick_at(1, 1).unwrap().is_destroyed());
    assert!(!level.brick_at(1, 0).unwrap().is_destroyed());
    assert!(!level.brick_at(0, 0).unwrap().is_destroyed());
    assert_eq!(game.render().len(), 5);
}

#[test]
fn flying_ball_destroys_a_brick_and_bounces() {
    let first = level(vec![vec![1, 0], vec![2, 4]], 2, 2);
    let mut game = Game::new(vec![first]).unwrap();
    game.handle_event(Input::Launch);
    assert!(game.update(900));
    assert_eq!(game.get_ball().get_position(), Vector2::new(595_750, 408_000));
    assert_eq!(game.get_ball().get_velocity(), Vector2::new(100, -350));
    assert_eq!(game.render().len(), 5);
    assert!(game.update(50));
    let ball = *game.get_ball();
    assert_eq!(ball.get_velocity(), Vector2::new(100, 350));
    assert_eq!(ball.get_position(), Vector2::new(600_750, 396_500));
    let level = game.get_current_level();
    assert!(level.brick_at(1, 1).unwrap().is_destroyed());
    assert!(!level.brick_at(1, 0).unwrap().is_destroyed());
    assert!(!level.brick_at(0, 0).unwrap().is_destroyed());
    assert_eq!(game.render().len(), 4);
    assert!(game.update(10));
    assert_eq!(game.get_ball().get_position(), Vector2::new(601_750, 400_000));
    assert!(game.get_current_level().brick_at(1, 1).unwrap().is_destroyed());
    assert_eq!(game.render().len(), 4);
}

#[test]
fn render_lists_bricks_then_paddle_then_ball() {
    let game = new_game();
    let drawables = game.render();
    assert_eq!(drawables.len(), 5);
    assert_eq!(drawables[0].kind, EntityKind::Brick);
    assert_eq!(drawables[0].sprite, Sprite::BlockSolid);
    assert_eq!(drawables[1].kind, EntityKind::Brick);
    assert_eq!(drawables[1].sprite, Sprite::Block);
    assert_eq!(drawables[2].kind, EntityKind::Brick);
    assert_eq!(drawables[3], game.get_player().drawable());
    assert_eq!(drawables[4], game.get_ball().drawable());
    assert_eq!(drawables[0..3], game.get_current_level().render()[..]);
}

#[test]
fn frame_that_cannot_be_computed_leaves_the_game_as_it_is() {
    let mut game = new_game();
    game.handle_event(Input::Launch);
    game.handle_event(Input::MoveLeft(true));
    assert!(!game.update(u64::MAX));
    assert_eq!(game.get_player().get_position(), Vector2::new(462_000, 748_000));
    assert_eq!(game.get_ball().get_position(), Vector2::new(505_750, 723_000));
    assert_eq!(game.get_ball().get_velocity(), Vector2::new(100, -350));
    assert_eq!(game.render().len(), 5);
}
