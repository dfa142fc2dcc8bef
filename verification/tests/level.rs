use breakout::entity::{Color, Drawable, EntityKind, Sprite};
use breakout::error::GameError;
use breakout::level::{BrickHit, CollisionResult, Direction, Level, LevelData};
use breakout::math::Vector2;

fn two_by_two() -> Level {
    let data = LevelData { rows: 2, cols: 2, map: vec![vec![1, 0], vec![2, 1]] };
    match Level::load(&data) {
        Ok(level) => level,
        Err(e) => panic!("the grid was refused: {:?}", e),
    }
}

#[test]
fn two_by_two_grid_places_three_bricks() {
    let level = two_by_two();
    assert_eq!(level.height(), 2);
    assert_eq!(level.width(), 2);
    assert!(level.brick_at(0, 0).is_some());
    assert!(level.brick_at(0, 1).is_none());
    assert!(level.brick_at(1, 0).is_some());
    assert!(level.brick_at(1, 1).is_some());
    assert!(level.brick_at(2, 0).is_none());
    assert!(level.brick_at(0, 2).is_none());
}

#[test]
fn two_by_two_grid_has_unit_width_512() {
    let level = two_by_two();
    let first = level.brick_at(0, 0).unwrap();
    assert_eq!(first.get_size(), Vector2::new(512_000, 192_000));
    assert_eq!(first.get_position(), Vector2::new(0, 0));
    let below = level.brick_at(1, 0).unwrap();
    assert_eq!(below.get_position(), Vector2::new(0, 192_000));
    assert_eq!(below.get_size(), Vector2::new(512_000, 192_000));
    let last = level.brick_at(1, 1).unwrap();
    assert_eq!(last.get_position(), Vector2::new(512_000, 192_000));
}

#[test]
fn cell_values_fix_kind_and_color() {
    let data = LevelData { rows: 5, cols: 1, map: vec![vec![1, 2, 3, 4, 5]] };
    let level = Level::load(&data).unwrap();
    let expected = [
        (false, Color { red: 800, green: 800, blue: 700 }, Sprite::BlockSolid),
        (true, Color { red: 200, green: 600, blue: 1000 }, Sprite::Block),
        (true, Color { red: 0, green: 700, blue: 0 }, Sprite::Block),
        (true, Color { red: 800, green: 800, blue: 400 }, Sprite::Block),
        (true, Color { red: 1000, green: 500, blue: 0 }, Sprite::Block),
    ];
    for (col, (destructible, color, sprite)) in expected.iter().enumerate() {
        let brick = level.brick_at(0, col).unwrap();
        assert_eq!(brick.is_destructible(), *destructible);
        assert_eq!(brick.get_color(), *color);
        assert_eq!(brick.get_sprite(), *sprite);
        assert!(!brick.is_destroyed());
        assert_eq!(brick.get_position(), Vector2::new(204_800 * col as i64, 0));
        assert_eq!(brick.get_size(), Vector2::new(204_800, 384_000));
    }
}

#[test]
fn unit_sizes_round_down() {
    let data = LevelData { rows: 3, cols: 7, map: vec![vec![2, 2, 2], vec![2, 2, 2]] };
    let level = Level::load(&data).unwrap();
    let brick = level.brick_at(1, 2).unwrap();
    assert_eq!(brick.get_size(), Vector2::new(341_333, 54_857));
    assert_eq!(brick.get_position(), Vector2::new(682_666, 54_857));
}

#[test]
fn declared_counts_need_not_match_the_grid() {
    let data = LevelData { rows: 4, cols: 8, map: vec![vec![2]] };
    let level = Level::load(&data).unwrap();
    assert_eq!(level.height(), 1);
    assert_eq!(level.width(), 1);
    assert_eq!(level.brick_at(0, 0).unwrap().get_size(), Vector2::new(256_000, 48_000));
}

#[test]
fn empty_grid_loads_as_empty_level() {
    let data = LevelData { rows: 1, cols: 1, map: vec![] };
    let mut level = Level::load(&data).unwrap();
    assert_eq!(level.height(), 0);
    assert_eq!(level.width(), 0);
    assert!(level.render().is_empty());
    assert_eq!(level.perform_collisions(Vector2::new(0, 0), 1_000_000), None);
    let rows_without_cells = LevelData { rows: 1, cols: 1, map: vec![vec![], vec![]] };
    let level = Level::load(&rows_without_cells).unwrap();
    assert_eq!(level.height(), 2);
    assert_eq!(level.width(), 0);
}

#[test]
fn ragged_grid_is_malformed() {
    let data = LevelData { rows: 2, cols: 2, map: vec![vec![1, 0], vec![2]] };
    assert_eq!(Level::load(&data).err(), Some(GameError::MalformedLevel));
    let longer = LevelData { rows: 2, cols: 2, map: vec![vec![1], vec![2, 0]] };
    assert_eq!(Level::load(&longer).err(), Some(GameError::MalformedLevel));
}

#[test]
fn unknown_cell_value_is_malformed() {
    let data = LevelData { rows: 2, cols: 2, map: vec![vec![1, 0], vec![6, 1]] };
    assert_eq!(Level::load(&data).err(), Some(GameError::MalformedLevel));
}

#[test]
fn zero_counts_are_malformed() {
    let no_rows = LevelData { rows: 0, cols: 2, map: vec![vec![1, 0], vec![2, 1]] };
    assert_eq!(Level::load(&no_rows).err(), Some(GameError::MalformedLevel));
    let no_cols = LevelData { rows: 2, cols: 0, map: vec![vec![1, 0], vec![2, 1]] };
    assert_eq!(Level::load(&no_cols).err(), Some(GameError::MalformedLevel));
}

#[test]
fn render_lists_live_bricks_in_cell_order() {
    let level = two_by_two();
    let drawables = level.render();
    let size = Vector2::new(512_000, 192_000);
    let steel = Color { red: 800, green: 800, blue: 700 };
    let blue = Color { red: 200, green: 600, blue: 1000 };
    assert_eq!(
        drawables,
        vec![
            Drawable {
                kind: EntityKind::Brick,
                sprite: Sprite::BlockSolid,
                position: Vector2::new(0, 0),
                size,
                color: steel,
            },
            Drawable {
                kind: EntityKind::Brick,
                sprite: Sprite::Block,
                position: Vector2::new(0, 192_000),
                size,
                color: blue,
            },
            Drawable {
                kind: EntityKind::Brick,
                sprite: Sprite::BlockSolid,
                position: Vector2::new(512_000, 192_000),
                size,
                color: steel,
            },
        ]
    );
}

#[test]
fn hit_destroys_a_destructible_brick_once() {
    let mut level = two_by_two();
    let center = Vector2::new(100_000, 390_000);
    let hit = level.perform_collisions(center, 12_500);
    assert_eq!(
        hit,
        Some(BrickHit {
            row: 1,
            col: 0,
            direction: Direction::Down,
            penetration: Vector2::new(0, -6_000),
        })
    );
    assert!(level.brick_at(1, 0).unwrap().is_destroyed());
    assert!(!level.brick_at(0, 0).unwrap().is_destroyed());
    assert!(!level.brick_at(1, 1).unwrap().is_destroyed());
    assert_eq!(level.render().len(), 2);
    assert_eq!(level.perform_collisions(center, 12_500), None);
    assert!(level.brick_at(1, 0).unwrap().is_destroyed());
    assert_eq!(level.height(), 2);
    assert_eq!(level.width(), 2);
}

#[test]
fn destroyed_brick_stays_destroyed_through_further_passes() {
    let mut level = two_by_two();
    assert!(level.perform_collisions(Vector2::new(100_000, 200_000), 5_000).is_some());
    assert!(level.brick_at(1, 0).unwrap().is_destroyed());
    let centers = [
        Vector2::new(100_000, 200_000),
        Vector2::new(0, 0),
        Vector2::new(600_000, 300_000),
        Vector2::new(-5, 192_000),
        Vector2::new(1_000_000, 1_000_000),
    ];
    for center in centers.iter() {
        for radius in [0, 1, 12_500, 2_000_000] {
            let _ = level.perform_collisions(*center, radius);
            let brick = level.brick_at(1, 0).unwrap();
            assert!(brick.is_destroyed());
            assert_eq!(brick.get_position(), Vector2::new(0, 192_000));
            assert_eq!(level.height(), 2);
            assert_eq!(level.width(), 2);
        }
    }
}

#[test]
fn solid_brick_registers_hits_and_stays() {
    let mut level = two_by_two();
    let center = Vector2::new(100_000, 100_000);
    for _ in 0..3 {
        let hit = level.perform_collisions(center, 12_500);
        assert_eq!(
            hit,
            Some(BrickHit {
                row: 0,
                col: 0,
                direction: Direction::Up,
                penetration: Vector2::new(0, 0),
            })
        );
        assert!(!level.brick_at(0, 0).unwrap().is_destroyed());
    }
    assert_eq!(level.render().len(), 3);
}

#[test]
fn only_the_first_brick_in_cell_order_is_struck() {
    let data = LevelData { rows: 2, cols: 2, map: vec![vec![2, 3], vec![4, 5]] };
    let mut level = Level::load(&data).unwrap();
    let center = Vector2::new(512_000, 192_000);
    let hit = level.perform_collisions(center, 10_000).unwrap();
    assert_eq!((hit.row, hit.col), (0, 0));
    assert!(level.brick_at(0, 0).unwrap().is_destroyed());
    assert!(!level.brick_at(0, 1).unwrap().is_destroyed());
    assert!(!level.brick_at(1, 0).unwrap().is_destroyed());
    assert!(!level.brick_at(1, 1).unwrap().is_destroyed());
    let hit = level.perform_collisions(center, 10_000).unwrap();
    assert_eq!((hit.row, hit.col), (0, 1));
    let hit = level.perform_collisions(center, 10_000).unwrap();
    assert_eq!((hit.row, hit.col), (1, 0));
    let hit = level.perform_collisions(center, 10_000).unwrap();
    assert_eq!((hit.row, hit.col), (1, 1));
    assert_eq!(level.perform_collisions(center, 10_000), None);
    assert!(level.render().is_empty());
}

#[test]
fn find_collision_changes_nothing() {
    let level = two_by_two();
    let center = Vector2::new(100_000, 390_000);
    let found = level.find_collision(center, 12_500);
    assert_eq!(
        found,
        Some(BrickHit {
            row: 1,
            col: 0,
            direction: Direction::Down,
            penetration: Vector2::new(0, -6_000),
        })
    );
    assert!(!level.brick_at(1, 0).unwrap().is_destroyed());
    assert_eq!(level.find_collision(Vector2::new(900_000, 100_000), 12_500), None);
}

#[test]
fn brick_collides_with_a_circle() {
    let level = two_by_two();
    let brick = level.brick_at(1, 1).unwrap();
    assert_eq!(
        brick.collides_with(Vector2::new(509_000, 188_000), 6_000),
        CollisionResult::Hit(Direction::Up, Vector2::new(3_000, 4_000))
    );
    assert_eq!(
        brick.collides_with(Vector2::new(509_000, 188_000), 5_000),
        CollisionResult::Miss
    );
}

#[test]
fn destroy_marks_only_destructible_bricks() {
    let level = two_by_two();
    let mut solid = *level.brick_at(0, 0).unwrap();
    solid.destroy();
    assert!(!solid.is_destroyed());
    let mut soft = *level.brick_at(1, 0).unwrap();
    soft.destroy();
    assert!(soft.is_destroyed());
    soft.destroy();
    assert!(soft.is_destroyed());
    assert_eq!(soft.drawable().sprite, Sprite::Block);
    assert_eq!(solid.drawable().sprite, Sprite::BlockSolid);
}

#[test]
fn sprites_have_their_keys() {
    assert_eq!(Sprite::Ball.name(), "ball");
    assert_eq!(Sprite::Paddle.name(), "paddle");
    assert_eq!(Sprite::Block.name(), "block");
    assert_eq!(Sprite::BlockSolid.name(), "block_solid");
}

#[test]
fn bricks_tile_the_upper_half_of_the_arena() {
    for (rows, cols) in [(1u32, 1u32), (2, 2), (3, 7), (15, 8), (13, 6), (1_024_001, 5)] {
        let wide = rows.min(20) as usize;
        let high = cols.min(10) as usize;
        let map: Vec<Vec<u32>> = (0..high)
            .map(|i| (0..wide).map(|j| 1 + ((i + j) % 5) as u32).collect())
            .collect();
        let level = Level::load(&LevelData { rows, cols, map }).unwrap();
        let unit_width = 1_024_000 / rows as i64;
        let unit_height = 384_000 / cols as i64;
        for i in 0..high {
            for j in 0..wide {
                let brick = level.brick_at(i, j).unwrap();
                let position = brick.get_position();
                let size = brick.get_size();
                assert_eq!(size, Vector2::new(unit_width, unit_height));
                assert_eq!(position, Vector2::new(unit_width * j as i64, unit_height * i as i64));
                assert!(position.x >= 0 && position.x + size.x <= 1_024_000);
                assert!(position.y >= 0 && position.y + size.y <= 384_000);
            }
        }
        assert_eq!(level.render().len(), wide * high);
    }
}
