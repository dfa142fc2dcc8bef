use breakout::collision::circle_rectangle_collision;
use breakout::error::GameError;
use breakout::level::{CollisionResult, Direction};
use breakout::math::{calculate_vector_direction, direction_of, integer_sqrt, Vector2};

#[test]
fn axis_vectors_classify_to_their_axis() {
    assert_eq!(calculate_vector_direction(&Vector2::new(0, 7)), Ok(Direction::Up));
    assert_eq!(calculate_vector_direction(&Vector2::new(0, -7)), Ok(Direction::Down));
    assert_eq!(calculate_vector_direction(&Vector2::new(-7, 0)), Ok(Direction::Left));
    assert_eq!(calculate_vector_direction(&Vector2::new(7, 0)), Ok(Direction::Right));
}

#[test]
fn axis_vectors_classify_at_the_edges_of_the_range() {
    assert_eq!(calculate_vector_direction(&Vector2::new(0, i64::MAX)), Ok(Direction::Up));
    assert_eq!(calculate_vector_direction(&Vector2::new(0, i64::MIN)), Ok(Direction::Down));
    assert_eq!(calculate_vector_direction(&Vector2::new(i64::MIN, 0)), Ok(Direction::Left));
    assert_eq!(calculate_vector_direction(&Vector2::new(i64::MAX, 0)), Ok(Direction::Right));
}

#[test]
fn oblique_vectors_classify_to_the_longer_part() {
    assert_eq!(calculate_vector_direction(&Vector2::new(3, 10)), Ok(Direction::Up));
    assert_eq!(calculate_vector_direction(&Vector2::new(10, -3)), Ok(Direction::Right));
    assert_eq!(calculate_vector_direction(&Vector2::new(-3, -10)), Ok(Direction::Down));
    assert_eq!(calculate_vector_direction(&Vector2::new(-10, 3)), Ok(Direction::Left));
}

#[test]
fn diagonal_ties_go_to_the_first_of_up_right_down_left() {
    assert_eq!(calculate_vector_direction(&Vector2::new(5, 5)), Ok(Direction::Up));
    assert_eq!(calculate_vector_direction(&Vector2::new(-5, 5)), Ok(Direction::Up));
    assert_eq!(calculate_vector_direction(&Vector2::new(5, -5)), Ok(Direction::Right));
    assert_eq!(calculate_vector_direction(&Vector2::new(-5, -5)), Ok(Direction::Down));
    assert_eq!(
        calculate_vector_direction(&Vector2::new(i64::MIN, i64::MIN)),
        Ok(Direction::Down)
    );
}

#[test]
fn zero_vector_is_an_invalid_argument() {
    assert_eq!(
        calculate_vector_direction(&Vector2::new(0, 0)),
        Err(GameError::InvalidArgument)
    );
}

#[test]
fn direction_of_the_zero_vector_is_up() {
    assert_eq!(direction_of(0, 0), Direction::Up);
    assert_eq!(direction_of(1, 0), Direction::Right);
    assert_eq!(direction_of(0, -1), Direction::Down);
    assert_eq!(direction_of(-1, 0), Direction::Left);
}

#[test]
fn integer_sqrt_gives_the_whole_part() {
    assert_eq!(integer_sqrt(0), 0);
    assert_eq!(integer_sqrt(1), 1);
    assert_eq!(integer_sqrt(3), 1);
    assert_eq!(integer_sqrt(4), 2);
    assert_eq!(integer_sqrt(8), 2);
    assert_eq!(integer_sqrt(9), 3);
    assert_eq!(integer_sqrt(99), 9);
    assert_eq!(integer_sqrt(100), 10);
    assert_eq!(integer_sqrt(1_000_000_000_000), 1_000_000);
    assert_eq!(integer_sqrt(u128::MAX), u64::MAX);
    assert_eq!(integer_sqrt((u64::MAX as u128) * (u64::MAX as u128)), u64::MAX);
    assert_eq!(integer_sqrt((u64::MAX as u128) * (u64::MAX as u128) - 1), u64::MAX - 1);
}

#[test]
fn circle_near_the_corner_hits() {
    let result = circle_rectangle_collision(
        Vector2::new(10, 10),
        5,
        Vector2::new(0, 0),
        Vector2::new(8, 8),
    );
    assert_eq!(result, CollisionResult::Hit(Direction::Down, Vector2::new(-2, -2)));
}

#[test]
fn circle_with_center_inside_hits_with_zero_penetration() {
    let result = circle_rectangle_collision(
        Vector2::new(4, 3),
        1,
        Vector2::new(0, 0),
        Vector2::new(8, 8),
    );
    assert_eq!(result, CollisionResult::Hit(Direction::Up, Vector2::new(0, 0)));
    let on_the_edge = circle_rectangle_collision(
        Vector2::new(8, 8),
        1,
        Vector2::new(0, 0),
        Vector2::new(8, 8),
    );
    assert_eq!(on_the_edge, CollisionResult::Hit(Direction::Up, Vector2::new(0, 0)));
}

#[test]
fn circle_of_radius_zero_never_hits() {
    let result = circle_rectangle_collision(
        Vector2::new(4, 3),
        0,
        Vector2::new(0, 0),
        Vector2::new(8, 8),
    );
    assert_eq!(result, CollisionResult::Miss);
    let negative = circle_rectangle_collision(
        Vector2::new(4, 3),
        -3,
        Vector2::new(0, 0),
        Vector2::new(8, 8),
    );
    assert_eq!(negative, CollisionResult::Miss);
}

#[test]
fn separated_circle_misses() {
    let far_on_both = circle_rectangle_collision(
        Vector2::new(20, 20),
        5,
        Vector2::new(0, 0),
        Vector2::new(8, 8),
    );
    assert_eq!(far_on_both, CollisionResult::Miss);
    let far_on_one = circle_rectangle_collision(
        Vector2::new(4, -6),
        5,
        Vector2::new(0, 0),
        Vector2::new(8, 8),
    );
    assert_eq!(far_on_one, CollisionResult::Miss);
}

#[test]
fn tangent_circle_misses() {
    let beside = circle_rectangle_collision(
        Vector2::new(13, 4),
        5,
        Vector2::new(0, 0),
        Vector2::new(8, 8),
    );
    assert_eq!(beside, CollisionResult::Miss);
    let at_the_corner = circle_rectangle_collision(
        Vector2::new(11, 12),
        5,
        Vector2::new(0, 0),
        Vector2::new(8, 8),
    );
    assert_eq!(at_the_corner, CollisionResult::Miss);
    let just_inside = circle_rectangle_collision(
        Vector2::new(12, 4),
        5,
        Vector2::new(0, 0),
        Vector2::new(8, 8),
    );
    assert_eq!(just_inside, CollisionResult::Hit(Direction::Left, Vector2::new(-4, 0)));
}

#[test]
fn hits_on_each_side_name_the_side() {
    let position = Vector2::new(100, 100);
    let size = Vector2::new(50, 20);
    assert_eq!(
        circle_rectangle_collision(Vector2::new(125, 95), 10, position, size),
        CollisionResult::Hit(Direction::Up, Vector2::new(0, 5))
    );
    assert_eq!(
        circle_rectangle_collision(Vector2::new(125, 125), 10, position, size),
        CollisionResult::Hit(Direction::Down, Vector2::new(0, -5))
    );
    assert_eq!(
        circle_rectangle_collision(Vector2::new(95, 110), 10, position, size),
        CollisionResult::Hit(Direction::Right, Vector2::new(5, 0))
    );
    assert_eq!(
        circle_rectangle_collision(Vector2::new(155, 110), 10, position, size),
        CollisionResult::Hit(Direction::Left, Vector2::new(-5, 0))
    );
}

#[test]
fn collision_at_the_ends_of_the_coordinate_range() {
    let result = circle_rectangle_collision(
        Vector2::new(i64::MIN, i64::MIN),
        i64::MAX,
        Vector2::new(i64::MAX, i64::MAX),
        Vector2::new(i64::MAX, i64::MAX),
    );
    assert_eq!(result, CollisionResult::Miss);
    let huge = circle_rectangle_collision(
        Vector2::new(0, 0),
        i64::MAX,
        Vector2::new(i64::MAX - 1, 0),
        Vector2::new(10, 10),
    );
    assert_eq!(huge, CollisionResult::Hit(Direction::Right, Vector2::new(i64::MAX - 1, 0)));
}
