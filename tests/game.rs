use rand::rngs::StdRng;
use rand::SeedableRng;
use snake_evolution::point::Point;
use snake_evolution::snakegame::{
    new_fruit, relative_to_absolute, DeathCause, Direction, RelativeDirection, Snakegame, BOARD_SIZE,
    MAX_SCORE, POINTS_PER_APPLE, POINTS_PER_STEP, STEPS_UNTIL_DEATH,
};

fn point(x: isize, y: isize) -> Point {
    Point { x, y }
}

fn create_game(snake: Vec<Point>, direction: Direction, apple: Point, steps: usize) -> Snakegame {
    Snakegame::with_state(snake, direction, apple, steps)
}

#[test]
fn test_point_directions() {
    let p = Point { x: 5, y: 5 };

    assert_eq!(p.north(), Point { x: 5, y: 4 });
    assert_eq!(p.south(), Point { x: 5, y: 6 });
    assert_eq!(p.east(), Point { x: 6, y: 5 });
    assert_eq!(p.west(), Point { x: 4, y: 5 });
}

#[test]
fn test_point_saturating_bounds() {
    // Stepping off the board's edge reaches the cell just outside it, which
    // is what makes a wall collision detectable.
    let p = Point { x: 0, y: 0 };

    assert_eq!(p.north(), Point { x: 0, y: -1 });
    assert_eq!(p.west(), Point { x: -1, y: 0 });
}

#[test]
fn test_new_fruit_not_on_snake() {
    let snake: Vec<Point> = vec![
        Point { x: 9, y: 12 },
        Point { x: 9, y: 11 },
        Point { x: 9, y: 10 },
        Point { x: 9, y: 9 },
    ];
    let mut rng = StdRng::seed_from_u64(17);
    let fruit = new_fruit(&snake, &mut rng).expect("the board has free cells");

    assert!(!snake.contains(&fruit), "Fruit was placed on the snake at position {:?}", fruit);
    assert!(
        fruit.x >= 0 && fruit.x < BOARD_SIZE && fruit.y >= 0 && fruit.y < BOARD_SIZE,
        "Fruit position {:?} is out of bounds",
        fruit
    );
}

#[test]
fn new_fruit_on_full_board_is_none() {
    let mut snake = Vec::new();
    for y in 0..BOARD_SIZE {
        for x in 0..BOARD_SIZE {
            snake.push(point(x, y));
        }
    }
    let mut rng = StdRng::seed_from_u64(3);
    assert_eq!(new_fruit(&snake, &mut rng), None);
}

#[test]
fn new_fruit_takes_the_only_free_cell() {
    let mut snake = Vec::new();
    for y in 0..BOARD_SIZE {
        for x in 0..BOARD_SIZE {
            if (x, y) != (4, 7) {
                snake.push(point(x, y));
            }
        }
    }
    let mut rng = StdRng::seed_from_u64(3);
    assert_eq!(new_fruit(&snake, &mut rng), Some(point(4, 7)));
}

#[test]
fn test_get_snake_head_pos_returns_correct_point() {
    let game = Snakegame::new();
    let expected_head = Point { x: 9, y: 9 };
    let actual_head = game.get_snake_head_pos();
    assert_eq!(actual_head, expected_head, "Expected head at {:?}, got {:?}", expected_head, actual_head);
}

#[test]
fn new_game_never_puts_apple_on_body() {
    for seed in 0..200u64 {
        let game = Snakegame::with_rng(StdRng::seed_from_u64(seed));
        let body = game.snake();
        assert_eq!(body.len(), 4);
        assert!(!body.contains(&game.apple_position()));
        let a = game.apple_position();
        assert!(a.x >= 0 && a.x < BOARD_SIZE && a.y >= 0 && a.y < BOARD_SIZE);
        for (i, p) in body.iter().enumerate() {
            assert!(p.x >= 0 && p.x < BOARD_SIZE && p.y >= 0 && p.y < BOARD_SIZE);
            for q in &body[i + 1..] {
                assert_ne!(p, q);
            }
        }
        assert!(game.alive);
        assert_eq!(game.get_score(), 0);
        assert_eq!(game.steps_until_death(), STEPS_UNTIL_DEATH);
        assert_eq!(game.direction(), Direction::North);
    }
}

#[test]
fn valid_movement_without_eating_apple() {
    let mut game = create_game(vec![Point { x: 5, y: 5 }], Direction::North, Point { x: 0, y: 0 }, STEPS_UNTIL_DEATH);

    game.move_snake(Direction::East);

    assert_eq!(game.get_snake_head_pos(), Point { x: 6, y: 5 });
    assert!(game.alive);
    assert_eq!(game.snake().len(), 1, "Snake should not grow if no apple was eaten");
}

#[test]
fn plain_move_drops_tail_and_counts_step() {
    let mut game = create_game(vec![point(5, 7), point(5, 6), point(5, 5)], Direction::North, point(0, 0), 10);
    game.move_snake(Direction::North);
    assert_eq!(game.snake(), &vec![point(5, 6), point(5, 5), point(5, 4)]);
    assert_eq!(game.total_steps(), 1);
    assert_eq!(game.steps_until_death(), 9);
    assert_eq!(game.get_score(), POINTS_PER_STEP);
    assert_eq!(game.apple_position(), point(0, 0));
    assert!(game.alive);
}

#[test]
fn valid_movement_snake_grows_when_eating_apple() {
    let mut game = create_game(vec![Point { x: 5, y: 5 }], Direction::East, Point { x: 6, y: 5 }, STEPS_UNTIL_DEATH);

    game.move_snake(Direction::East);

    assert_eq!(game.get_snake_head_pos(), Point { x: 6, y: 5 });
    assert!(game.alive);
    assert_eq!(game.apples_eaten, 1);
    assert!(game.get_score() > 0);
    assert_eq!(game.snake().len(), 2, "Snake should grow to size 2 after eating apple");
}

#[test]
fn eating_apple_relocates_it_off_body_and_renews_budget() {
    for seed in 0..50u64 {
        let mut game = create_game(vec![point(5, 5)], Direction::East, point(6, 5), 4);
        game.move_snake(Direction::East);
        assert_eq!(game.snake(), &vec![point(5, 5), point(6, 5)]);
        assert!(!game.snake().contains(&game.apple_position()), "seed {}", seed);
        assert_eq!(game.steps_until_death(), STEPS_UNTIL_DEATH);
        assert_eq!(game.total_steps(), 1);
        assert_eq!(game.get_score(), POINTS_PER_APPLE + POINTS_PER_STEP);
    }
}

#[test]
fn invalid_direction_reversal_kills_snake() {
    let mut game = create_game(vec![point(5, 5)], Direction::North, point(0, 0), STEPS_UNTIL_DEATH);
    game.move_snake(Direction::South);
    assert!(!game.alive, "Snake should die when reversing direction");
}

#[test]
fn reversal_dies_by_own_body_without_moving() {
    for (facing, back) in [
        (Direction::North, Direction::South),
        (Direction::South, Direction::North),
        (Direction::East, Direction::West),
        (Direction::West, Direction::East),
    ] {
        let mut game = create_game(vec![point(5, 5), point(6, 6)], facing, point(0, 0), 5);
        game.move_snake(back);
        assert!(!game.alive);
        assert!(game.killed_by_myself && !game.killed_by_wall && !game.killed_by_hunger);
        assert_eq!(game.get_snake_head_pos(), point(6, 6));
        assert_eq!(game.direction(), facing);
        assert_eq!(game.outcome().cause, Some(DeathCause::Myself));
    }
}

#[test]
fn steps_until_death_kills_snake() {
    let mut game = create_game(vec![point(5, 5)], Direction::East, point(0, 0), 1);
    game.move_snake(Direction::East);
    assert!(!game.alive, "Snake should die when out of steps");
}

#[test]
fn last_step_starves_the_snake() {
    let mut game = create_game(vec![point(5, 5)], Direction::East, point(0, 0), 1);
    game.move_snake(Direction::East);
    assert!(game.killed_by_hunger && !game.killed_by_wall && !game.killed_by_myself);
    assert_eq!(game.outcome().cause, Some(DeathCause::Hunger));
    assert_eq!(game.get_score(), 0);
    assert_eq!(game.total_steps(), 0);
}

#[test]
fn wall_collision_kills_snake() {
    let mut game = create_game(vec![point(5, 0)], Direction::North, point(0, 0), STEPS_UNTIL_DEATH);
    game.move_snake(Direction::North);
    assert!(!game.alive, "Snake should die if it doesn't move (hits wall/self)");
}

#[test]
fn every_wall_kills_with_wall_cause() {
    let last = BOARD_SIZE - 1;
    for (start, dir) in [
        (point(3, 0), Direction::North),
        (point(3, last), Direction::South),
        (point(0, 3), Direction::West),
        (point(last, 3), Direction::East),
    ] {
        let mut game = create_game(vec![start], dir, point(9, 9), 5);
        game.move_snake(dir);
        assert!(!game.alive);
        assert!(game.killed_by_wall && !game.killed_by_myself && !game.killed_by_hunger);
        assert_eq!(game.get_snake_head_pos(), start);
        assert_eq!(game.outcome().cause, Some(DeathCause::Wall));
    }
}

#[test]
fn snake_dies_on_self_collision() {
    let snake = vec![point(2, 2), point(3, 2), point(4, 2), point(4, 3), point(3, 3), point(2, 3)];
    let mut game = create_game(snake, Direction::East, point(0, 0), 10);
    game.move_snake(Direction::North);
    assert!(!game.alive, "Snake should die colliding into itself");
    assert!(game.killed_by_myself);
}

#[test]
fn third_apple_ends_episode_with_max_score() {
    let mut game = create_game(vec![point(5, 5)], Direction::East, point(6, 5), 10);
    game.apples_eaten = 2;
    game.move_snake(Direction::East);
    assert!(!game.alive);
    assert_eq!(game.get_score(), MAX_SCORE);
    assert_eq!(game.outcome().cause, None);
}

#[test]
fn relative_directions_turn_from_facing() {
    let (n, s, e, w) = (Direction::North, Direction::South, Direction::East, Direction::West);
    let (left, ahead, right) = (RelativeDirection::Left, RelativeDirection::Infront, RelativeDirection::Right);
    assert_eq!(relative_to_absolute(n, left), w);
    assert_eq!(relative_to_absolute(n, right), e);
    assert_eq!(relative_to_absolute(s, left), e);
    assert_eq!(relative_to_absolute(e, right), s);
    assert_eq!(relative_to_absolute(w, left), s);
    assert_eq!(relative_to_absolute(w, ahead), w);
}

#[test]
fn direction_indices() {
    assert_eq!(Direction::from_usize(0), Direction::North);
    assert_eq!(Direction::from_usize(1), Direction::South);
    assert_eq!(Direction::from_usize(2), Direction::East);
    assert_eq!(Direction::from_usize(3), Direction::West);
}

#[test]
fn wall_distance_counts_cells() {
    let game = create_game(vec![point(5, 5)], Direction::North, point(0, 0), 10);
    assert_eq!(game.wall_distance(RelativeDirection::Infront), 5);
    assert_eq!(game.wall_distance(RelativeDirection::Left), 5);
    assert_eq!(game.wall_distance(RelativeDirection::Right), BOARD_SIZE - 5);
}

#[test]
fn snake_distance_finds_nearest_segment() {
    let game = create_game(vec![point(9, 5), point(8, 5), point(5, 5)], Direction::East, point(0, 0), 10);
    assert_eq!(game.snake_distance(RelativeDirection::Infront), 3);
    assert_eq!(game.snake_distance(RelativeDirection::Left), 0);
    let game = create_game(vec![point(5, 5), point(6, 5)], Direction::East, point(0, 0), 10);
    assert_eq!(game.snake_distance(RelativeDirection::Infront), 0);
}

#[test]
fn apple_offset_points_from_head() {
    let game = create_game(vec![point(10, 5)], Direction::East, point(4, 7), 10);
    assert_eq!(game.apple_offset(), (-6, 2));
}

#[test]
fn outcome_reports_score_and_apples() {
    let mut game = create_game(vec![point(5, 5)], Direction::East, point(6, 5), 10);
    game.move_snake(Direction::East);
    let r = game.outcome();
    assert_eq!(r.score, POINTS_PER_APPLE + POINTS_PER_STEP);
    assert_eq!(r.apples_eaten, 1);
    assert_eq!(r.cause, None);
}
