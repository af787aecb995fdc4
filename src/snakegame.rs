//! The grid game: a snake on a square board, an apple, and the step function
//! that moves the snake one cell and decides whether it lives.

use crate::point::Point;
use crate::random::{draw_below, entropy_rng};
use rand::rngs::StdRng;
use vstd::prelude::*;

verus! {

/// Side length of the square board.
pub const BOARD_SIZE: isize = 18;

/// Steps that the snake may take without eating before it starves: enough to
/// cross the board twice.
pub const STEPS_UNTIL_DEATH: usize = 37;

/// Points for each apple eaten.
pub const POINTS_PER_APPLE: usize = 300;

/// Points for each step survived.
pub const POINTS_PER_STEP: usize = 5;

/// Apples after which an episode is ended as won.
pub const MAX_APPLES_EATEN: usize = 3;

/// The score of a won episode.
pub const MAX_SCORE: usize = 10000;

/// Compass directions on the board; north is towards `y == 0`.
#[derive(Debug, Clone, Copy, PartialEq, Eq, Structural)]
pub enum Direction {
    North,
    South,
    East,
    West,
}

/// Directions relative to where the snake faces.
#[derive(Debug, Clone, Copy, PartialEq, Eq, Structural)]
pub enum RelativeDirection {
    Left,
    Infront,
    Right,
}

/// The index by which a network output names a direction.
pub open spec fn direction_index(d: Direction) -> int {
    match d {
        Direction::North => 0,
        Direction::South => 1,
        Direction::East => 2,
        Direction::West => 3,
    }
}

/// The direction a quarter turn counter-clockwise from `d`.
pub open spec fn turn_left(d: Direction) -> Direction {
    match d {
        Direction::North => Direction::West,
        Direction::West => Direction::South,
        Direction::South => Direction::East,
        Direction::East => Direction::North,
    }
}

/// The direction a quarter turn clockwise from `d`.
pub open spec fn turn_right(d: Direction) -> Direction {
    match d {
        Direction::North => Direction::East,
        Direction::East => Direction::South,
        Direction::South => Direction::West,
        Direction::West => Direction::North,
    }
}

/// The direction that points the other way.
pub open spec fn opposite(d: Direction) -> Direction {
    match d {
        Direction::North => Direction::South,
        Direction::South => Direction::North,
        Direction::East => Direction::West,
        Direction::West => Direction::East,
    }
}

/// The compass direction of `rel` for a snake facing `dir`.
pub open spec fn absolute_of(dir: Direction, rel: RelativeDirection) -> Direction {
    match rel {
        RelativeDirection::Infront => dir,
        RelativeDirection::Left => turn_left(dir),
        RelativeDirection::Right => turn_right(dir),
    }
}

/// Whether `p` lies on the board.
pub open spec fn in_board(p: Point) -> bool {
    0 <= p.x < BOARD_SIZE && 0 <= p.y < BOARD_SIZE
}

/// The cell `k` steps from `p` towards `d`.
pub open spec fn ray(p: Point, d: Direction, k: int) -> Point {
    match d {
        Direction::North => Point { x: p.x, y: (p.y - k) as isize },
        Direction::South => Point { x: p.x, y: (p.y + k) as isize },
        Direction::East => Point { x: (p.x + k) as isize, y: p.y },
        Direction::West => Point { x: (p.x - k) as isize, y: p.y },
    }
}

/// The neighbouring cell of `p` towards `d`.
pub open spec fn neighbour(p: Point, d: Direction) -> Point {
    ray(p, d, 1)
}

/// Cells from `head` to the wall towards `d`, as the observation counts them.
pub open spec fn wall_gap(head: Point, d: Direction) -> int {
    match d {
        Direction::North => head.y as int,
        Direction::South => BOARD_SIZE - head.y,
        Direction::West => head.x as int,
        Direction::East => BOARD_SIZE - head.x,
    }
}

/// Whether `k` is the nearest distance below `BOARD_SIZE` at which `body`
/// lies from `head` towards `d`; zero stands for none.
pub open spec fn is_body_distance(body: Seq<Point>, head: Point, d: Direction, k: int) -> bool {
    &&& 0 <= k < BOARD_SIZE
    &&& k > 0 ==> body.contains(ray(head, d, k))
    &&& forall|j: int| 1 <= j < BOARD_SIZE && (k == 0 || j < k) ==> !body.contains(#[trigger] ray(head, d, j))
}

/// Whether every cell of the board is taken by `body`.
pub open spec fn board_full(body: Seq<Point>) -> bool {
    forall|p: Point| in_board(p) ==> body.contains(p)
}

/// The body that every new game starts with, tail first.
pub open spec fn initial_body() -> Seq<Point> {
    seq![
        Point { x: 9, y: 12 },
        Point { x: 9, y: 11 },
        Point { x: 9, y: 10 },
        Point { x: 9, y: 9 },
    ]
}

impl Direction {
    /// The direction that a network output index names.
    pub fn from_usize(value: usize) -> (r: Self)
        requires
            value < 4,
        ensures
            direction_index(r) == value,
    {
        match value {
            0 => Direction::North,
            1 => Direction::South,
            2 => Direction::East,
            _ => Direction::West,
        }
    }
}

/// The compass direction of `rel` for a snake facing `dir`.
pub fn relative_to_absolute(dir: Direction, rel: RelativeDirection) -> (r: Direction)
    ensures
        r == absolute_of(dir, rel),
{
    match rel {
        RelativeDirection::Infront => dir,
        RelativeDirection::Left => match dir {
            Direction::North => Direction::West,
            Direction::West => Direction::South,
            Direction::South => Direction::East,
            Direction::East => Direction::North,
        },
        RelativeDirection::Right => match dir {
            Direction::North => Direction::East,
            Direction::East => Direction::South,
            Direction::South => Direction::West,
            Direction::West => Direction::North,
        },
    }
}

/// Whether `d` points back the way the snake faces from.
fn is_reversal(d: Direction, facing: Direction) -> (r: bool)
    ensures
        r == (d == opposite(facing)),
{
    match (d, facing) {
        (Direction::North, Direction::South) => true,
        (Direction::South, Direction::North) => true,
        (Direction::East, Direction::West) => true,
        (Direction::West, Direction::East) => true,
        _ => false,
    }
}

/// The neighbouring cell of an in-board `p` towards `d`.
fn step_towards(p: Point, d: Direction) -> (r: Point)
    requires
        in_board(p),
    ensures
        r == neighbour(p, d),
{
    match d {
        Direction::North => p.north(),
        Direction::South => p.south(),
        Direction::East => p.east(),
        Direction::West => p.west(),
    }
}

/// Whether `p` is one of the cells of `body`.
pub fn body_contains(body: &Vec<Point>, p: Point) -> (r: bool)
    ensures
        r == body@.contains(p),
{
    let mut i: usize = 0;
    while i < body.len()
        invariant
            0 <= i <= body.len(),
            forall|j: int| 0 <= j < i ==> body@[j] != p,
        decreases body.len() - i,
    {
        if body[i] == p {
            return true;
        }
        i = i + 1;
    }
    false
}

/// A cell for a new apple, drawn uniformly among the cells of the board that
/// `body` leaves free; `None` when the body covers the whole board.
pub fn new_fruit(body: &Vec<Point>, rng: &mut StdRng) -> (r: Option<Point>)
    ensures
        r matches Some(p) ==> in_board(p) && !body@.contains(p),
        r is None ==> board_full(body@),
{
    let mut free: Vec<Point> = Vec::new();
    let mut y: isize = 0;
    while y < BOARD_SIZE
        invariant
            0 <= y <= BOARD_SIZE,
            forall|k: int| 0 <= k < free.len() ==> in_board(#[trigger] free@[k]) && !body@.contains(free@[k]),
            forall|p: Point| in_board(p) && p.y < y && !body@.contains(p) ==> free@.contains(p),
        decreases BOARD_SIZE - y,
    {
        let mut x: isize = 0;
        while x < BOARD_SIZE
            invariant
                0 <= y < BOARD_SIZE,
                0 <= x <= BOARD_SIZE,
                forall|k: int| 0 <= k < free.len() ==> in_board(#[trigger] free@[k]) && !body@.contains(free@[k]),
                forall|p: Point| in_board(p) && (p.y < y || (p.y == y && p.x < x)) && !body@.contains(p) ==> free@.contains(p),
            decreases BOARD_SIZE - x,
        {
            let p = Point { x, y };
            if !body_contains(body, p) {
                let ghost before = free@;
                free.push(p);
                assert forall|q: Point| before.contains(q) implies free@.contains(q) by {
                    let k = choose|k: int| 0 <= k < before.len() && before[k] == q;
                    assert(free@[k] == q);
                }
                assert(free@[free.len() - 1] == p);
            }
            x = x + 1;
        }
        y = y + 1;
    }
    if free.len() == 0 {
        assert forall|p: Point| in_board(p) implies body@.contains(p) by {
            if !body@.contains(p) {
                assert(free@.contains(p));
            }
        }
        None
    } else {
        let i = draw_below(rng, free.len() as u128) as usize;
        Some(free[i])
    }
}


/// What ended an episode.
#[derive(Debug, Clone, Copy, PartialEq, Eq, Structural)]
pub enum DeathCause {
    Wall,
    Myself,
    Hunger,
}

/// What an episode leaves behind: its score, the apples eaten, and what
/// killed the snake (`None` for an episode ended as won).
#[derive(Debug, Clone, Copy, PartialEq, Eq, Structural)]
pub struct EpisodeResult {
    pub score: usize,
    pub apples_eaten: usize,
    pub cause: Option<DeathCause>,
}

/// What the game state holds, as plain values.
pub struct GameState {
    /// The cells of the snake, tail first; the head is the last.
    pub body: Seq<Point>,
    pub apple: Point,
    pub direction: Direction,
    /// Steps left before the snake starves.
    pub steps_left: int,
    /// Steps survived so far.
    pub total_steps: int,
    pub score: int,
    pub apples_eaten: int,
    pub alive: bool,
    pub killed_by_wall: bool,
    pub killed_by_myself: bool,
    pub killed_by_hunger: bool,
}

/// One episode of the game.
pub struct Snakegame {
    pub apples_eaten: usize,
    pub alive: bool,
    steps_until_death: usize,
    total_steps: usize,
    direction: Direction,
    score: usize,
    snake: Vec<Point>,
    apple_position: Point,
    pub killed_by_wall: bool,
    pub killed_by_myself: bool,
    pub killed_by_hunger: bool,
    rng: StdRng,
}

impl View for Snakegame {
    type V = GameState;

    closed spec fn view(&self) -> GameState {
        GameState {
            body: self.snake@,
            apple: self.apple_position,
            direction: self.direction,
            steps_left: self.steps_until_death as int,
            total_steps: self.total_steps as int,
            score: self.score as int,
            apples_eaten: self.apples_eaten as int,
            alive: self.alive,
            killed_by_wall: self.killed_by_wall,
            killed_by_myself: self.killed_by_myself,
            killed_by_hunger: self.killed_by_hunger,
        }
    }
}

impl Snakegame {
    /// The body is on the board, never crosses itself and is never empty; a
    /// live game has its apple on a free cell, steps left, no cause of death
    /// and fewer apples eaten than end an episode.
    pub open spec fn wf(&self) -> bool {
        &&& self@.body.len() > 0
        &&& forall|i: int| 0 <= i < self@.body.len() ==> in_board(#[trigger] self@.body[i])
        &&& self@.body.no_duplicates()
        &&& in_board(self@.apple)
        &&& self@.alive ==> {
            &&& !self@.body.contains(self@.apple)
            &&& self@.steps_left > 0
            &&& self@.apples_eaten < MAX_APPLES_EATEN
            &&& !self@.killed_by_wall && !self@.killed_by_myself && !self@.killed_by_hunger
        }
    }

    /// The cell of the head.
    pub open spec fn head(&self) -> Point {
        self@.body.last()
    }

    /// The cell that the head enters when the snake moves towards `d`.
    pub open spec fn next_head(&self, d: Direction) -> Point {
        neighbour(self.head(), d)
    }

    /// The counters stay far enough from their machine limits for one more step.
    pub open spec fn has_headroom(&self) -> bool {
        &&& self@.score + POINTS_PER_APPLE + POINTS_PER_STEP <= usize::MAX
        &&& self@.total_steps < usize::MAX
        &&& self@.apples_eaten < usize::MAX
    }

    /// A fresh game: the initial body heading north, the apple on a free cell
    /// drawn from the thread-local random source.
    pub fn new() -> (r: Self)
        ensures
            r.wf(),
            r@.alive,
            in_board(r@.apple),
            !r@.body.contains(r@.apple),
            r@.body.no_duplicates(),
            forall|i: int| 0 <= i < r@.body.len() ==> in_board(#[trigger] r@.body[i]),
            r@.body == initial_body(),
            r@.direction == Direction::North,
            r@.steps_left == STEPS_UNTIL_DEATH,
            r@.total_steps == 0,
            r@.score == 0,
            r@.apples_eaten == 0,
    {
        Self::with_rng(entropy_rng())
    }

    /// A fresh game as `new` makes it, whose apples are drawn from `rng`.
    pub fn with_rng(rng: StdRng) -> (r: Self)
        ensures
            r.wf(),
            r@.alive,
            in_board(r@.apple),
            !r@.body.contains(r@.apple),
            r@.body.no_duplicates(),
            forall|i: int| 0 <= i < r@.body.len() ==> in_board(#[trigger] r@.body[i]),
            r@.body == initial_body(),
            r@.direction == Direction::North,
            r@.steps_left == STEPS_UNTIL_DEATH,
            r@.total_steps == 0,
            r@.score == 0,
            r@.apples_eaten == 0,
    {
        let mut rng = rng;
        let snake: Vec<Point> = vec![
            Point { x: 9, y: 12 },
            Point { x: 9, y: 11 },
            Point { x: 9, y: 10 },
            Point { x: 9, y: 9 },
        ];
        assert(snake@ == initial_body());
        let corner = Point { x: 0, y: 0 };
        assert(!snake@.contains(corner)) by {
            assert forall|i: int| 0 <= i < snake@.len() implies snake@[i] != corner by {}
        }
        let apple = new_fruit(&snake, &mut rng);
        let apple_position = match apple {
            Some(p) => p,
            None => {
                assert(in_board(corner));
                corner
            },
        };
        Snakegame {
            apples_eaten: 0,
            alive: true,
            steps_until_death: STEPS_UNTIL_DEATH,
            total_steps: 0,
            direction: Direction::North,
            score: 0,
            snake,
            apple_position,
            killed_by_hunger: false,
            killed_by_myself: false,
            killed_by_wall: false,
            rng,
        }
    }

    /// A live game in a given position: `snake` tail first, facing
    /// `direction`, the apple at `apple`, `steps` left before starving, and
    /// nothing scored or eaten yet.
    pub fn with_state(snake: Vec<Point>, direction: Direction, apple: Point, steps: usize) -> (r: Self)
        requires
            snake@.len() > 0,
            forall|i: int| 0 <= i < snake@.len() ==> in_board(#[trigger] snake@[i]),
            snake@.no_duplicates(),
            in_board(apple),
            !snake@.contains(apple),
            steps > 0,
        ensures
            r.wf(),
            r@.alive,
            r@.body == snake@,
            r@.apple == apple,
            r@.direction == direction,
            r@.steps_left == steps,
            r@.total_steps == 0,
            r@.score == 0,
            r@.apples_eaten == 0,
    {
        Snakegame {
            apples_eaten: 0,
            alive: true,
            steps_until_death: steps,
            total_steps: 0,
            direction,
            score: 0,
            snake,
            apple_position: apple,
            killed_by_hunger: false,
            killed_by_myself: false,
            killed_by_wall: false,
            rng: entropy_rng(),
        }
    }

    /// Whether the game is alive with room in its counters for one more step.
    pub fn can_step(&self) -> (r: bool)
        ensures
            r == (self@.alive && self.has_headroom()),
    {
        self.alive && self.score <= usize::MAX - POINTS_PER_APPLE - POINTS_PER_STEP
            && self.total_steps < usize::MAX && self.apples_eaten < usize::MAX
    }

    /// Moves the snake one cell towards `new_direction`.
    ///
    /// Turning back on itself kills the snake where it stands. Otherwise the
    /// snake faces `new_direction`; an apple is eaten (the body grows, the
    /// hunger budget is renewed and the apple moves to a free cell drawn at
    /// random), a wall or the body kills it, or the snake moves on and drops its
    /// tail. A move that survives costs one step of the budget (running out
    /// starves the snake) and earns the step's points; the last apple of an
    /// episode ends it with the maximum score.
    pub fn move_snake(&mut self, new_direction: Direction)
        requires
            old(self).wf(),
            old(self)@.alive,
            old(self).has_headroom(),
        ensures
            final(self).wf(),
            ({
                let o = old(self)@;
                let f = final(self)@;
                new_direction == opposite(o.direction) ==> {
                    &&& !f.alive && f.killed_by_myself && !f.killed_by_wall && !f.killed_by_hunger
                    &&& f.body == o.body && f.apple == o.apple && f.direction == o.direction
                    &&& f.steps_left == o.steps_left && f.total_steps == o.total_steps
                    &&& f.score == o.score && f.apples_eaten == o.apples_eaten
                }
            }),
            ({
                let o = old(self)@;
                let f = final(self)@;
                let next = old(self).next_head(new_direction);
                new_direction != opposite(o.direction) && next != o.apple && !in_board(next) ==> {
                    &&& !f.alive && f.killed_by_wall && !f.killed_by_myself && !f.killed_by_hunger
                    &&& f.body == o.body && f.apple == o.apple && f.direction == new_direction
                    &&& f.steps_left == o.steps_left && f.total_steps == o.total_steps
                    &&& f.score == o.score && f.apples_eaten == o.apples_eaten
                }
            }),
            ({
                let o = old(self)@;
                let f = final(self)@;
                let next = old(self).next_head(new_direction);
                new_direction != opposite(o.direction) && next != o.apple && in_board(next)
                    && o.body.contains(next) ==> {
                    &&& !f.alive && f.killed_by_myself && !f.killed_by_wall && !f.killed_by_hunger
                    &&& f.body == o.body && f.apple == o.apple && f.direction == new_direction
                    &&& f.steps_left == o.steps_left && f.total_steps == o.total_steps
                    &&& f.score == o.score && f.apples_eaten == o.apples_eaten
                }
            }),
            ({
                let o = old(self)@;
                let f = final(self)@;
                let next = old(self).next_head(new_direction);
                new_direction != opposite(o.direction) && next != o.apple && in_board(next)
                    && !o.body.contains(next) ==> {
                    &&& f.body == o.body.push(next).drop_first()
                    &&& f.apple == o.apple && f.direction == new_direction
                    &&& f.apples_eaten == o.apples_eaten
                    &&& f.steps_left == o.steps_left - 1
                    &&& !f.killed_by_wall && !f.killed_by_myself
                    &&& o.steps_left == 1 ==> {
                        &&& !f.alive && f.killed_by_hunger
                        &&& f.total_steps == o.total_steps && f.score == o.score
                    }
                    &&& o.steps_left > 1 ==> {
                        &&& f.alive
                        &&& f.total_steps == o.total_steps + 1
                        &&& f.score == o.score + POINTS_PER_STEP
                    }
                }
            }),
            ({
                let o = old(self)@;
                let f = final(self)@;
                let next = old(self).next_head(new_direction);
                new_direction != opposite(o.direction) && next == o.apple ==> {
                    &&& f.body == o.body.push(next)
                    &&& f.direction == new_direction
                    &&& f.apples_eaten == o.apples_eaten + 1
                    &&& !f.killed_by_wall && !f.killed_by_myself && !f.killed_by_hunger
                    &&& board_full(f.body) ==> {
                        &&& !f.alive
                        &&& f.total_steps == o.total_steps
                        &&& f.score == o.score + POINTS_PER_APPLE
                        &&& f.steps_left == STEPS_UNTIL_DEATH + 1
                    }
                    &&& !board_full(f.body) ==> {
                        &&& in_board(f.apple) && !f.body.contains(f.apple)
                        &&& f.steps_left == STEPS_UNTIL_DEATH
                        &&& f.total_steps == o.total_steps + 1
                        &&& f.alive == (f.apples_eaten < MAX_APPLES_EATEN)
                        &&& f.apples_eaten < MAX_APPLES_EATEN ==> f.score == o.score
                            + POINTS_PER_APPLE + POINTS_PER_STEP
                        &&& f.apples_eaten == MAX_APPLES_EATEN ==> f.score == MAX_SCORE
                    }
                }
            }),
    {
        if is_reversal(new_direction, self.direction) {
            self.alive = false;
            self.killed_by_myself = true;
            return;
        }
        self.direction = new_direction;
        let head = self.get_snake_head_pos();
        let next_head_position = step_towards(head, new_direction);
        let got_apple = self.apple_position == next_head_position;
        if got_apple {
            self.score = self.score + POINTS_PER_APPLE;
            self.apples_eaten = self.apples_eaten + 1;
            self.steps_until_death = STEPS_UNTIL_DEATH + 1;
        } else if !self.is_inside_board(&next_head_position) {
            self.alive = false;
            self.killed_by_wall = true;
            return;
        } else if body_contains(&self.snake, next_head_position) {
            self.alive = false;
            self.killed_by_myself = true;
            return;
        }
        let ghost before = self.snake@;
        self.snake.push(next_head_position);
        if got_apple {
            assert(self.snake@ == before.push(next_head_position));
            match new_fruit(&self.snake, &mut self.rng) {
                Some(p) => {
                    self.apple_position = p;
                },
                None => {
                    self.alive = false;
                    return;
                },
            }
        } else {
            self.snake.remove(0);
            assert(self.snake@ =~= before.push(next_head_position).drop_first());
            assert forall|i: int| 0 <= i < self.snake@.len() implies in_board(
                #[trigger] self.snake@[i],
            ) by {
                assert(self.snake@[i] == before.push(next_head_position)[i + 1]);
            }
            assert(self.snake@.no_duplicates()) by {
                assert forall|i: int, j: int|
                    0 <= i < self.snake@.len() && 0 <= j < self.snake@.len() && i != j implies
                    self.snake@[i] != self.snake@[j] by {
                    assert(self.snake@[i] == before.push(next_head_position)[i + 1]);
                    assert(self.snake@[j] == before.push(next_head_position)[j + 1]);
                }
            }
            assert(!self.snake@.contains(self.apple_position)) by {
                if self.snake@.contains(self.apple_position) {
                    let k = choose|k: int| 0 <= k < self.snake@.len() && self.snake@[k] == self.apple_position;
                    assert(before.push(next_head_position)[k + 1] == self.apple_position);
                    if k + 1 < before.len() {
                        assert(before.contains(self.apple_position));
                    }
                }
            }
        }
        self.steps_until_death = self.steps_until_death - 1;
        if self.steps_until_death == 0 {
            self.alive = false;
            self.killed_by_hunger = true;
            return;
        }
        self.total_steps = self.total_steps + 1;
        self.score = self.score + POINTS_PER_STEP;
        if self.apples_eaten == MAX_APPLES_EATEN {
            self.alive = false;
            self.score = MAX_SCORE;
        }
    }

    /// Whether `p` lies on the board.
    pub fn is_inside_board(&self, p: &Point) -> (r: bool)
        ensures
            r == in_board(*p),
    {
        p.x >= 0 && p.x < BOARD_SIZE && p.y >= 0 && p.y < BOARD_SIZE
    }

    /// The cell of the head.
    pub fn get_snake_head_pos(&self) -> (r: Point)
        requires
            self.wf(),
        ensures
            r == self.head(),
            in_board(r),
    {
        self.snake[self.snake.len() - 1]
    }

    /// The score so far.
    pub fn get_score(&self) -> (r: usize)
        ensures
            r == self@.score,
    {
        self.score
    }

    /// Cells from the head to the wall in the relative direction `rel`: the
    /// row or column of the head towards north and west, the board size less
    /// it towards south and east.
    pub fn wall_distance(&self, rel: RelativeDirection) -> (r: isize)
        requires
            self.wf(),
        ensures
            r == wall_gap(self.head(), absolute_of(self@.direction, rel)),
            0 <= r <= BOARD_SIZE,
    {
        let head = self.get_snake_head_pos();
        match relative_to_absolute(self.direction, rel) {
            Direction::North => head.y,
            Direction::South => BOARD_SIZE - head.y,
            Direction::West => head.x,
            Direction::East => BOARD_SIZE - head.x,
        }
    }

    /// Cells from the head to the nearest part of the body in the relative
    /// direction `rel`, looking less than `BOARD_SIZE` cells ahead; zero when
    /// none lies there.
    pub fn snake_distance(&self, rel: RelativeDirection) -> (r: usize)
        requires
            self.wf(),
        ensures
            is_body_distance(self@.body, self.head(), absolute_of(self@.direction, rel), r as int),
    {
        let head = self.get_snake_head_pos();
        let dir = relative_to_absolute(self.direction, rel);
        let mut current = head;
        let mut distance: usize = 1;
        while distance < BOARD_SIZE as usize
            invariant
                self.wf(),
                head == self.head(),
                dir == absolute_of(self@.direction, rel),
                in_board(head),
                1 <= distance <= BOARD_SIZE,
                current == ray(head, dir, distance - 1),
                forall|j: int| 1 <= j < distance ==> !self@.body.contains(#[trigger] ray(head, dir, j)),
            decreases BOARD_SIZE - distance,
        {
            current = match dir {
                Direction::North => current.north(),
                Direction::South => current.south(),
                Direction::East => current.east(),
                Direction::West => current.west(),
            };
            assert(current == ray(head, dir, distance as int));
            if body_contains(&self.snake, current) {
                assert(self@.body.contains(ray(head, dir, distance as int)));
                return distance;
            }
            distance = distance + 1;
        }
        0
    }

    /// The offset from the head to the apple, east and south positive.
    pub fn apple_offset(&self) -> (r: (isize, isize))
        requires
            self.wf(),
        ensures
            r.0 == self@.apple.x - self.head().x,
            r.1 == self@.apple.y - self.head().y,
    {
        let head = self.get_snake_head_pos();
        (self.apple_position.x - head.x, self.apple_position.y - head.y)
    }

    /// The cells of the snake, tail first.
    pub fn snake(&self) -> (r: &Vec<Point>)
        ensures
            r@ == self@.body,
    {
        &self.snake
    }

    /// Where the snake faces.
    pub fn direction(&self) -> (r: Direction)
        ensures
            r == self@.direction,
    {
        self.direction
    }

    /// Where the apple lies.
    pub fn apple_position(&self) -> (r: Point)
        ensures
            r == self@.apple,
    {
        self.apple_position
    }

    /// Steps left before the snake starves.
    pub fn steps_until_death(&self) -> (r: usize)
        ensures
            r == self@.steps_left,
    {
        self.steps_until_death
    }

    /// Steps survived so far.
    pub fn total_steps(&self) -> (r: usize)
        ensures
            r == self@.total_steps,
    {
        self.total_steps
    }

    /// The result of the episode so far: score, apples, and the cause of
    /// death that fired (starving first, then the body, then a wall).
    pub fn outcome(&self) -> (r: EpisodeResult)
        ensures
            r.score == self@.score,
            r.apples_eaten == self@.apples_eaten,
            r.cause == (if self@.killed_by_hunger {
                Some(DeathCause::Hunger)
            } else if self@.killed_by_myself {
                Some(DeathCause::Myself)
            } else if self@.killed_by_wall {
                Some(DeathCause::Wall)
            } else {
                None
            }),
    {
        let cause = if self.killed_by_hunger {
            Some(DeathCause::Hunger)
        } else if self.killed_by_myself {
            Some(DeathCause::Myself)
        } else if self.killed_by_wall {
            Some(DeathCause::Wall)
        } else {
            None
        };
        EpisodeResult { score: self.score, apples_eaten: self.apples_eaten, cause }
    }
}

} // verus!
