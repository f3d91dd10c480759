use vstd::prelude::*;

use crate::grid::{
    adjacent, can_step, covers, free_cells_of, grid_cells, has_free_cell, in_grid, lemma_distinct_cells_bound,
    lemma_free_cell_listed, lemma_free_cells_free, lemma_short_body_leaves_free_cell, opposite,
    step, GRID_CELLS,
};
pub use crate::grid::{Direction, Position, GRID_HEIGHT, GRID_WIDTH};
use crate::random::{random_below, thread_rng};

verus! {

/// The screen the game is on.
#[derive(Clone, Copy, PartialEq, Eq, Debug, Structural)]
pub enum GameState {
    StartScreen,
    Playing,
    Paused,
    GameOver,
}

/// The speed class chosen on the start screen.
#[derive(Clone, Copy, PartialEq, Eq, Debug, Structural)]
pub enum Difficulty {
    Easy,
    Medium,
    Hard,
    Insane,
}

/// Milliseconds between ticks at level 1.
pub open spec fn base_tick_ms(d: Difficulty) -> int {
    match d {
        Difficulty::Easy => 150,
        Difficulty::Medium => 100,
        Difficulty::Hard => 70,
        Difficulty::Insane => 45,
    }
}

/// The shortest interval between two ticks, in milliseconds.
pub const MIN_TICK_MS: u64 = 30;

/// Milliseconds between ticks: the base interval of the difficulty, shortened by
/// 3 ms per level above the first, and never below `MIN_TICK_MS`.
pub open spec fn tick_rate_ms(d: Difficulty, level: int) -> int {
    let v: int = base_tick_ms(d) - (level - 1) * 3;
    if v < MIN_TICK_MS {
        MIN_TICK_MS as int
    } else {
        v
    }
}

/// The display name of a difficulty.
pub open spec fn difficulty_name(d: Difficulty) -> Seq<char> {
    match d {
        Difficulty::Easy => "Easy"@,
        Difficulty::Medium => "Medium"@,
        Difficulty::Hard => "Hard"@,
        Difficulty::Insane => "Insane"@,
    }
}

impl Difficulty {
    /// Milliseconds between ticks at level 1 for this difficulty.
    pub fn base_tick_rate(&self) -> (ms: u64)
        ensures
            ms == base_tick_ms(*self),
    {
        match self {
            Difficulty::Easy => 150,
            Difficulty::Medium => 100,
            Difficulty::Hard => 70,
            Difficulty::Insane => 45,
        }
    }

    /// The display name of this difficulty.
    pub fn name(&self) -> (s: &'static str)
        ensures
            s@ == difficulty_name(*self),
    {
        match self {
            Difficulty::Easy => "Easy",
            Difficulty::Medium => "Medium",
            Difficulty::Hard => "Hard",
            Difficulty::Insane => "Insane",
        }
    }
}

/// What one tick did.
#[derive(Clone, Copy, PartialEq, Eq, Debug, Structural)]
pub enum TickOutcome {
    /// The game was not running; nothing changed.
    Idle,
    /// The snake moved one cell.
    Moved,
    /// The snake moved onto the food, grew by one cell and new food was placed.
    Ate,
    /// The snake hit a wall or itself and the game is over; `new_high_score`
    /// tells whether the score of the game replaced the high score.
    Crashed { new_high_score: bool },
}

/// The whole state of a game of snake.
pub struct SnakeGame {
    /// The body, head first.
    pub snake: Vec<Position>,
    pub food: Position,
    /// The direction of the last move.
    pub current_dir: Direction,
    /// The direction the next move takes.
    pub next_dir: Direction,
    pub score: u32,
    pub high_score: u32,
    pub state: GameState,
    pub difficulty: Difficulty,
    pub tick_count: u64,
    pub level: u32,
    /// The highlighted row of the difficulty menu (0 = Easy ... 3 = Insane).
    pub menu_selection: usize,
}

/// The mathematical value of a `SnakeGame`.
#[verifier::ext_equal]
pub struct GameView {
    pub snake: Seq<Position>,
    pub food: Position,
    pub current_dir: Direction,
    pub next_dir: Direction,
    pub score: u32,
    pub high_score: u32,
    pub state: GameState,
    pub difficulty: Difficulty,
    pub tick_count: u64,
    pub level: u32,
    pub menu_selection: usize,
}

impl View for SnakeGame {
    type V = GameView;

    open spec fn view(&self) -> GameView {
        GameView {
            snake: self.snake@,
            food: self.food,
            current_dir: self.current_dir,
            next_dir: self.next_dir,
            score: self.score,
            high_score: self.high_score,
            state: self.state,
            difficulty: self.difficulty,
            tick_count: self.tick_count,
            level: self.level,
            menu_selection: self.menu_selection,
        }
    }
}

/// Segment `i` and segment `i + 1` of the body share a side.
pub open spec fn linked(s: Seq<Position>, i: int) -> bool {
    adjacent(s[i], s[i + 1])
}

/// A body laid out on the board: at least one segment, all on the board, no cell
/// twice, and each segment next to the one behind it.
pub open spec fn body_shape(s: Seq<Position>) -> bool {
    &&& 1 <= s.len()
    &&& forall|i: int| 0 <= i < s.len() ==> in_grid(#[trigger] s[i])
    &&& s.no_duplicates()
    &&& forall|i: int| 0 <= i < s.len() - 1 ==> #[trigger] linked(s, i)
}

/// A well-formed body: laid out on the board, with at least three segments.
pub open spec fn body_ok(s: Seq<Position>) -> bool {
    3 <= s.len() && body_shape(s)
}

/// The body a game starts with: three cells in the middle row, heading right.
pub open spec fn initial_snake() -> Seq<Position> {
    seq![Position { x: 20, y: 10 }, Position { x: 19, y: 10 }, Position { x: 18, y: 10 }]
}

/// The cell the head moves to on the next tick.
pub open spec fn next_head(g: GameView) -> Position {
    step(g.snake[0], g.next_dir)
}

/// The next move of `g` reaches the food: the head stays on the board, misses
/// the body and lands on the food.
pub open spec fn eats(g: GameView) -> bool {
    in_grid(next_head(g)) && !g.snake.contains(next_head(g)) && next_head(g) == g.food
}

/// A tick of `g` runs to its end: when the game is running, the body has a head
/// that can step without overflowing a coordinate, the tick counter can grow, and
/// a meal leaves the score room for ten points and the board a cell for new food.
pub open spec fn tick_defined(g: GameView) -> bool {
    g.state == GameState::Playing ==> {
        &&& g.snake.len() > 0
        &&& can_step(g.snake[0], g.next_dir)
        &&& g.tick_count < u64::MAX
        &&& eats(g) ==> g.score + 10 <= u32::MAX && has_free_cell(seq![next_head(g)] + g.snake)
    }
}

/// The larger of two scores.
pub open spec fn max_score(a: u32, b: u32) -> u32 {
    if a < b {
        b
    } else {
        a
    }
}

impl GameView {
    /// The board is in order: the body laid out on the board, the food on a free
    /// cell, the score a multiple of ten and the level the one the score gives.
    pub open spec fn board_ok(self) -> bool {
        &&& body_shape(self.snake)
        &&& in_grid(self.food)
        &&& !self.snake.contains(self.food)
        &&& self.score % 10 == 0
        &&& self.level == self.score / 50 + 1
    }

    /// `self` with the food on the free cell of index `k`, counting the free cells
    /// row by row from the top left.
    pub open spec fn with_food_at(self, k: int) -> GameView {
        GameView { food: free_cells_of(self.snake)[k], ..self }
    }

    /// The invariant every reachable game keeps.
    pub open spec fn wf(self) -> bool {
        &&& body_ok(self.snake)
        &&& in_grid(self.food)
        &&& !self.snake.contains(self.food)
        &&& self.next_dir != opposite(self.current_dir)
        &&& (self.state == GameState::Playing || self.state == GameState::Paused) ==> self.snake[0]
            == step(self.snake[1], self.current_dir)
        &&& self.score == 10 * (self.snake.len() - 3)
        &&& self.level == self.score / 50 + 1
        &&& self.menu_selection < 4
    }

    /// `self` is `old` started afresh: the first body, heading right, no score, level 1,
    /// no ticks, food on a free cell; high score, screen, difficulty and menu kept.
    pub open spec fn is_reset_of(self, old: GameView) -> bool {
        &&& self == GameView {
            snake: initial_snake(),
            food: self.food,
            current_dir: Direction::Right,
            next_dir: Direction::Right,
            score: 0,
            level: 1,
            tick_count: 0,
            ..old
        }
        &&& in_grid(self.food)
        &&& !initial_snake().contains(self.food)
    }

    /// What a tick turns `old` into, and what it reports.
    pub open spec fn is_tick_of(self, old: GameView, outcome: TickOutcome) -> bool {
        if old.state != GameState::Playing {
            outcome == TickOutcome::Idle && self == old
        } else {
            let nh = next_head(old);
            let moved = GameView {
                tick_count: (old.tick_count + 1) as u64,
                current_dir: old.next_dir,
                ..old
            };
            if !in_grid(nh) || old.snake.contains(nh) {
                &&& outcome == (TickOutcome::Crashed { new_high_score: old.score > old.high_score })
                &&& self == GameView {
                    state: GameState::GameOver,
                    high_score: max_score(old.high_score, old.score),
                    ..moved
                }
            } else if nh == old.food {
                &&& outcome == TickOutcome::Ate
                &&& self == GameView {
                    snake: seq![nh] + old.snake,
                    score: (old.score + 10) as u32,
                    level: ((old.score + 10) / 50 + 1) as u32,
                    food: self.food,
                    ..moved
                }
                &&& in_grid(self.food)
                &&& !self.snake.contains(self.food)
            } else {
                &&& outcome == TickOutcome::Moved
                &&& self == GameView { snake: (seq![nh] + old.snake).drop_last(), ..moved }
            }
        }
    }
}

/// Stepping from a cell of the board gives a neighbouring cell.
proof fn lemma_step_adjacent(p: Position, d: Direction)
    requires
        in_grid(p),
    ensures
        adjacent(step(p, d), p),
        step(p, d) != p,
{
}

/// Putting a new head, next to the old head and on a free cell of the board, in
/// front of a body laid out on the board keeps it so.
proof fn lemma_grow_body(s: Seq<Position>, nh: Position)
    requires
        body_shape(s),
        in_grid(nh),
        !s.contains(nh),
        adjacent(nh, s[0]),
    ensures
        body_shape(seq![nh] + s),
        (seq![nh] + s)[0] == nh,
        (seq![nh] + s)[1] == s[0],
{
    let t = seq![nh] + s;
    assert forall|i: int| 0 <= i < t.len() implies in_grid(#[trigger] t[i]) by {
        if i > 0 {
            assert(t[i] == s[i - 1]);
        }
    }
    assert forall|i: int, j: int| 0 <= i < t.len() && 0 <= j < t.len() && i != j implies t[i]
        != t[j] by {
        if i > 0 && j > 0 {
            assert(t[i] == s[i - 1] && t[j] == s[j - 1]);
        } else if i == 0 {
            assert(t[j] == s[j - 1]);
        } else {
            assert(t[i] == s[i - 1]);
        }
    }
    assert forall|i: int| 0 <= i < t.len() - 1 implies #[trigger] linked(t, i) by {
        if i > 0 {
            assert(linked(s, i - 1));
            assert(t[i] == s[i - 1] && t[i + 1] == s[i]);
        }
    }
}

/// Dropping the tail of a body of two segments or more keeps it laid out on the board.
proof fn lemma_shrink_body(t: Seq<Position>)
    requires
        body_shape(t),
        t.len() >= 2,
    ensures
        body_shape(t.drop_last()),
{
    let u = t.drop_last();
    assert forall|i: int| 0 <= i < u.len() implies in_grid(#[trigger] u[i]) by {
        assert(u[i] == t[i]);
    }
    assert forall|i: int, j: int| 0 <= i < u.len() && 0 <= j < u.len() && i != j implies u[i]
        != u[j] by {
        assert(u[i] == t[i] && u[j] == t[j]);
    }
    assert forall|i: int| 0 <= i < u.len() - 1 implies #[trigger] linked(u, i) by {
        assert(linked(t, i));
    }
}

/// A well-formed game has at most `GRID_CELLS` segments, hence a bounded score.
proof fn lemma_wf_bounds(g: GameView)
    requires
        g.wf(),
    ensures
        g.snake.len() <= GRID_CELLS,
        g.score <= 10 * (GRID_CELLS - 3),
{
    lemma_distinct_cells_bound(g.snake);
}


/// The next move of a running game never takes the head back onto the segment
/// right behind it: steering can never reverse the snake.
pub proof fn lemma_no_reversal(g: GameView)
    requires
        g.wf(),
        g.state == GameState::Playing,
    ensures
        next_head(g) != g.snake[1],
{
    assert(in_grid(g.snake[1]));
}

/// Between two ticks the game waits at least `MIN_TICK_MS` and at most the base
/// interval of its difficulty.
pub proof fn lemma_tick_rate_bounds(d: Difficulty, level: int)
    requires
        level >= 1,
    ensures
        MIN_TICK_MS <= tick_rate_ms(d, level) <= base_tick_ms(d),
{
}

/// A higher level never slows the game down.
pub proof fn lemma_tick_rate_monotone(d: Difficulty, lower: int, higher: int)
    requires
        1 <= lower <= higher,
    ensures
        tick_rate_ms(d, higher) <= tick_rate_ms(d, lower),
{
}

/// A tick never lowers the score or the high score; the body keeps its length or
/// grows by one segment; a running game is still running or over afterwards; and
/// when a tick ends the game the high score is at least the final score.
pub proof fn lemma_tick_progress(old: GameView, new: GameView, outcome: TickOutcome)
    requires
        tick_defined(old),
        new.is_tick_of(old, outcome),
    ensures
        new.score >= old.score,
        new.high_score >= old.high_score,
        old.snake.len() <= new.snake.len() <= old.snake.len() + 1,
        old.state == GameState::Playing ==> (new.state == GameState::Playing || new.state
            == GameState::GameOver),
        new.state == GameState::GameOver && old.state == GameState::Playing ==> new.high_score
            >= new.score,
{
}

/// A tick keeps the board in order, whatever it does: move, eat, end the game or
/// nothing; the body then has at most `GRID_CELLS` segments.
pub proof fn lemma_tick_keeps_board(old: GameView, new: GameView, outcome: TickOutcome)
    requires
        old.board_ok(),
        tick_defined(old),
        new.is_tick_of(old, outcome),
    ensures
        new.board_ok(),
        new.snake.len() <= GRID_CELLS,
{
    if old.state == GameState::Playing {
        let nh = next_head(old);
        if in_grid(nh) && !old.snake.contains(nh) {
            lemma_step_adjacent(old.snake[0], old.next_dir);
            lemma_grow_body(old.snake, nh);
            let grown = seq![nh] + old.snake;
            if nh != old.food {
                lemma_shrink_body(grown);
                assert forall|i: int| 0 <= i < new.snake.len() implies new.snake[i]
                    != new.food by {
                    assert(new.snake[i] == grown[i]);
                    if i > 0 {
                        assert(grown[i] == old.snake[i - 1]);
                    }
                }
            }
        }
    }
    lemma_distinct_cells_bound(new.snake);
}

/// The high score kept after a game is the larger of the old high score and the
/// game's score: at least each of them, and one of them.
pub proof fn lemma_max_score(high: u32, score: u32)
    ensures
        max_score(high, score) >= high,
        max_score(high, score) >= score,
        max_score(high, score) == high || max_score(high, score) == score,
{
}

/// The next head is one cell from the current head in the chosen direction: up
/// takes the row above, down the row below, left the column to the left and right
/// the column to the right.
pub proof fn lemma_next_head_direction(g: GameView)
    requires
        g.snake.len() > 0,
        can_step(g.snake[0], g.next_dir),
    ensures
        g.next_dir == Direction::Up ==> next_head(g).x == g.snake[0].x && next_head(g).y
            == g.snake[0].y - 1,
        g.next_dir == Direction::Down ==> next_head(g).x == g.snake[0].x && next_head(g).y
            == g.snake[0].y + 1,
        g.next_dir == Direction::Left ==> next_head(g).x == g.snake[0].x - 1 && next_head(g).y
            == g.snake[0].y,
        g.next_dir == Direction::Right ==> next_head(g).x == g.snake[0].x + 1 && next_head(g).y
            == g.snake[0].y,
{
}

/// A tick does nothing to a game that is not running.
pub proof fn lemma_tick_idle(old: GameView, new: GameView, outcome: TickOutcome)
    requires
        old.state != GameState::Playing,
        new.is_tick_of(old, outcome),
    ensures
        outcome == TickOutcome::Idle,
        new == old,
{
}

/// A tick of a running game whose next head leaves the board, or lands on any
/// cell the body covers (the tail's cell too), ends the game: the body, score and
/// food stay as they were, the high score becomes the larger of the two, and the
/// crash reports a new high score exactly when the score beat the old one.
pub proof fn lemma_tick_crash(old: GameView, new: GameView, outcome: TickOutcome)
    requires
        old.state == GameState::Playing,
        !in_grid(next_head(old)) || old.snake.contains(next_head(old)),
        tick_defined(old),
        new.is_tick_of(old, outcome),
    ensures
        new.state == GameState::GameOver,
        outcome == (TickOutcome::Crashed { new_high_score: old.score > old.high_score }),
        new.snake == old.snake,
        new.score == old.score,
        new.food == old.food,
        old.score > old.high_score ==> new.high_score == old.score,
        old.score <= old.high_score ==> new.high_score == old.high_score,
        new.current_dir == old.next_dir,
        new.tick_count == old.tick_count + 1,
{
}

/// A tick of a running game whose next head lands on a free cell of the board
/// without food moves the snake: the new head goes in front, every segment takes
/// the place of the one before it, the tail cell is left, and nothing else but
/// the direction and the tick counter changes.
pub proof fn lemma_tick_move(old: GameView, new: GameView, outcome: TickOutcome)
    requires
        old.state == GameState::Playing,
        in_grid(next_head(old)),
        !old.snake.contains(next_head(old)),
        next_head(old) != old.food,
        tick_defined(old),
        new.is_tick_of(old, outcome),
    ensures
        outcome == TickOutcome::Moved,
        new.state == GameState::Playing,
        new.snake.len() == old.snake.len(),
        new.snake[0] == next_head(old),
        forall|i: int| 1 <= i < new.snake.len() ==> new.snake[i] == old.snake[i - 1],
        new.score == old.score,
        new.level == old.level,
        new.high_score == old.high_score,
        new.food == old.food,
        new.current_dir == old.next_dir,
        new.tick_count == old.tick_count + 1,
{
    let grown = seq![next_head(old)] + old.snake;
    assert forall|i: int| 1 <= i < new.snake.len() implies new.snake[i] == old.snake[i - 1] by {
        assert(new.snake[i] == grown[i]);
    }
    assert(new.snake[0] == grown[0]);
}

/// A tick of a running game whose next head lands on the food grows the snake by
/// the new head, keeps every old segment, scores ten points, sets the level to
/// one more than the score's count of fifties, and puts new food on a free cell.
pub proof fn lemma_tick_eat(old: GameView, new: GameView, outcome: TickOutcome)
    requires
        old.state == GameState::Playing,
        in_grid(next_head(old)),
        !old.snake.contains(next_head(old)),
        next_head(old) == old.food,
        tick_defined(old),
        new.is_tick_of(old, outcome),
    ensures
        outcome == TickOutcome::Ate,
        new.state == GameState::Playing,
        new.snake.len() == old.snake.len() + 1,
        new.snake[0] == next_head(old),
        forall|i: int| 1 <= i < new.snake.len() ==> new.snake[i] == old.snake[i - 1],
        new.score == old.score + 10,
        new.level == (old.score + 10) / 50 + 1,
        new.high_score == old.high_score,
        in_grid(new.food),
        !new.snake.contains(new.food),
        new.current_dir == old.next_dir,
        new.tick_count == old.tick_count + 1,
{
    assert forall|i: int| 1 <= i < new.snake.len() implies new.snake[i] == old.snake[i - 1] by {
        assert((seq![next_head(old)] + old.snake)[i] == old.snake[i - 1]);
    }
}

/// A reset puts the three-cell body at (20, 10), (19, 10), (18, 10) heading
/// right, with no score, level 1, no ticks, and food on another cell of the
/// board; high score, screen, difficulty and menu are kept.
pub proof fn lemma_reset_start(old: GameView, new: GameView)
    requires
        new.is_reset_of(old),
    ensures
        new.snake.len() == 3,
        new.snake[0] == (Position { x: 20, y: 10 }),
        new.snake[1] == (Position { x: 19, y: 10 }),
        new.snake[2] == (Position { x: 18, y: 10 }),
        new.current_dir == Direction::Right,
        new.next_dir == Direction::Right,
        new.score == 0,
        new.level == 1,
        new.tick_count == 0,
        new.high_score == old.high_score,
        new.state == old.state,
        new.difficulty == old.difficulty,
        new.menu_selection == old.menu_selection,
        0 <= new.food.x < 40,
        0 <= new.food.y < 20,
        new.food != (Position { x: 20, y: 10 }),
        new.food != (Position { x: 19, y: 10 }),
        new.food != (Position { x: 18, y: 10 }),
{
    assert(new.snake[0] == initial_snake()[0]);
    assert(new.snake[1] == initial_snake()[1]);
    assert(new.snake[2] == initial_snake()[2]);
}

/// The interval between ticks for each difficulty: 150 ms on Easy, 100 on Medium,
/// 70 on Hard and 45 on Insane at level 1, less 3 ms for each level above the
/// first, and never under 30 ms.
pub proof fn lemma_tick_rate_formula(d: Difficulty, level: int)
    requires
        level >= 1,
    ensures
        d == Difficulty::Easy ==> tick_rate_ms(d, level) == if 150 - 3 * (level - 1) >= 30 {
            150 - 3 * (level - 1)
        } else {
            30
        },
        d == Difficulty::Medium ==> tick_rate_ms(d, level) == if 100 - 3 * (level - 1) >= 30 {
            100 - 3 * (level - 1)
        } else {
            30
        },
        d == Difficulty::Hard ==> tick_rate_ms(d, level) == if 70 - 3 * (level - 1) >= 30 {
            70 - 3 * (level - 1)
        } else {
            30
        },
        d == Difficulty::Insane ==> tick_rate_ms(d, level) == if 45 - 3 * (level - 1) >= 30 {
            45 - 3 * (level - 1)
        } else {
            30
        },
{
}

/// Each level above the first takes 3 ms off the interval between ticks, until
/// the 30 ms floor.
pub proof fn lemma_tick_rate_step(d: Difficulty, level: int)
    requires
        level >= 1,
    ensures
        tick_rate_ms(d, level + 1) == if tick_rate_ms(d, level) - 3 >= 30 {
            tick_rate_ms(d, level) - 3
        } else {
            30
        },
{
}

/// Over a tick of a running game the snake grows by one segment exactly when it
/// eats, and each meal is worth ten points.
pub proof fn lemma_tick_growth(old: GameView, new: GameView, outcome: TickOutcome)
    requires
        old.wf(),
        new.is_tick_of(old, outcome),
    ensures
        outcome == TickOutcome::Ate ==> new.snake.len() == old.snake.len() + 1 && new.score
            == old.score + 10,
        outcome != TickOutcome::Ate ==> new.snake.len() == old.snake.len() && new.score
            == old.score,
{
    lemma_wf_bounds(old);
}

/// A well-formed running game can always tick, as long as the tick counter has
/// room and a meal would not fill the whole board.
pub proof fn lemma_wf_tick_defined(g: GameView)
    requires
        g.wf(),
        g.state == GameState::Playing ==> g.tick_count < u64::MAX,
        g.state == GameState::Playing && eats(g) ==> g.snake.len() + 1 < GRID_CELLS,
    ensures
        tick_defined(g),
{
    lemma_wf_bounds(g);
    assert(in_grid(g.snake[0]));
    if g.state == GameState::Playing && eats(g) {
        lemma_short_body_leaves_free_cell(seq![next_head(g)] + g.snake);
    }
}

impl SnakeGame {
    /// The invariant every reachable game keeps.
    pub open spec fn wf(&self) -> bool {
        self@.wf()
    }

    /// A game on the start screen, difficulty Medium selected, with the given high
    /// score and a fresh board.
    pub fn new(high_score: u32) -> (game: SnakeGame)
        ensures
            game.wf(),
            game@.is_reset_of(
                GameView {
                    snake: Seq::empty(),
                    food: Position { x: 0, y: 0 },
                    current_dir: Direction::Right,
                    next_dir: Direction::Right,
                    score: 0,
                    high_score,
                    state: GameState::StartScreen,
                    difficulty: Difficulty::Medium,
                    tick_count: 0,
                    level: 1,
                    menu_selection: 1,
                },
            ),
    {
        let mut game = SnakeGame {
            snake: Vec::new(),
            food: Position { x: 0, y: 0 },
            current_dir: Direction::Right,
            next_dir: Direction::Right,
            score: 0,
            high_score,
            state: GameState::StartScreen,
            difficulty: Difficulty::Medium,
            tick_count: 0,
            level: 1,
            menu_selection: 1,
        };
        game.reset();
        game
    }

    /// Starts the game afresh: the first body heading right, no score, level 1, no
    /// ticks, and food on a random free cell. Screen, difficulty, menu and high
    /// score are kept.
    pub fn reset(&mut self) -> (k: usize)
        ensures
            final(self)@.is_reset_of(old(self)@),
            k < free_cells_of(initial_snake()).len(),
            final(self).food == free_cells_of(initial_snake())[k as int],
            old(self).menu_selection < 4 ==> final(self).wf(),
    {
        let start_x: i32 = GRID_WIDTH / 2;
        let start_y: i32 = GRID_HEIGHT / 2;
        self.snake = vec![
            Position { x: start_x, y: start_y },
            Position { x: start_x - 1, y: start_y },
            Position { x: start_x - 2, y: start_y },
        ];
        self.current_dir = Direction::Right;
        self.next_dir = Direction::Right;
        self.score = 0;
        self.level = 1;
        self.tick_count = 0;
        assert(self.snake@ =~= initial_snake());
        let ghost corner = Position { x: 0, y: 0 };
        assert(in_grid(corner) && !self.snake@.contains(corner));
        let k: usize = self.spawn_food();
        proof {
            let s = self.snake@;
            assert(linked(s, 0) && linked(s, 1));
            assert(body_ok(s));
        }
        k
    }

    /// The cells of the board that the snake does not cover, row by row.
    pub fn free_cells(&self) -> (cells: Vec<Position>)
        ensures
            cells@ == free_cells_of(self.snake@),
    {
        let ghost body = self.snake@;
        let ghost pred = |q: Position| !body.contains(q);
        let mut cells: Vec<Position> = Vec::new();
        for i in 0..GRID_CELLS
            invariant
                body == self.snake@,
                pred == (|q: Position| !body.contains(q)),
                cells@ == grid_cells().take(i as int).filter(pred),
        {
            let p = Position { x: (i % 40) as i32, y: (i / 40) as i32 };
            assert(p == grid_cells()[i as int]);
            assert(grid_cells().take(i + 1) =~= grid_cells().take(i as int).push(p));
            proof {
                grid_cells().take(i as int).lemma_filter_push(p, pred);
            }
            if !covers(&self.snake, p) {
                cells.push(p);
            }
        }
        assert(grid_cells().take(GRID_CELLS as int) =~= grid_cells());
        cells
    }

    /// Puts the food on the free cell of index `k`, counting the cells the snake
    /// does not cover row by row from the top left.
    pub fn place_food(&mut self, k: usize)
        requires
            k < free_cells_of(old(self).snake@).len(),
        ensures
            final(self)@ == old(self)@.with_food_at(k as int),
            in_grid(final(self).food),
            !final(self).snake@.contains(final(self).food),
    {
        let cells = self.free_cells();
        proof {
            lemma_free_cells_free(self.snake@);
        }
        self.food = cells[k];
    }

    /// Puts the food on a cell of the board that the snake does not cover, drawn
    /// at random from all such cells, and returns the index of that cell among
    /// them, counting row by row from the top left.
    pub fn spawn_food(&mut self) -> (k: usize)
        requires
            has_free_cell(old(self).snake@),
        ensures
            k < free_cells_of(old(self).snake@).len(),
            final(self)@ == old(self)@.with_food_at(k as int),
            in_grid(final(self).food),
            !final(self).snake@.contains(final(self).food),
    {
        let count: usize = self.free_cells().len();
        proof {
            let p = choose|p: Position| #[trigger] in_grid(p) && !self.snake@.contains(p);
            lemma_free_cell_listed(self.snake@, p);
        }
        let mut rng = thread_rng();
        let k: usize = random_below(&mut rng, count);
        self.place_food(k);
        k
    }

    /// Milliseconds between ticks at the current difficulty and level.
    pub fn tick_rate(&self) -> (ms: u64)
        requires
            self.level >= 1,
        ensures
            ms == tick_rate_ms(self.difficulty, self.level as int),
    {
        let base: u64 = self.difficulty.base_tick_rate();
        let speed_up_ms: u64 = (self.level - 1) as u64 * 3;
        if base >= speed_up_ms {
            let rest: u64 = base - speed_up_ms;
            if rest > MIN_TICK_MS {
                rest
            } else {
                MIN_TICK_MS
            }
        } else {
            MIN_TICK_MS
        }
    }

    /// How long the main loop waits for a key before looking again: the tick
    /// interval while playing, 50 ms on the other screens.
    pub fn frame_interval_ms(&self) -> (ms: u64)
        requires
            self.state == GameState::Playing ==> self.level >= 1,
        ensures
            self.state == GameState::Playing ==> ms == tick_rate_ms(self.difficulty, self.level as int),
            self.state != GameState::Playing ==> ms == 50,
    {
        match self.state {
            GameState::Playing => self.tick_rate(),
            _ => 50,
        }
    }

    /// Whether a tick is due, `elapsed_ms` milliseconds after the last one, when
    /// `interval_ms` was the frame interval measured before the key was handled:
    /// only while playing, once that whole interval has passed.
    pub fn tick_due(&self, interval_ms: u64, elapsed_ms: u128) -> (due: bool)
        ensures
            due == (self.state == GameState::Playing && elapsed_ms >= interval_ms),
    {
        match self.state {
            GameState::Playing => elapsed_ms >= interval_ms as u128,
            _ => false,
        }
    }

    /// The game just set a new high score: it scored and the score equals the high score.
    pub fn is_new_high_score(&self) -> (r: bool)
        ensures
            r == (self.score == self.high_score && self.score > 0),
    {
        self.score == self.high_score && self.score > 0
    }

    /// Records the score as the high score when it beats it; reports whether it did.
    pub fn check_high_score(&mut self) -> (updated: bool)
        ensures
            updated == (old(self).score > old(self).high_score),
            final(self)@ == (GameView {
                high_score: max_score(old(self).high_score, old(self).score),
                ..old(self)@
            }),
    {
        if self.score > self.high_score {
            self.high_score = self.score;
            true
        } else {
            false
        }
    }

    /// Advances a running game by one move: the head steps in the chosen direction;
    /// hitting a wall or the body ends the game, reaching the food grows the snake,
    /// scores 10 points and places new food, and otherwise the tail follows.
    pub fn tick(&mut self) -> (outcome: TickOutcome)
        requires
            tick_defined(old(self)@),
        ensures
            final(self)@.is_tick_of(old(self)@, outcome),
            old(self).wf() ==> final(self).wf(),
            old(self).state == GameState::Playing && (!in_grid(next_head(old(self)@)) || old(
                self,
            ).snake@.contains(next_head(old(self)@))) ==> {
                &&& final(self).state == GameState::GameOver
                &&& outcome is Crashed
                &&& final(self).snake@ == old(self).snake@
            },
    {
        match self.state {
            GameState::Playing => {},
            _ => {
                return TickOutcome::Idle;
            },
        }
        let ghost old_game = self@;
        let ghost old_body = self.snake@;
        proof {
            if old_game.wf() {
                lemma_wf_bounds(old_game);
            }
        }
        self.tick_count = self.tick_count + 1;
        self.current_dir = self.next_dir;
        let head = self.snake[0];
        let new_head = head.step(self.current_dir);
        if !new_head.in_grid() {
            self.state = GameState::GameOver;
            let updated = self.check_high_score();
            return TickOutcome::Crashed { new_high_score: updated };
        }
        if covers(&self.snake, new_head) {
            self.state = GameState::GameOver;
            let updated = self.check_high_score();
            return TickOutcome::Crashed { new_high_score: updated };
        }
        proof {
            if old_game.wf() {
                lemma_step_adjacent(head, self.current_dir);
                lemma_grow_body(old_body, new_head);
            }
        }
        self.snake.insert(0, new_head);
        assert(self.snake@ =~= seq![new_head] + old_body);
        if new_head == self.food {
            self.score = self.score + 10;
            self.level = self.score / 50 + 1;
            self.spawn_food();
            TickOutcome::Ate
        } else {
            let ghost grown = self.snake@;
            self.snake.pop();
            assert(self.snake@ =~= grown.drop_last());
            proof {
                if old_game.wf() {
                    lemma_shrink_body(grown);
                    assert(self.snake@[0] == new_head);
                    assert(self.snake@[1] == old_body[0]);
                    assert forall|i: int| 0 <= i < self.snake@.len() implies self.snake@[i]
                        != self.food by {
                        if i > 0 {
                            assert(self.snake@[i] == old_body[i - 1]);
                        }
                    }
                }
            }
            TickOutcome::Moved
        }
    }
}

} // verus!
