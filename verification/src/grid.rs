use vstd::prelude::*;

verus! {

/// Width of the board, in cells.
pub const GRID_WIDTH: i32 = 40;

/// Height of the board, in cells.
pub const GRID_HEIGHT: i32 = 20;

/// Number of cells on the board (`GRID_WIDTH * GRID_HEIGHT`).
pub const GRID_CELLS: usize = 800;

/// A direction of travel on the board. `Up` decreases `y`.
#[derive(Clone, Copy, PartialEq, Eq, Debug, Structural)]
pub enum Direction {
    Up,
    Down,
    Left,
    Right,
}

/// A cell of the board, column `x` and row `y`.
#[derive(Clone, Copy, PartialEq, Eq, Debug, Structural)]
pub struct Position {
    pub x: i32,
    pub y: i32,
}

/// The cell lies on the board.
pub open spec fn in_grid(p: Position) -> bool {
    0 <= p.x < GRID_WIDTH && 0 <= p.y < GRID_HEIGHT
}

/// The cell one step from `p` in direction `d`.
pub open spec fn step(p: Position, d: Direction) -> Position {
    match d {
        Direction::Up => Position { x: p.x, y: (p.y - 1) as i32 },
        Direction::Down => Position { x: p.x, y: (p.y + 1) as i32 },
        Direction::Left => Position { x: (p.x - 1) as i32, y: p.y },
        Direction::Right => Position { x: (p.x + 1) as i32, y: p.y },
    }
}

/// A step from `p` in direction `d` stays within the range of `i32`.
pub open spec fn can_step(p: Position, d: Direction) -> bool {
    match d {
        Direction::Up => p.y > i32::MIN,
        Direction::Down => p.y < i32::MAX,
        Direction::Left => p.x > i32::MIN,
        Direction::Right => p.x < i32::MAX,
    }
}

/// The direction that points the other way.
pub open spec fn opposite(d: Direction) -> Direction {
    match d {
        Direction::Up => Direction::Down,
        Direction::Down => Direction::Up,
        Direction::Left => Direction::Right,
        Direction::Right => Direction::Left,
    }
}

/// Two cells share a side.
pub open spec fn adjacent(a: Position, b: Position) -> bool {
    ||| a.x == b.x && (a.y - b.y == 1 || b.y - a.y == 1)
    ||| a.y == b.y && (a.x - b.x == 1 || b.x - a.x == 1)
}

/// Every cell of the board, row by row from the top left.
pub open spec fn grid_cells() -> Seq<Position> {
    Seq::new(GRID_CELLS as nat, |i: int| Position { x: (i % 40) as i32, y: (i / 40) as i32 })
}

/// The cells of the board that `body` does not cover, in the order of `grid_cells`.
pub open spec fn free_cells_of(body: Seq<Position>) -> Seq<Position> {
    grid_cells().filter(|p: Position| !body.contains(p))
}

/// Some cell of the board is not covered by `body`.
pub open spec fn has_free_cell(body: Seq<Position>) -> bool {
    exists|p: Position| #[trigger] in_grid(p) && !body.contains(p)
}

impl Direction {
    /// The direction that points the other way.
    pub fn opposite(self) -> (r: Direction)
        ensures
            r == opposite(self),
    {
        match self {
            Direction::Up => Direction::Down,
            Direction::Down => Direction::Up,
            Direction::Left => Direction::Right,
            Direction::Right => Direction::Left,
        }
    }
}

impl Position {
    /// The cell lies on the board.
    pub fn in_grid(self) -> (r: bool)
        ensures
            r == in_grid(self),
    {
        0 <= self.x && self.x < GRID_WIDTH && 0 <= self.y && self.y < GRID_HEIGHT
    }

    /// The cell one step away in direction `d`; the coordinates must not overflow.
    pub fn step(self, d: Direction) -> (r: Position)
        requires
            can_step(self, d),
        ensures
            r == step(self, d),
    {
        match d {
            Direction::Up => Position { x: self.x, y: self.y - 1 },
            Direction::Down => Position { x: self.x, y: self.y + 1 },
            Direction::Left => Position { x: self.x - 1, y: self.y },
            Direction::Right => Position { x: self.x + 1, y: self.y },
        }
    }
}

/// Whether `body` covers the cell `p`.
pub fn covers(body: &Vec<Position>, p: Position) -> (r: bool)
    ensures
        r == body@.contains(p),
{
    let n: usize = body.len();
    for i in 0..n
        invariant
            n == body@.len(),
            forall|j: int| 0 <= j < i ==> body@[j] != p,
    {
        if body[i] == p {
            assert(body@[i as int] == p);
            return true;
        }
    }
    false
}

/// The cell with index `i` of `grid_cells` is the one in column `i % 40`, row `i / 40`.
proof fn lemma_cell_of_index(i: int)
    requires
        0 <= i < GRID_CELLS,
    ensures
        in_grid(grid_cells()[i]),
        grid_cells()[i].y * 40 + grid_cells()[i].x == i,
{
    assert(0 <= i % 40 < 40 && 0 <= i / 40 < 20 && (i / 40) * 40 + i % 40 == i) by (nonlinear_arith)
        requires
            0 <= i < 800,
    ;
}

/// A cell of the board has the index `y * 40 + x` in `grid_cells`.
pub proof fn lemma_index_of_cell(p: Position)
    requires
        in_grid(p),
    ensures
        0 <= p.y * 40 + p.x < GRID_CELLS,
        grid_cells()[p.y * 40 + p.x] == p,
        grid_cells().contains(p),
{
    let i: int = p.y * 40 + p.x;
    assert(0 <= i < 800 && i % 40 == p.x && i / 40 == p.y) by (nonlinear_arith)
        requires
            0 <= p.x < 40,
            0 <= p.y < 20,
            i == p.y * 40 + p.x,
    ;
    assert(grid_cells()[i] == p);
}

/// No cell appears twice in `grid_cells`, and the board has exactly `GRID_CELLS` cells.
pub proof fn lemma_grid_cells_count()
    ensures
        grid_cells().no_duplicates(),
        grid_cells().to_set().len() == GRID_CELLS,
        forall|p: Position| #[trigger] grid_cells().to_set().contains(p) <==> in_grid(p),
{
    assert forall|i: int, j: int|
        0 <= i < grid_cells().len() && 0 <= j < grid_cells().len() && i != j implies
        grid_cells()[i] != grid_cells()[j] by {
        lemma_cell_of_index(i);
        lemma_cell_of_index(j);
    }
    grid_cells().unique_seq_to_set();
    assert forall|p: Position| #[trigger] grid_cells().to_set().contains(p) <==> in_grid(p) by {
        if in_grid(p) {
            lemma_index_of_cell(p);
        }
        if grid_cells().to_set().contains(p) {
            let i = choose|i: int| 0 <= i < grid_cells().len() && grid_cells()[i] == p;
            lemma_cell_of_index(i);
        }
    }
}

/// A sequence of distinct cells of the board has at most `GRID_CELLS` elements.
pub proof fn lemma_distinct_cells_bound(s: Seq<Position>)
    requires
        s.no_duplicates(),
        forall|i: int| 0 <= i < s.len() ==> in_grid(#[trigger] s[i]),
    ensures
        s.len() <= GRID_CELLS,
{
    lemma_grid_cells_count();
    s.unique_seq_to_set();
    assert(s.to_set().subset_of(grid_cells().to_set())) by {
        assert forall|p: Position| #[trigger] s.to_set().contains(p) implies
            grid_cells().to_set().contains(p) by {
            let i = choose|i: int| 0 <= i < s.len() && s[i] == p;
            assert(in_grid(s[i]));
        }
    }
    vstd::set_lib::lemma_len_subset(s.to_set(), grid_cells().to_set());
}

/// A sequence with fewer than `GRID_CELLS` elements leaves some cell of the board uncovered.
pub proof fn lemma_short_body_leaves_free_cell(s: Seq<Position>)
    requires
        s.len() < GRID_CELLS,
    ensures
        has_free_cell(s),
{
    lemma_grid_cells_count();
    if !has_free_cell(s) {
        assert(grid_cells().to_set().subset_of(s.to_set())) by {
            assert forall|p: Position| #[trigger] grid_cells().to_set().contains(p) implies
                s.to_set().contains(p) by {
                assert(in_grid(p));
                assert(s.contains(p));
            }
        }
        vstd::set_lib::lemma_len_subset(grid_cells().to_set(), s.to_set());
        s.lemma_cardinality_of_set();
    }
}

/// A free cell of the board is found in `free_cells_of`.
pub proof fn lemma_free_cell_listed(body: Seq<Position>, p: Position)
    requires
        in_grid(p),
        !body.contains(p),
    ensures
        free_cells_of(body).contains(p),
{
    lemma_index_of_cell(p);
    grid_cells().lemma_filter_contains_rev(|q: Position| !body.contains(q), p);
}

/// Every cell listed by `free_cells_of` is on the board and not covered by `body`.
pub proof fn lemma_free_cells_free(body: Seq<Position>)
    ensures
        forall|i: int|
            0 <= i < free_cells_of(body).len() ==> in_grid(#[trigger] free_cells_of(body)[i])
                && !body.contains(free_cells_of(body)[i]),
{
    let pred = |q: Position| !body.contains(q);
    assert forall|i: int| 0 <= i < free_cells_of(body).len() implies in_grid(
        #[trigger] free_cells_of(body)[i],
    ) && !body.contains(free_cells_of(body)[i]) by {
        let q = free_cells_of(body)[i];
        grid_cells().lemma_filter_pred(pred, i);
        assert(grid_cells().filter(pred).contains(q));
        grid_cells().lemma_filter_contains_rev(pred, q);
        let j = choose|j: int| 0 <= j < grid_cells().len() && grid_cells()[j] == q;
        lemma_cell_of_index(j);
    }
}

} // verus!
