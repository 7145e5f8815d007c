//! The arena grid: cell positions, headings, and the random cell draw used
//! for food placement.

use vstd::prelude::*;
use vstd::set_lib::{lemma_int_range, lemma_len_subset, set_int_range};

verus! {

/// Width of the arena, in cells.
pub const ARENA_WIDTH: i32 = 12;

/// Height of the arena, in cells.
pub const ARENA_HEIGHT: i32 = 12;

/// One cell of the arena grid. A snake segment or a food item occupies
/// exactly one cell. The head may briefly hold an out-of-bounds position
/// during the frame in which the run ends.
#[derive(Clone, Copy, PartialEq, Eq, Structural, Debug, Hash)]
pub struct Position {
    pub x: i32,
    pub y: i32,
}

/// A position lies on the arena: `[0, ARENA_WIDTH) x [0, ARENA_HEIGHT)`.
pub open spec fn in_bounds(p: Position) -> bool {
    0 <= p.x < ARENA_WIDTH && 0 <= p.y < ARENA_HEIGHT
}

/// The heading of the snake's head.
#[derive(Clone, Copy, PartialEq, Eq, Structural, Debug)]
pub enum Direction {
    Left,
    Up,
    Right,
    Down,
}

impl Direction {
    /// The 180-degree reversal of a heading.
    pub open spec fn spec_opposite(self) -> Direction {
        match self {
            Direction::Left => Direction::Right,
            Direction::Right => Direction::Left,
            Direction::Up => Direction::Down,
            Direction::Down => Direction::Up,
        }
    }

    /// The 180-degree reversal of a heading.
    #[verifier::when_used_as_spec(spec_opposite)]
    pub fn opposite(self) -> (r: Direction)
        ensures
            r == self.spec_opposite(),
    {
        match self {
            Direction::Left => Direction::Right,
            Direction::Right => Direction::Left,
            Direction::Up => Direction::Down,
            Direction::Down => Direction::Up,
        }
    }
}

/// Reversing a heading twice yields the heading itself.
pub proof fn lemma_opposite_involutive(d: Direction)
    ensures
        d.spec_opposite().spec_opposite() == d,
{
}

/// The cell one step from `p` along `d`. Exact (no wrap-around) whenever
/// `p` is in bounds, which every caller guarantees.
pub open spec fn spec_step(p: Position, d: Direction) -> Position {
    match d {
        Direction::Left => Position { x: (p.x - 1) as i32, y: p.y },
        Direction::Right => Position { x: (p.x + 1) as i32, y: p.y },
        Direction::Up => Position { x: p.x, y: (p.y + 1) as i32 },
        Direction::Down => Position { x: p.x, y: (p.y - 1) as i32 },
    }
}

/// Advance a position one cell along a heading.
pub fn step(p: Position, d: Direction) -> (r: Position)
    requires
        in_bounds(p),
    ensures
        r == spec_step(p, d),
{
    match d {
        Direction::Left => Position { x: p.x - 1, y: p.y },
        Direction::Right => Position { x: p.x + 1, y: p.y },
        Direction::Up => Position { x: p.x, y: p.y + 1 },
        Direction::Down => Position { x: p.x, y: p.y - 1 },
    }
}

/// A cell's rank in column-major order over the arena.
pub open spec fn cell_index(p: Position) -> int {
    p.x * ARENA_HEIGHT + p.y
}

/// Two in-bounds cells with the same rank are the same cell.
proof fn lemma_cell_index_injective(a: Position, b: Position)
    requires
        in_bounds(a),
        in_bounds(b),
        cell_index(a) == cell_index(b),
    ensures
        a == b,
{
    assert(a.x == b.x && a.y == b.y) by (nonlinear_arith)
        requires
            0 <= a.y < ARENA_HEIGHT,
            0 <= b.y < ARENA_HEIGHT,
            a.x * ARENA_HEIGHT + a.y == b.x * ARENA_HEIGHT + b.y,
    {
    }
}

/// Pairwise-distinct in-bounds cells number at most the arena's area: the
/// snake can never outgrow the arena.
pub proof fn lemma_distinct_cells_fit_arena(s: Seq<Position>)
    requires
        s.no_duplicates(),
        forall|i: int| 0 <= i < s.len() ==> in_bounds(#[trigger] s[i]),
    ensures
        s.len() <= ARENA_WIDTH * ARENA_HEIGHT,
{
    let ranks = s.map_values(|p: Position| cell_index(p));
    let area = (ARENA_WIDTH * ARENA_HEIGHT) as int;
    assert(ranks.no_duplicates()) by {
        assert forall|i: int, j: int|
            0 <= i < ranks.len() && 0 <= j < ranks.len() && i != j implies ranks[i]
            != ranks[j] by {
            if cell_index(s[i]) == cell_index(s[j]) {
                lemma_cell_index_injective(s[i], s[j]);
            }
        };
    }
    ranks.unique_seq_to_set();
    assert(ranks.to_set().subset_of(set_int_range(0, area))) by {
        assert forall|e: int| ranks.to_set().contains(e) implies set_int_range(
            0,
            area,
        ).contains(e) by {
            let k = choose|k: int| 0 <= k < ranks.len() && ranks[k] == e;
            assert(in_bounds(s[k]));
            assert(0 <= cell_index(s[k]) < area) by (nonlinear_arith)
                requires
                    0 <= s[k].x < ARENA_WIDTH,
                    0 <= s[k].y < ARENA_HEIGHT,
                    cell_index(s[k]) == s[k].x * ARENA_HEIGHT + s[k].y,
                    area == ARENA_WIDTH * ARENA_HEIGHT,
            {
            }
        };
    }
    lemma_int_range(0, area);
    lemma_len_subset(ranks.to_set(), set_int_range(0, area));
}

/// Relies on `rand::random`: one draw from the thread-local generator.
/// The value depends on the generator's state, so nothing is promised of it.
#[verifier::external_body]
pub(crate) fn random_u32() -> u32 {
    rand::random::<u32>()
}

impl Position {
    /// A randomly drawn in-bounds cell.
    pub fn generate() -> (p: Position)
        ensures
            in_bounds(p),
    {
        let rx: u32 = random_u32();
        let ry: u32 = random_u32();
        Position { x: (rx % (ARENA_WIDTH as u32)) as i32, y: (ry % (ARENA_HEIGHT as u32)) as i32 }
    }
}

} // verus!
