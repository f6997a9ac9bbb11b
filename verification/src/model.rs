//! The basic vocabulary of the game: grid cells, directions of travel, game
//! status, tick outcomes, and the spec-level geometry they obey.

use vstd::prelude::*;

verus! {

/// One grid cell, addressed by row (vertical, growing downward) and column
/// (horizontal, growing rightward).
#[derive(Clone, Copy, PartialEq, Eq, Structural, Debug)]
pub struct Cell {
    pub row: usize,
    pub col: usize,
}

/// A direction of travel on the grid.
#[derive(Clone, Copy, PartialEq, Eq, Structural, Debug)]
pub enum Direction {
    Up,
    Down,
    Left,
    Right,
}

/// Whether a game is waiting for a start signal or running.
#[derive(Clone, Copy, PartialEq, Eq, Structural, Debug)]
pub enum GameStatus {
    NotStarted,
    Running,
}

/// The outcome of advancing the snake by one step.
#[derive(Clone, Copy, PartialEq, Eq, Structural, Debug)]
pub enum Outcome {
    Continued,
    Collided,
}

impl Direction {
    /// The direction that points the opposite way.
    pub open spec fn spec_reverse(self) -> Direction {
        match self {
            Direction::Up => Direction::Down,
            Direction::Down => Direction::Up,
            Direction::Left => Direction::Right,
            Direction::Right => Direction::Left,
        }
    }

    /// The direction that points the opposite way.
    #[verifier::when_used_as_spec(spec_reverse)]
    pub fn reverse(self) -> (r: Direction)
        ensures
            r == self.spec_reverse(),
    {
        match self {
            Direction::Up => Direction::Down,
            Direction::Down => Direction::Up,
            Direction::Left => Direction::Right,
            Direction::Right => Direction::Left,
        }
    }
}

/// A cell lies on a grid of `rows` by `cols` cells.
pub open spec fn in_bounds(c: Cell, rows: usize, cols: usize) -> bool {
    c.row < rows && c.col < cols
}

/// Every cell of `body` lies on the grid.
pub open spec fn all_in_bounds(body: Seq<Cell>, rows: usize, cols: usize) -> bool {
    forall|i: int| 0 <= i < body.len() ==> in_bounds(#[trigger] body[i], rows, cols)
}

/// No cell occurs twice in `body`.
pub open spec fn no_duplicates(body: Seq<Cell>) -> bool {
    forall|i: int, j: int| 0 <= i < j < body.len() ==> body[i] != body[j]
}

/// Two cells share an edge on the grid.
pub open spec fn orthogonally_adjacent(a: Cell, b: Cell) -> bool {
    ||| (a.row == b.row && (a.col + 1 == b.col || b.col + 1 == a.col))
    ||| (a.col == b.col && (a.row + 1 == b.row || b.row + 1 == a.row))
}

/// Consecutive cells of `body` are orthogonally adjacent.
pub open spec fn contiguous(body: Seq<Cell>) -> bool {
    forall|i: int| 0 <= i && i + 1 < body.len() ==> orthogonally_adjacent(
        #[trigger] body[i],
        body[i + 1],
    )
}

/// The cell one step from `head` in direction `d`, or `None` when that step
/// leaves the grid (the edge policy: no wraparound).
pub open spec fn spec_next_cell(head: Cell, d: Direction, rows: usize, cols: usize) -> Option<
    Cell,
> {
    match d {
        Direction::Up => if head.row == 0 {
            Option::None
        } else {
            Option::Some(Cell { row: (head.row - 1) as usize, col: head.col })
        },
        Direction::Down => if head.row + 1 < rows {
            Option::Some(Cell { row: (head.row + 1) as usize, col: head.col })
        } else {
            Option::None
        },
        Direction::Left => if head.col == 0 {
            Option::None
        } else {
            Option::Some(Cell { row: head.row, col: (head.col - 1) as usize })
        },
        Direction::Right => if head.col + 1 < cols {
            Option::Some(Cell { row: head.row, col: (head.col + 1) as usize })
        } else {
            Option::None
        },
    }
}

/// Compute the next head cell in direction `d`, or `None` at the grid edge.
pub fn next_cell(head: Cell, d: Direction, rows: usize, cols: usize) -> (r: Option<Cell>)
    requires
        in_bounds(head, rows, cols),
    ensures
        r == spec_next_cell(head, d, rows, cols),
        r is Some ==> in_bounds(r.unwrap(), rows, cols),
        r is Some ==> orthogonally_adjacent(head, r.unwrap()),
{
    match d {
        Direction::Up => if head.row == 0 {
            Option::None
        } else {
            Option::Some(Cell { row: head.row - 1, col: head.col })
        },
        Direction::Down => if head.row + 1 < rows {
            Option::Some(Cell { row: head.row + 1, col: head.col })
        } else {
            Option::None
        },
        Direction::Left => if head.col == 0 {
            Option::None
        } else {
            Option::Some(Cell { row: head.row, col: head.col - 1 })
        },
        Direction::Right => if head.col + 1 < cols {
            Option::Some(Cell { row: head.row, col: head.col + 1 })
        } else {
            Option::None
        },
    }
}

/// How a frame's key states resolve to at most one requested direction:
/// up wins over left, left over down, down over right.
pub open spec fn spec_direction_from_keys(up: bool, left: bool, down: bool, right: bool) -> Option<
    Direction,
> {
    if up {
        Option::Some(Direction::Up)
    } else if left {
        Option::Some(Direction::Left)
    } else if down {
        Option::Some(Direction::Down)
    } else if right {
        Option::Some(Direction::Right)
    } else {
        Option::None
    }
}

/// Resolve the direction keys currently down to at most one requested
/// direction, with a fixed priority order.
pub fn direction_from_keys(up: bool, left: bool, down: bool, right: bool) -> (r: Option<Direction>)
    ensures
        r == spec_direction_from_keys(up, left, down, right),
{
    if up {
        Option::Some(Direction::Up)
    } else if left {
        Option::Some(Direction::Left)
    } else if down {
        Option::Some(Direction::Down)
    } else if right {
        Option::Some(Direction::Right)
    } else {
        Option::None
    }
}

} // verus!
