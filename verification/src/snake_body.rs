//! The snake itself: an ordered sequence of grid cells, head first, together
//! with its direction of travel and the length it is growing toward.

use vstd::prelude::*;
use std::collections::VecDeque;
use crate::model::{
    Cell, Direction, all_in_bounds, contiguous, in_bounds, no_duplicates, orthogonally_adjacent,
};

verus! {

/// Abstract value of a [`Snake`].
pub struct SnakeView {
    /// The body cells, head first, tail last.
    pub body: Seq<Cell>,
    /// The current direction of travel.
    pub direction: Direction,
    /// The length the body grows toward; eating a cookie raises it by one.
    pub target_length: usize,
}

/// The snake: body cells head first, direction of travel, and the length the
/// body is growing toward.
pub struct Snake {
    pub(crate) body: VecDeque<Cell>,
    pub(crate) direction: Direction,
    pub(crate) target_length: usize,
}

impl View for Snake {
    type V = SnakeView;

    open(crate) spec fn view(&self) -> SnakeView {
        SnakeView { body: self.body@, direction: self.direction, target_length: self.target_length }
    }
}

/// The snake's internal invariant on a grid of `rows` by `cols` cells: the
/// body is non-empty, never longer than the target length, holds no cell
/// twice, and stays on the grid.
pub open spec fn snake_wf(s: SnakeView, rows: usize, cols: usize) -> bool {
    &&& s.body.len() >= 1
    &&& s.body.len() <= s.target_length
    &&& no_duplicates(s.body)
    &&& all_in_bounds(s.body, rows, cols)
}

/// The fixed snake every game starts from: five cells anchored at head
/// (10, 12), trailing leftward, moving right.
pub open spec fn initial_snake_view() -> SnakeView {
    SnakeView {
        body: seq![
            Cell { row: 10, col: 12 },
            Cell { row: 10, col: 11 },
            Cell { row: 10, col: 10 },
            Cell { row: 10, col: 9 },
            Cell { row: 10, col: 8 },
        ],
        direction: Direction::Right,
        target_length: 5,
    }
}

/// The initial snake satisfies the snake invariant on any grid of at least
/// 11 rows and 13 columns, is contiguous, and touches only cells of row 10.
pub proof fn lemma_initial_snake_wf(rows: usize, cols: usize)
    requires
        rows >= 11,
        cols >= 13,
    ensures
        snake_wf(initial_snake_view(), rows, cols),
        contiguous(initial_snake_view().body),
        forall|c: Cell| c.row != 10 ==> !(#[trigger] initial_snake_view().body.contains(c)),
{
    let b = initial_snake_view().body;
    assert(b.len() == 5);
    assert(no_duplicates(b)) by {
        assert forall|i: int, j: int| 0 <= i < j < b.len() implies b[i] != b[j] by {
            assert(b[i].col == 12 - i);
            assert(b[j].col == 12 - j);
        }
    }
    assert(all_in_bounds(b, rows, cols)) by {
        assert forall|i: int| 0 <= i < b.len() implies in_bounds(#[trigger] b[i], rows, cols) by {
            assert(b[i].row == 10);
            assert(b[i].col == 12 - i);
        }
    }
    assert(contiguous(b)) by {
        assert forall|i: int| 0 <= i && i + 1 < b.len() implies orthogonally_adjacent(
            #[trigger] b[i],
            b[i + 1],
        ) by {
            assert(b[i].row == 10 && b[i + 1].row == 10);
            assert(b[i].col == 12 - i);
            assert(b[i + 1].col == 12 - (i + 1));
        }
    }
    assert forall|c: Cell| c.row != 10 implies !(#[trigger] b.contains(c)) by {
        if b.contains(c) {
            let i = choose|i: int| 0 <= i < b.len() && b[i] == c;
            assert(b[i].row == 10);
        }
    }
}

impl Snake {
    /// A fresh snake in its fixed starting configuration.
    pub fn new() -> (s: Snake)
        ensures
            s@ == initial_snake_view(),
    {
        let mut body: VecDeque<Cell> = VecDeque::new();
        body.push_front(Cell { row: 10, col: 8 });
        body.push_front(Cell { row: 10, col: 9 });
        body.push_front(Cell { row: 10, col: 10 });
        body.push_front(Cell { row: 10, col: 11 });
        body.push_front(Cell { row: 10, col: 12 });
        let s = Snake { body, direction: Direction::Right, target_length: 5 };
        proof {
            assert(s@.body =~= initial_snake_view().body);
        }
        s
    }

    /// Number of body cells.
    pub fn len(&self) -> (r: usize)
        ensures
            r == self@.body.len(),
    {
        self.body.len()
    }

    /// The `i`-th body cell, head first.
    pub fn cell_at(&self, i: usize) -> (r: Cell)
        requires
            i < self@.body.len(),
        ensures
            r == self@.body[i as int],
    {
        self.body[i]
    }

    /// The current direction of travel.
    pub fn direction_of_travel(&self) -> (r: Direction)
        ensures
            r == self@.direction,
    {
        self.direction
    }

    /// The length the body grows toward.
    pub fn growth_target(&self) -> (r: usize)
        ensures
            r == self@.target_length,
    {
        self.target_length
    }

    /// Whether some body cell equals `c`.
    pub fn contains_cell(&self, c: Cell) -> (r: bool)
        ensures
            r == self@.body.contains(c),
    {
        let mut i: usize = 0;
        while i < self.body.len()
            invariant
                i <= self.body@.len(),
                forall|k: int| 0 <= k < i ==> self.body@[k] != c,
            decreases self.body@.len() - i,
        {
            if self.body[i] == c {
                assert(self.body@[i as int] == c);
                return true;
            }
            i += 1;
        }
        false
    }
}

} // verus!
