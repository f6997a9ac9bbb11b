//! The authoritative simulation state and its transformations: direction
//! arbitration, advancing the snake, cookie growth and respawn, and the
//! start/restart state machine.

use vstd::prelude::*;
use std::collections::VecDeque;
use crate::model::{
    Cell, Direction, GameStatus, Outcome, all_in_bounds, contiguous, in_bounds, next_cell,
    no_duplicates, orthogonally_adjacent, spec_next_cell,
};
use crate::snake_body::{Snake, SnakeView, initial_snake_view, lemma_initial_snake_wf, snake_wf};
use crate::rng::rand_below;

verus! {

/// Abstract value of a [`GridState`].
pub struct GridView {
    /// Number of cell rows on the grid.
    pub rows: usize,
    /// Number of cell columns on the grid.
    pub cols: usize,
    /// Edge length, in pixels, of one square cell.
    pub cell_size: usize,
    /// The snake.
    pub snake: SnakeView,
    /// The cookie cell.
    pub cookie: Cell,
    /// Whether the game is waiting for a start signal or running.
    pub status: GameStatus,
}

/// The dimensions are sane: cells have positive size, the grid is large
/// enough to hold the fixed starting configuration, and the pixel buffer
/// length fits a `usize`.
pub open spec fn grid_dims_wf(v: GridView) -> bool {
    &&& v.cell_size >= 1
    &&& v.rows >= 11
    &&& v.cols >= 13
    &&& v.rows * v.cell_size * v.cols * v.cell_size <= usize::MAX
}

/// The invariant every reachable state satisfies: sane dimensions, a
/// well-formed snake (non-empty, within target length, no duplicate cell,
/// every cell on the grid), and a cookie on the grid.
pub open spec fn grid_wf(v: GridView) -> bool {
    &&& grid_dims_wf(v)
    &&& snake_wf(v.snake, v.rows, v.cols)
    &&& in_bounds(v.cookie, v.rows, v.cols)
}

/// The cookie does not lie on the snake.
pub open spec fn cookie_free(v: GridView) -> bool {
    !v.snake.body.contains(v.cookie)
}

/// Every cell of the grid is occupied by the snake.
pub open spec fn saturated(v: GridView) -> bool {
    forall|c: Cell| in_bounds(c, v.rows, v.cols) ==> #[trigger] v.snake.body.contains(c)
}

/// The snake's head cell.
pub open spec fn head(v: GridView) -> Cell {
    v.snake.body[0]
}

/// Advancing from `v` collides: the next head cell leaves the grid or is
/// already occupied by the body.
pub open spec fn spec_collides(v: GridView) -> bool {
    match spec_next_cell(head(v), v.snake.direction, v.rows, v.cols) {
        Option::None => true,
        Option::Some(c) => v.snake.body.contains(c),
    }
}

/// The body after a non-colliding advance: the new head is pushed in front,
/// and the tail is dropped unless the snake is still growing toward
/// `target_length`.
pub open spec fn spec_advance_body(body: Seq<Cell>, nh: Cell, target_length: usize) -> Seq<Cell> {
    let grown = seq![nh] + body;
    if grown.len() > target_length {
        grown.drop_last()
    } else {
        grown
    }
}

/// The authoritative simulation state: grid dimensions, the snake, the
/// cookie, and the start/run status.
pub struct GridState {
    rows: usize,
    cols: usize,
    cell_size: usize,
    snake: Snake,
    cookie: Cell,
    status: GameStatus,
}

impl View for GridState {
    type V = GridView;

    closed spec fn view(&self) -> GridView {
        GridView {
            rows: self.rows,
            cols: self.cols,
            cell_size: self.cell_size,
            snake: self.snake@,
            cookie: self.cookie,
            status: self.status,
        }
    }
}

impl GridState {
    /// A fresh game on a surface of `width` by `height` pixels partitioned
    /// into square cells of edge `cell_size`: the fixed starting snake, the
    /// fixed starting cookie, status `NotStarted`.
    pub fn new(width: usize, height: usize, cell_size: usize) -> (g: GridState)
        requires
            cell_size >= 1,
            height / cell_size >= 11,
            width / cell_size >= 13,
            (height / cell_size) * cell_size * ((width / cell_size) * cell_size) <= usize::MAX,
        ensures
            g@.rows == height / cell_size,
            g@.cols == width / cell_size,
            g@.cell_size == cell_size,
            g@.snake == initial_snake_view(),
            g@.cookie == (Cell { row: 8, col: 9 }),
            g@.status == GameStatus::NotStarted,
            grid_wf(g@),
            cookie_free(g@),
            contiguous(g@.snake.body),
    {
        let rows = height / cell_size;
        let cols = width / cell_size;
        let g = GridState {
            rows,
            cols,
            cell_size,
            snake: Snake::new(),
            cookie: Cell { row: 8, col: 9 },
            status: GameStatus::NotStarted,
        };
        proof {
            lemma_initial_snake_wf(rows, cols);
            assert(rows * cell_size * cols * cell_size == (rows * cell_size) * ((cols
                * cell_size))) by (nonlinear_arith);
            assert(!g@.snake.body.contains(g@.cookie));
        }
        g
    }

    /// Request a direction change. A request for the direct reverse of the
    /// current direction of travel is ignored; any other request wins.
    pub fn set_direction(&mut self, requested: Direction)
        requires
            grid_wf(old(self)@),
        ensures
            grid_wf(final(self)@),
            final(self)@.snake.direction == (if requested
                == old(self)@.snake.direction.spec_reverse() {
                old(self)@.snake.direction
            } else {
                requested
            }),
            final(self)@ == (GridView {
                snake: SnakeView {
                    direction: final(self)@.snake.direction,
                    ..old(self)@.snake
                },
                ..old(self)@
            }),
    {
        if !(requested == self.snake.direction.reverse()) {
            self.snake.direction = requested;
        }
    }

    /// Enter the running state; everything else is untouched.
    pub fn start(&mut self)
        requires
            grid_wf(old(self)@),
        ensures
            grid_wf(final(self)@),
            final(self)@ == (GridView { status: GameStatus::Running, ..old(self)@ }),
    {
        self.status = GameStatus::Running;
    }

    /// Number of cell rows.
    pub fn rows(&self) -> (r: usize)
        ensures
            r == self@.rows,
    {
        self.rows
    }

    /// Number of cell columns.
    pub fn cols(&self) -> (r: usize)
        ensures
            r == self@.cols,
    {
        self.cols
    }

    /// Edge length of one cell in pixels.
    pub fn cell_size(&self) -> (r: usize)
        ensures
            r == self@.cell_size,
    {
        self.cell_size
    }

    /// The current status.
    pub fn status(&self) -> (r: GameStatus)
        ensures
            r == self@.status,
    {
        self.status
    }

    /// The current direction of travel.
    pub fn direction(&self) -> (r: Direction)
        ensures
            r == self@.snake.direction,
    {
        self.snake.direction
    }

    /// The length the snake is growing toward.
    pub fn target_length(&self) -> (r: usize)
        ensures
            r == self@.snake.target_length,
    {
        self.snake.target_length
    }

    /// The cookie cell.
    pub fn cookie(&self) -> (r: Cell)
        ensures
            r == self@.cookie,
    {
        self.cookie
    }

    /// Number of cells in the snake's body.
    pub fn body_len(&self) -> (r: usize)
        ensures
            r == self@.snake.body.len(),
    {
        self.snake.body.len()
    }

    /// The `i`-th body cell, head first.
    pub fn body_cell(&self, i: usize) -> (r: Cell)
        requires
            i < self@.snake.body.len(),
        ensures
            r == self@.snake.body[i as int],
    {
        self.snake.body[i]
    }

    /// The snake's head cell.
    pub fn head_cell(&self) -> (r: Cell)
        requires
            self@.snake.body.len() >= 1,
        ensures
            r == head(self@),
    {
        self.snake.body[0]
    }

    /// Whether some body cell equals `c`.
    pub fn body_contains(&self, c: Cell) -> (r: bool)
        ensures
            r == self@.snake.body.contains(c),
    {
        self.snake.contains_cell(c)
    }

    /// Move the snake one step in its current direction. Stepping off the
    /// grid or onto a cell the body occupies is a terminal collision and
    /// leaves the state untouched; otherwise the new head is pushed in front
    /// and the tail is dropped unless the snake is still growing.
    pub fn advance(&mut self) -> (o: Outcome)
        requires
            grid_wf(old(self)@),
        ensures
            grid_wf(final(self)@),
            (o == Outcome::Collided) == spec_collides(old(self)@),
            spec_collides(old(self)@) ==> final(self)@ == old(self)@,
            !spec_collides(old(self)@) ==> {
                let nh = spec_next_cell(
                    head(old(self)@),
                    old(self)@.snake.direction,
                    old(self)@.rows,
                    old(self)@.cols,
                ).unwrap();
                final(self)@ == (GridView {
                    snake: SnakeView {
                        body: spec_advance_body(
                            old(self)@.snake.body,
                            nh,
                            old(self)@.snake.target_length,
                        ),
                        ..old(self)@.snake
                    },
                    ..old(self)@
                })
            },
            !spec_collides(old(self)@) ==> final(self)@.snake.body.len() == (
            if old(self)@.snake.body.len() + 1 > old(self)@.snake.target_length {
                old(self)@.snake.target_length as int
            } else {
                old(self)@.snake.body.len() + 1 as int
            }),
            contiguous(old(self)@.snake.body) ==> contiguous(final(self)@.snake.body),
            cookie_free(old(self)@) ==> cookie_free(final(self)@) || head(final(self)@)
                == final(self)@.cookie,
    {
        let hd = self.snake.body[0];
        let nh_opt = next_cell(hd, self.snake.direction, self.rows, self.cols);
        match nh_opt {
            Option::None => Outcome::Collided,
            Option::Some(nh) => {
                if self.snake.contains_cell(nh) {
                    Outcome::Collided
                } else {
                    let ghost old_body = self.snake.body@;
                    let ghost target = self.snake.target_length;
                    self.snake.body.push_front(nh);
                    if self.snake.body.len() > self.snake.target_length {
                        let _tail = self.snake.body.pop_back();
                    }
                    proof {
                        assert(self@.snake.body == spec_advance_body(old_body, nh, target));
                        lemma_advance_body_wf(
                            old_body,
                            nh,
                            target,
                            old(self)@.rows,
                            old(self)@.cols,
                        );
                        if cookie_free(old(self)@) && self@.cookie != nh {
                            assert(!self@.snake.body.contains(self@.cookie)) by {
                                if self@.snake.body.contains(self@.cookie) {
                                    let i = choose|i: int|
                                        0 <= i < self@.snake.body.len() && self@.snake.body[i]
                                            == self@.cookie;
                                    if i == 0 {
                                        assert(self@.snake.body[0] == nh);
                                    } else {
                                        assert(self@.snake.body[i] == old_body[i - 1]);
                                        assert(old_body.contains(self@.cookie));
                                    }
                                }
                            }
                        }
                    }
                    Outcome::Continued
                }
            }
        }
    }

    /// Find a cell the snake does not occupy: up to 100 uniformly random
    /// tries, then a deterministic row-major scan of the whole grid. `None`
    /// only when every cell of the grid is occupied.
    #[verifier::loop_isolation(false)]
    pub fn pick_free_cell(&self) -> (r: Option<Cell>)
        requires
            grid_wf(self@),
        ensures
            match r {
                Option::Some(c) => in_bounds(c, self@.rows, self@.cols)
                    && !self@.snake.body.contains(c),
                Option::None => saturated(self@),
            },
    {
        let mut attempts: usize = 0;
        while attempts < 100
            invariant
                attempts <= 100,
            decreases 100 - attempts,
        {
            let cand = Cell { row: rand_below(self.rows), col: rand_below(self.cols) };
            if !self.snake.contains_cell(cand) {
                return Option::Some(cand);
            }
            attempts += 1;
        }
        let mut row: usize = 0;
        while row < self.rows
            invariant
                row <= self@.rows,
                forall|a: usize, b: usize|
                    a < row && b < self@.cols ==> #[trigger] self@.snake.body.contains(
                        Cell { row: a, col: b },
                    ),
            decreases self@.rows - row,
        {
            let mut col: usize = 0;
            while col < self.cols
                invariant
                    col <= self@.cols,
                    forall|a: usize, b: usize|
                        a < row && b < self@.cols ==> #[trigger] self@.snake.body.contains(
                            Cell { row: a, col: b },
                        ),
                    forall|b: usize|
                        b < col ==> #[trigger] self@.snake.body.contains(Cell { row: row, col: b }),
                decreases self@.cols - col,
            {
                let cand = Cell { row, col };
                if !self.snake.contains_cell(cand) {
                    return Option::Some(cand);
                }
                col += 1;
            }
            row += 1;
        }
        proof {
            assert forall|c: Cell| in_bounds(c, self@.rows, self@.cols)
                implies #[trigger] self@.snake.body.contains(c) by {
                assert(self@.snake.body.contains(Cell { row: c.row, col: c.col }));
            }
        }
        Option::None
    }

    /// Replace the cookie by a cell the snake does not occupy, chosen by
    /// bounded random resampling with a deterministic fallback scan. Only on
    /// a fully occupied grid the cookie stays where it was.
    pub fn respawn_cookie(&mut self)
        requires
            grid_wf(old(self)@),
        ensures
            grid_wf(final(self)@),
            final(self)@ == (GridView { cookie: final(self)@.cookie, ..old(self)@ }),
            !saturated(old(self)@) ==> cookie_free(final(self)@),
            saturated(old(self)@) ==> final(self)@ == old(self)@,
    {
        match self.pick_free_cell() {
            Option::Some(c) => {
                self.cookie = c;
            },
            Option::None => {},
        }
    }

    /// After an advance: if the head has landed on the cookie, raise the
    /// target length by one and respawn the cookie off the snake.
    pub fn check_cookie(&mut self)
        requires
            grid_wf(old(self)@),
            old(self)@.snake.target_length < usize::MAX,
        ensures
            grid_wf(final(self)@),
            head(old(self)@) != old(self)@.cookie ==> final(self)@ == old(self)@,
            head(old(self)@) == old(self)@.cookie ==> {
                &&& final(self)@ == (GridView {
                    snake: SnakeView {
                        target_length: (old(self)@.snake.target_length + 1) as usize,
                        ..old(self)@.snake
                    },
                    cookie: final(self)@.cookie,
                    ..old(self)@
                })
                &&& (!saturated(old(self)@) ==> cookie_free(final(self)@))
                &&& (saturated(old(self)@) ==> final(self)@.cookie == old(self)@.cookie)
            },
            cookie_free(old(self)@) || head(old(self)@) == old(self)@.cookie ==> cookie_free(
                final(self)@,
            ) || saturated(final(self)@),
    {
        let hd = self.snake.body[0];
        if hd == self.cookie {
            self.snake.target_length = self.snake.target_length + 1;
            self.respawn_cookie();
        }
    }

    /// Reinitialize the snake to its fixed starting configuration and the
    /// status to `NotStarted`. The cookie is kept, unless the fresh snake
    /// occupies it, in which case it is respawned.
    pub fn reset(&mut self)
        requires
            grid_wf(old(self)@),
        ensures
            grid_wf(final(self)@),
            final(self)@.snake == initial_snake_view(),
            final(self)@.status == GameStatus::NotStarted,
            final(self)@.rows == old(self)@.rows,
            final(self)@.cols == old(self)@.cols,
            final(self)@.cell_size == old(self)@.cell_size,
            cookie_free(final(self)@),
            contiguous(final(self)@.snake.body),
            !initial_snake_view().body.contains(old(self)@.cookie) ==> final(self)@.cookie == old(
                self,
            )@.cookie,
    {
        self.snake = Snake::new();
        self.status = GameStatus::NotStarted;
        proof {
            lemma_initial_snake_wf(self.rows, self.cols);
        }
        if self.snake.contains_cell(self.cookie) {
            proof {
                let witness = Cell { row: 0, col: 0 };
                assert(in_bounds(witness, self@.rows, self@.cols));
                assert(!self@.snake.body.contains(witness));
                assert(!saturated(self@));
            }
            self.respawn_cookie();
        }
    }

    /// One simulation tick of a running game: advance the snake; on a
    /// terminal collision reset for the next game, otherwise check the
    /// cookie and grow.
    pub fn tick(&mut self) -> (o: Outcome)
        requires
            grid_wf(old(self)@),
            old(self)@.status == GameStatus::Running,
            old(self)@.snake.target_length < usize::MAX,
        ensures
            grid_wf(final(self)@),
            final(self)@.rows == old(self)@.rows,
            final(self)@.cols == old(self)@.cols,
            final(self)@.cell_size == old(self)@.cell_size,
            (o == Outcome::Collided) == spec_collides(old(self)@),
            spec_collides(old(self)@) ==> {
                &&& final(self)@.snake == initial_snake_view()
                &&& final(self)@.status == GameStatus::NotStarted
                &&& cookie_free(final(self)@)
                &&& (!initial_snake_view().body.contains(old(self)@.cookie) ==> final(self)@.cookie
                    == old(self)@.cookie)
            },
            !spec_collides(old(self)@) ==> {
                let nh = spec_next_cell(
                    head(old(self)@),
                    old(self)@.snake.direction,
                    old(self)@.rows,
                    old(self)@.cols,
                ).unwrap();
                &&& final(self)@.status == GameStatus::Running
                &&& final(self)@.snake.direction == old(self)@.snake.direction
                &&& final(self)@.snake.body == spec_advance_body(
                    old(self)@.snake.body,
                    nh,
                    old(self)@.snake.target_length,
                )
                &&& (nh == old(self)@.cookie ==> final(self)@.snake.target_length == old(
                    self,
                )@.snake.target_length + 1)
                &&& (nh != old(self)@.cookie ==> final(self)@.snake.target_length == old(
                    self,
                )@.snake.target_length && final(self)@.cookie == old(self)@.cookie)
                &&& (cookie_free(old(self)@) ==> cookie_free(final(self)@) || saturated(
                    final(self)@,
                ))
                &&& (contiguous(old(self)@.snake.body) ==> contiguous(final(self)@.snake.body))
            },
    {
        match self.advance() {
            Outcome::Collided => {
                self.reset();
                Outcome::Collided
            },
            Outcome::Continued => {
                self.check_cookie();
                Outcome::Continued
            },
        }
    }
}

/// The view assembled from the raw parts of a game state, with the grid
/// dimensions derived from a pixel surface of `width` by `height` cut into
/// cells of edge `cell_size`.
pub open spec fn assembled_view(
    width: usize,
    height: usize,
    cell_size: usize,
    body: Seq<Cell>,
    direction: Direction,
    target_length: usize,
    cookie: Cell,
    status: GameStatus,
) -> GridView {
    GridView {
        rows: (height / cell_size) as usize,
        cols: (width / cell_size) as usize,
        cell_size: cell_size,
        snake: SnakeView { body, direction, target_length },
        cookie,
        status,
    }
}

impl GridState {
    /// Assemble a game state from raw parts, validating every invariant:
    /// `Some` exactly when the parts form a well-formed state whose cookie
    /// is off the snake.
    #[verifier::loop_isolation(false)]
    pub fn from_parts(
        width: usize,
        height: usize,
        cell_size: usize,
        body: Vec<Cell>,
        direction: Direction,
        target_length: usize,
        cookie: Cell,
        status: GameStatus,
    ) -> (r: Option<GridState>)
        ensures
            ({
                let v = assembled_view(
                    width,
                    height,
                    cell_size,
                    body@,
                    direction,
                    target_length,
                    cookie,
                    status,
                );
                &&& (r is Some) == (grid_wf(v) && cookie_free(v))
                &&& (r is Some ==> r.unwrap()@ == v)
            }),
    {
        if cell_size == 0 {
            return Option::None;
        }
        let rows = height / cell_size;
        let cols = width / cell_size;
        if rows < 11 || cols < 13 {
            return Option::None;
        }
        let rp = match rows.checked_mul(cell_size) {
            Option::Some(x) => x,
            Option::None => {
                proof {
                    assert(rows * cell_size * cols * cell_size > usize::MAX) by (nonlinear_arith)
                        requires
                            rows * cell_size > usize::MAX,
                            cols >= 13,
                            cell_size >= 1,
                    ;
                }
                return Option::None;
            },
        };
        let rpc = match rp.checked_mul(cols) {
            Option::Some(x) => x,
            Option::None => {
                proof {
                    assert(rp * cols * cell_size > usize::MAX) by (nonlinear_arith)
                        requires
                            rp * cols > usize::MAX,
                            cell_size >= 1,
                    ;
                }
                return Option::None;
            },
        };
        if let Option::None = rpc.checked_mul(cell_size) {
            return Option::None;
        }
        if body.len() == 0 || body.len() > target_length {
            return Option::None;
        }
        let mut i: usize = 0;
        while i < body.len()
            invariant
                i <= body@.len(),
                forall|k: int| 0 <= k < i ==> in_bounds(#[trigger] body@[k], rows, cols),
            decreases body@.len() - i,
        {
            if body[i].row >= rows || body[i].col >= cols {
                proof {
                    assert(!in_bounds(body@[i as int], rows, cols));
                    assert(!all_in_bounds(body@, rows, cols));
                }
                return Option::None;
            }
            i += 1;
        }
        let mut p: usize = 0;
        while p < body.len()
            invariant
                p <= body@.len(),
                forall|a: int, b: int| 0 <= a < b < body@.len() && a < p ==> body@[a] != body@[b],
            decreases body@.len() - p,
        {
            let mut q: usize = p + 1;
            while q < body.len()
                invariant
                    p < q,
                    q <= body@.len(),
                    forall|b: int| p < b < q ==> body@[p as int] != body@[b],
                decreases body@.len() - q,
            {
                if body[p] == body[q] {
                    proof {
                        assert(body@[p as int] == body@[q as int]);
                        assert(!no_duplicates(body@));
                    }
                    return Option::None;
                }
                q += 1;
            }
            p += 1;
        }
        if cookie.row >= rows || cookie.col >= cols {
            return Option::None;
        }
        let mut k: usize = 0;
        while k < body.len()
            invariant
                k <= body@.len(),
                forall|j: int| 0 <= j < k ==> body@[j] != cookie,
            decreases body@.len() - k,
        {
            if body[k] == cookie {
                proof {
                    assert(body@.contains(cookie));
                }
                return Option::None;
            }
            k += 1;
        }
        let mut dq: VecDeque<Cell> = VecDeque::new();
        let mut n: usize = 0;
        while n < body.len()
            invariant
                n <= body@.len(),
                dq@ == body@.subrange(0, n as int),
            decreases body@.len() - n,
        {
            dq.push_back(body[n]);
            proof {
                assert(dq@ =~= body@.subrange(0, n + 1));
            }
            n += 1;
        }
        proof {
            assert(dq@ =~= body@);
        }
        let g = GridState {
            rows,
            cols,
            cell_size,
            snake: Snake { body: dq, direction, target_length },
            cookie,
            status,
        };
        Option::Some(g)
    }
}

/// Growth law: when the body is within one cell of the target length — as it
/// is right after eating a cookie raises the target one past a fully grown
/// body — a single non-colliding advance brings the body exactly to the
/// target length.
pub proof fn lemma_growth_reaches_target(body: Seq<Cell>, nh: Cell, target_length: usize)
    requires
        body.len() <= target_length,
        body.len() + 1 >= target_length,
    ensures
        spec_advance_body(body, nh, target_length).len() == target_length,
{
}

/// A non-colliding advance preserves the snake's well-formedness and its
/// contiguity.
proof fn lemma_advance_body_wf(body: Seq<Cell>, nh: Cell, target_length: usize, rows: usize, cols: usize)
    requires
        body.len() >= 1,
        body.len() <= target_length,
        no_duplicates(body),
        all_in_bounds(body, rows, cols),
        in_bounds(nh, rows, cols),
        !body.contains(nh),
        orthogonally_adjacent(body[0], nh),
    ensures
        ({
            let nb = spec_advance_body(body, nh, target_length);
            &&& nb.len() >= 1
            &&& nb.len() <= target_length
            &&& nb.len() == (if body.len() + 1 > target_length {
                target_length as int
            } else {
                body.len() + 1 as int
            })
            &&& nb[0] == nh
            &&& no_duplicates(nb)
            &&& all_in_bounds(nb, rows, cols)
            &&& (contiguous(body) ==> contiguous(nb))
        }),
{
    let grown = seq![nh] + body;
    assert forall|k: int| 0 <= k < body.len() implies body[k] != nh by {
        if body[k] == nh {
            assert(body.contains(nh));
        }
    }
    assert(no_duplicates(grown)) by {
        assert forall|i: int, j: int| 0 <= i < j < grown.len() implies grown[i] != grown[j] by {
            if i == 0 {
                assert(grown[j] == body[j - 1]);
            } else {
                assert(grown[i] == body[i - 1]);
                assert(grown[j] == body[j - 1]);
            }
        }
    }
    assert(all_in_bounds(grown, rows, cols)) by {
        assert forall|i: int| 0 <= i < grown.len() implies in_bounds(
            #[trigger] grown[i],
            rows,
            cols,
        ) by {
            if i > 0 {
                assert(grown[i] == body[i - 1]);
            }
        }
    }
    if contiguous(body) {
        assert(contiguous(grown)) by {
            assert forall|i: int| 0 <= i && i + 1 < grown.len() implies orthogonally_adjacent(
                #[trigger] grown[i],
                grown[i + 1],
            ) by {
                if i == 0 {
                    assert(grown[0] == nh && grown[1] == body[0]);
                } else {
                    assert(grown[i] == body[i - 1]);
                    assert(grown[i + 1] == body[i]);
                }
            }
        }
    }
    let nb = spec_advance_body(body, nh, target_length);
    if grown.len() > target_length {
        assert(nb == grown.drop_last());
        assert(no_duplicates(nb)) by {
            assert forall|i: int, j: int| 0 <= i < j < nb.len() implies nb[i] != nb[j] by {
                assert(nb[i] == grown[i]);
                assert(nb[j] == grown[j]);
            }
        }
        assert(all_in_bounds(nb, rows, cols)) by {
            assert forall|i: int| 0 <= i < nb.len() implies in_bounds(
                #[trigger] nb[i],
                rows,
                cols,
            ) by {
                assert(nb[i] == grown[i]);
            }
        }
        if contiguous(body) {
            assert(contiguous(nb)) by {
                assert forall|i: int| 0 <= i && i + 1 < nb.len() implies orthogonally_adjacent(
                    #[trigger] nb[i],
                    nb[i + 1],
                ) by {
                    assert(nb[i] == grown[i]);
                    assert(nb[i + 1] == grown[i + 1]);
                }
            }
        }
    }
}

} // verus!
