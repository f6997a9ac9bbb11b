use snake::grid::GridState;
use snake::model::{Cell, Direction, GameStatus, Outcome, direction_from_keys};
use snake::snake_body::Snake;

fn fresh() -> GridState {
    GridState::new(600, 400, 20)
}

fn body_of(g: &GridState) -> Vec<Cell> {
    let mut v = Vec::new();
    let mut i = 0;
    while i < g.body_len() {
        v.push(g.body_cell(i));
        i += 1;
    }
    v
}

fn state_on_default_grid(
    body: Vec<Cell>,
    direction: Direction,
    target_length: usize,
    cookie: Cell,
) -> GridState {
    GridState::from_parts(
        600,
        400,
        20,
        body,
        direction,
        target_length,
        cookie,
        GameStatus::Running,
    )
    .expect("parts form a valid state")
}

#[test]
fn fresh_reset_yields_fixed_start() {
    // A fresh game on the default 600x400 surface with 20-pixel cells is a
    // 30x20 grid of cells.
    let g = fresh();
    assert_eq!(g.rows(), 20);
    assert_eq!(g.cols(), 30);
    assert_eq!(g.cell_size(), 20);
    assert_eq!(g.status(), GameStatus::NotStarted);
    assert_eq!(g.direction(), Direction::Right);
    assert_eq!(g.target_length(), 5);
    assert_eq!(g.body_len(), 5);
    assert_eq!(g.head_cell(), Cell { row: 10, col: 12 });
    let expected = vec![
        Cell { row: 10, col: 12 },
        Cell { row: 10, col: 11 },
        Cell { row: 10, col: 10 },
        Cell { row: 10, col: 9 },
        Cell { row: 10, col: 8 },
    ];
    assert_eq!(body_of(&g), expected);
    // valid cookie, distinct from every body cell
    let cookie = g.cookie();
    assert_eq!(cookie, Cell { row: 8, col: 9 });
    assert!(cookie.row < g.rows() && cookie.col < g.cols());
    assert!(!g.body_contains(cookie));
}

#[test]
fn reset_restores_fixed_start() {
    let mut g = fresh();
    g.start();
    assert_eq!(g.status(), GameStatus::Running);
    assert_eq!(g.advance(), Outcome::Continued);
    assert_eq!(g.head_cell(), Cell { row: 10, col: 13 });
    g.reset();
    assert_eq!(g.status(), GameStatus::NotStarted);
    assert_eq!(g.body_len(), 5);
    assert_eq!(g.head_cell(), Cell { row: 10, col: 12 });
    assert_eq!(g.direction(), Direction::Right);
    assert!(!g.body_contains(g.cookie()));
}

#[test]
fn snake_new_is_fixed_start() {
    let s = Snake::new();
    assert_eq!(s.len(), 5);
    assert_eq!(s.direction_of_travel(), Direction::Right);
    assert_eq!(s.growth_target(), 5);
    for (i, col) in [12, 11, 10, 9, 8].iter().enumerate() {
        assert_eq!(s.cell_at(i), Cell { row: 10, col: *col });
    }
    assert!(s.contains_cell(Cell { row: 10, col: 10 }));
    assert!(!s.contains_cell(Cell { row: 9, col: 10 }));
}

#[test]
fn set_direction_rejects_reversal() {
    // Moving right: a request for left is ignored, up and down succeed.
    let mut g = fresh();
    assert_eq!(g.direction(), Direction::Right);
    g.set_direction(Direction::Left);
    assert_eq!(g.direction(), Direction::Right);
    g.set_direction(Direction::Up);
    assert_eq!(g.direction(), Direction::Up);
    g.set_direction(Direction::Down);
    assert_eq!(g.direction(), Direction::Up);
    g.set_direction(Direction::Down);
    assert_eq!(g.direction(), Direction::Up);
    g.set_direction(Direction::Left);
    assert_eq!(g.direction(), Direction::Left);
    g.set_direction(Direction::Right);
    assert_eq!(g.direction(), Direction::Left);
    g.set_direction(Direction::Down);
    assert_eq!(g.direction(), Direction::Down);
    g.set_direction(Direction::Up);
    assert_eq!(g.direction(), Direction::Down);
}

#[test]
fn wall_collision_moving_up_from_top_row() {
    // Head at (0,5) moving up on a 30x20 grid collides with the wall.
    let body = vec![
        Cell { row: 0, col: 5 },
        Cell { row: 1, col: 5 },
        Cell { row: 2, col: 5 },
    ];
    let mut g = state_on_default_grid(body, Direction::Up, 3, Cell { row: 8, col: 9 });
    assert_eq!(g.advance(), Outcome::Collided);
    // a collision leaves the state untouched
    assert_eq!(g.head_cell(), Cell { row: 0, col: 5 });
    assert_eq!(g.body_len(), 3);
}

#[test]
fn wall_collisions_on_all_edges() {
    let mk = |body: Vec<Cell>, d: Direction| state_on_default_grid(body, d, 3, Cell { row: 8, col: 9 });
    let left = vec![
        Cell { row: 5, col: 0 },
        Cell { row: 5, col: 1 },
        Cell { row: 5, col: 2 },
    ];
    assert_eq!(mk(left, Direction::Left).advance(), Outcome::Collided);
    let bottom = vec![
        Cell { row: 19, col: 5 },
        Cell { row: 18, col: 5 },
        Cell { row: 17, col: 5 },
    ];
    assert_eq!(mk(bottom, Direction::Down).advance(), Outcome::Collided);
    let right = vec![
        Cell { row: 5, col: 29 },
        Cell { row: 5, col: 28 },
        Cell { row: 5, col: 27 },
    ];
    assert_eq!(mk(right, Direction::Right).advance(), Outcome::Collided);
}

#[test]
fn self_collision_moving_onto_body_cell() {
    // Body [(5,5),(5,6),(5,7),(6,7),(6,5)], head moving down onto (6,5),
    // an existing body cell: a self collision.
    let body = vec![
        Cell { row: 5, col: 5 },
        Cell { row: 5, col: 6 },
        Cell { row: 5, col: 7 },
        Cell { row: 6, col: 7 },
        Cell { row: 6, col: 5 },
    ];
    let mut g = state_on_default_grid(body, Direction::Down, 5, Cell { row: 0, col: 0 });
    assert_eq!(g.advance(), Outcome::Collided);
    assert_eq!(g.head_cell(), Cell { row: 5, col: 5 });
    assert_eq!(g.body_len(), 5);
}

#[test]
fn moving_left_into_own_neck_is_blocked_but_turning_is_not() {
    // Body [(5,5),(5,6),(5,7)]: a left move from (5,5) goes to (5,4), free;
    // the reversal onto (5,6) cannot even be requested.
    let body = vec![
        Cell { row: 5, col: 5 },
        Cell { row: 5, col: 6 },
        Cell { row: 5, col: 7 },
    ];
    let mut g = state_on_default_grid(body, Direction::Left, 3, Cell { row: 0, col: 0 });
    g.set_direction(Direction::Right);
    assert_eq!(g.direction(), Direction::Left);
    assert_eq!(g.advance(), Outcome::Continued);
    assert_eq!(g.head_cell(), Cell { row: 5, col: 4 });
}

#[test]
fn growth_raises_target_by_one_and_body_reaches_it() {
    // Head moves left onto the cookie: the target grows by exactly one, and
    // one further advance brings the body length to the new target.
    let body = vec![
        Cell { row: 5, col: 5 },
        Cell { row: 5, col: 6 },
        Cell { row: 5, col: 7 },
        Cell { row: 5, col: 8 },
        Cell { row: 5, col: 9 },
    ];
    let mut g = state_on_default_grid(body, Direction::Left, 5, Cell { row: 5, col: 4 });
    assert_eq!(g.advance(), Outcome::Continued);
    assert_eq!(g.head_cell(), Cell { row: 5, col: 4 });
    assert_eq!(g.body_len(), 5);
    g.check_cookie();
    assert_eq!(g.target_length(), 6);
    assert!(!g.body_contains(g.cookie()));
    assert_eq!(g.advance(), Outcome::Continued);
    assert_eq!(g.body_len(), 6);
    assert_eq!(g.target_length(), 6);
}

#[test]
fn check_cookie_without_eating_changes_nothing() {
    let mut g = fresh();
    let cookie = g.cookie();
    g.check_cookie();
    assert_eq!(g.cookie(), cookie);
    assert_eq!(g.target_length(), 5);
    assert_eq!(g.body_len(), 5);
}

#[test]
fn hundred_advances_keep_length_at_target() {
    // Drive the snake around a rectangle; 100 non-colliding advances keep
    // the body at min(target, length so far) == 5 and every invariant holds.
    let mut g = fresh();
    g.start();
    let script = [
        (Direction::Right, 10),
        (Direction::Down, 5),
        (Direction::Left, 10),
        (Direction::Up, 5),
    ];
    let mut moves = 0;
    'outer: loop {
        for (d, n) in script.iter() {
            g.set_direction(*d);
            for _ in 0..*n {
                assert_eq!(g.advance(), Outcome::Continued);
                assert_eq!(g.body_len(), 5);
                assert_eq!(g.body_len(), g.target_length().min(g.body_len()));
                let body = body_of(&g);
                for (i, a) in body.iter().enumerate() {
                    assert!(a.row < g.rows() && a.col < g.cols());
                    for b in body[i + 1..].iter() {
                        assert_ne!(a, b);
                    }
                }
                moves += 1;
                if moves == 100 {
                    break 'outer;
                }
            }
        }
    }
    assert_eq!(moves, 100);
    assert_eq!(g.body_len(), 5);
}

#[test]
fn tick_on_collision_resets_for_next_game() {
    let body = vec![
        Cell { row: 0, col: 5 },
        Cell { row: 1, col: 5 },
        Cell { row: 2, col: 5 },
    ];
    let mut g = state_on_default_grid(body, Direction::Up, 3, Cell { row: 8, col: 9 });
    assert_eq!(g.tick(), Outcome::Collided);
    assert_eq!(g.status(), GameStatus::NotStarted);
    assert_eq!(g.body_len(), 5);
    assert_eq!(g.head_cell(), Cell { row: 10, col: 12 });
    assert!(!g.body_contains(g.cookie()));
}

#[test]
fn tick_advances_and_eats() {
    let body = vec![
        Cell { row: 5, col: 5 },
        Cell { row: 5, col: 6 },
        Cell { row: 5, col: 7 },
        Cell { row: 5, col: 8 },
        Cell { row: 5, col: 9 },
    ];
    let mut g = state_on_default_grid(body, Direction::Left, 5, Cell { row: 5, col: 4 });
    assert_eq!(g.tick(), Outcome::Continued);
    assert_eq!(g.status(), GameStatus::Running);
    assert_eq!(g.head_cell(), Cell { row: 5, col: 4 });
    assert_eq!(g.target_length(), 6);
    assert!(!g.body_contains(g.cookie()));
    assert_eq!(g.tick(), Outcome::Continued);
    assert_eq!(g.body_len(), 6);
}

#[test]
fn respawn_cookie_never_lands_on_snake() {
    let mut g = fresh();
    for _ in 0..200 {
        g.respawn_cookie();
        let c = g.cookie();
        assert!(c.row < g.rows() && c.col < g.cols());
        assert!(!g.body_contains(c));
    }
}

#[test]
fn pick_free_cell_on_crowded_grid_finds_the_gap() {
    // Fill an entire 30x20 grid but one cell with a serpentine body; the
    // deterministic fallback must find the single free cell.
    let mut body = Vec::new();
    for row in 0..20usize {
        if row % 2 == 0 {
            for col in 0..30usize {
                body.push(Cell { row, col });
            }
        } else {
            for col in (0..30usize).rev() {
                body.push(Cell { row, col });
            }
        }
    }
    // leave exactly (19,0) free: with 19 odd, its row ends at col 0
    let gap = body.pop().unwrap();
    assert_eq!(gap, Cell { row: 19, col: 0 });
    let g = state_on_default_grid(body, Direction::Down, 600, gap);
    let free = g.pick_free_cell().expect("one cell is free");
    assert_eq!(free, gap);
}

#[test]
fn from_parts_rejects_invalid_states() {
    let ok_body = || vec![
        Cell { row: 5, col: 5 },
        Cell { row: 5, col: 6 },
        Cell { row: 5, col: 7 },
    ];
    let cookie = Cell { row: 0, col: 0 };
    // valid
    assert!(GridState::from_parts(600, 400, 20, ok_body(), Direction::Left, 3, cookie, GameStatus::Running).is_some());
    // empty body
    assert!(GridState::from_parts(600, 400, 20, vec![], Direction::Left, 3, cookie, GameStatus::Running).is_none());
    // body longer than target
    assert!(GridState::from_parts(600, 400, 20, ok_body(), Direction::Left, 2, cookie, GameStatus::Running).is_none());
    // duplicate cell
    let mut dup = ok_body();
    dup.push(Cell { row: 5, col: 5 });
    assert!(GridState::from_parts(600, 400, 20, dup, Direction::Left, 4, cookie, GameStatus::Running).is_none());
    // body cell off the grid
    let mut off = ok_body();
    off.push(Cell { row: 20, col: 5 });
    assert!(GridState::from_parts(600, 400, 20, off, Direction::Left, 4, cookie, GameStatus::Running).is_none());
    // cookie on the snake
    assert!(GridState::from_parts(600, 400, 20, ok_body(), Direction::Left, 3, Cell { row: 5, col: 6 }, GameStatus::Running).is_none());
    // cookie off the grid
    assert!(GridState::from_parts(600, 400, 20, ok_body(), Direction::Left, 3, Cell { row: 5, col: 30 }, GameStatus::Running).is_none());
    // zero cell size
    assert!(GridState::from_parts(600, 400, 0, ok_body(), Direction::Left, 3, cookie, GameStatus::Running).is_none());
    // grid too small for the fixed start
    assert!(GridState::from_parts(100, 100, 20, vec![Cell { row: 1, col: 1 }], Direction::Left, 3, cookie, GameStatus::Running).is_none());
}

#[test]
fn direction_from_keys_priority() {
    assert_eq!(direction_from_keys(false, false, false, false), None);
    assert_eq!(direction_from_keys(true, false, false, false), Some(Direction::Up));
    assert_eq!(direction_from_keys(false, true, false, false), Some(Direction::Left));
    assert_eq!(direction_from_keys(false, false, true, false), Some(Direction::Down));
    assert_eq!(direction_from_keys(false, false, false, true), Some(Direction::Right));
    // up wins over left, left over down, down over right
    assert_eq!(direction_from_keys(true, true, true, true), Some(Direction::Up));
    assert_eq!(direction_from_keys(false, true, true, true), Some(Direction::Left));
    assert_eq!(direction_from_keys(false, false, true, true), Some(Direction::Down));
}

#[test]
fn reverse_is_involutive() {
    for d in [Direction::Up, Direction::Down, Direction::Left, Direction::Right] {
        assert_eq!(d.reverse().reverse(), d);
        assert_ne!(d.reverse(), d);
    }
}
