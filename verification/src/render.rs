//! Rendering: the pixel buffer is derived state, a function of the grid, the
//! snake and the cookie — a checkerboard background with the cookie and every
//! snake cell painted over it.

use vstd::prelude::*;
use vstd::arithmetic::div_mod::lemma_add_mod_noop;
use vstd::pervasive::VecAdditionalExecFns;
use crate::model::Cell;
use crate::grid::{GridState, GridView, grid_wf};

verus! {

/// The snake's color.
pub const SNAKE_COLOR: u32 = 0xFF73F1;

/// The cookie's color.
pub const COOKIE_COLOR: u32 = 0xF59B42;

/// The lighter background shade, for cells whose row and column sum is even.
pub const LIGHT_CELL_COLOR: u32 = 0x4CAD5C;

/// The darker background shade, for cells whose row and column sum is odd.
pub const DARK_CELL_COLOR: u32 = 0x318F40;

/// The checkerboard background color of a cell.
pub open spec fn checker_color(c: Cell) -> u32 {
    if (c.row + c.col) % 2 == 0 {
        LIGHT_CELL_COLOR
    } else {
        DARK_CELL_COLOR
    }
}

/// The color a cell shows: the snake over the cookie over the checkerboard.
pub open spec fn cell_color(v: GridView, c: Cell) -> u32 {
    if v.snake.body.contains(c) {
        SNAKE_COLOR
    } else if c == v.cookie {
        COOKIE_COLOR
    } else {
        checker_color(c)
    }
}

/// Width of the pixel buffer.
pub open spec fn width_px(v: GridView) -> int {
    v.cols * v.cell_size
}

/// Height of the pixel buffer.
pub open spec fn height_px(v: GridView) -> int {
    v.rows * v.cell_size
}

/// The cell that pixel `i` of the row-major buffer belongs to.
pub open spec fn cell_of_pixel(v: GridView, i: int) -> Cell {
    Cell {
        row: ((i / width_px(v)) / (v.cell_size as int)) as usize,
        col: ((i % width_px(v)) / (v.cell_size as int)) as usize,
    }
}

/// The color pixel `i` of the row-major buffer shows.
pub open spec fn pixel_color(v: GridView, i: int) -> u32 {
    cell_color(v, cell_of_pixel(v, i))
}

/// A buffer after one incremental repaint: the pixels of `target` painted
/// `color`, every other pixel kept.
pub open spec fn overlay(v: GridView, buf: Seq<u32>, target: Cell, color: u32) -> Seq<u32> {
    Seq::new(
        buf.len(),
        |i: int|
            if cell_of_pixel(v, i) == target {
                color
            } else {
                buf[i]
            },
    )
}

/// A buffer after the first `k` snake cells were each painted over it.
pub open spec fn overlay_body(v: GridView, buf: Seq<u32>, k: int) -> Seq<u32>
    decreases k,
{
    if k <= 0 {
        buf
    } else {
        overlay(v, overlay_body(v, buf, k - 1), v.snake.body[k - 1], SNAKE_COLOR)
    }
}

/// After painting the first `k` snake cells over `base`, a pixel shows the
/// snake's color exactly when its cell is among those `k`, and is otherwise
/// untouched.
proof fn lemma_overlay_body_pointwise(v: GridView, base: Seq<u32>, k: int, i: int)
    requires
        0 <= k <= v.snake.body.len(),
        0 <= i < base.len(),
    ensures
        overlay_body(v, base, k).len() == base.len(),
        overlay_body(v, base, k)[i] == (if exists|j: int|
            0 <= j < k && #[trigger] v.snake.body[j] == cell_of_pixel(v, i) {
            SNAKE_COLOR
        } else {
            base[i]
        }),
    decreases k,
{
    if k > 0 {
        lemma_overlay_body_pointwise(v, base, k - 1, i);
        let c = cell_of_pixel(v, i);
        if c == v.snake.body[k - 1] {
            assert(v.snake.body[k - 1] == c);
        } else {
            if exists|j: int| 0 <= j < k && #[trigger] v.snake.body[j] == c {
                let j = choose|j: int| 0 <= j < k && #[trigger] v.snake.body[j] == c;
                assert(0 <= j < k - 1 && v.snake.body[j] == c);
            }
        }
    }
}

/// Incremental repaint law: painting the cookie's cell and then every snake
/// cell over the checkerboard background yields, pixel for pixel, the full
/// render — repainting only the changed cells and rebuilding the whole
/// buffer show the same picture.
pub proof fn lemma_incremental_repaint(v: GridView, bg: Seq<u32>)
    requires
        bg.len() == width_px(v) * height_px(v),
        forall|i: int| 0 <= i < bg.len() ==> bg[i] == checker_color(cell_of_pixel(v, i)),
    ensures
        ({
            let full = overlay_body(
                v,
                overlay(v, bg, v.cookie, COOKIE_COLOR),
                v.snake.body.len() as int,
            );
            &&& full.len() == bg.len()
            &&& forall|i: int| 0 <= i < bg.len() ==> full[i] == pixel_color(v, i)
        }),
{
    let base = overlay(v, bg, v.cookie, COOKIE_COLOR);
    let n = v.snake.body.len() as int;
    let full = overlay_body(v, base, n);
    assert forall|i: int| 0 <= i < bg.len() implies full[i] == pixel_color(v, i) by {
        lemma_overlay_body_pointwise(v, base, n, i);
        let c = cell_of_pixel(v, i);
        if v.snake.body.contains(c) {
            let j = choose|j: int| 0 <= j < n && v.snake.body[j] == c;
            assert(v.snake.body[j] == c);
        } else {
            if exists|j: int| 0 <= j < n && #[trigger] v.snake.body[j] == c {
                let j = choose|j: int| 0 <= j < n && #[trigger] v.snake.body[j] == c;
                assert(v.snake.body.contains(c));
            }
        }
    }
    lemma_overlay_body_len(v, base, n);
}

/// Painting cells over a buffer keeps its length.
proof fn lemma_overlay_body_len(v: GridView, base: Seq<u32>, k: int)
    ensures
        overlay_body(v, base, k).len() == base.len(),
    decreases k,
{
    if k > 0 {
        lemma_overlay_body_len(v, base, k - 1);
    }
}

/// Two renderings of one state are identical: the buffer is a function of
/// the grid, the snake and the cookie alone.
pub proof fn lemma_render_deterministic(v: GridView, b1: Seq<u32>, b2: Seq<u32>)
    requires
        b1.len() == width_px(v) * height_px(v),
        b2.len() == width_px(v) * height_px(v),
        forall|i: int| 0 <= i < b1.len() ==> b1[i] == pixel_color(v, i),
        forall|i: int| 0 <= i < b2.len() ==> b2[i] == pixel_color(v, i),
    ensures
        b1 == b2,
{
    assert(b1 =~= b2);
}

impl GridState {
    /// The color of one cell under the current state.
    pub fn cell_color_at(&self, c: Cell) -> (r: u32)
        ensures
            r == cell_color(self@, c),
    {
        if self.body_contains(c) {
            SNAKE_COLOR
        } else if c == self.cookie() {
            COOKIE_COLOR
        } else {
            proof {
                lemma_add_mod_noop(c.row as int, c.col as int, 2);
            }
            if c.row % 2 == c.col % 2 {
                LIGHT_CELL_COLOR
            } else {
                DARK_CELL_COLOR
            }
        }
    }

    /// Rebuild the whole pixel buffer from the current state: checkerboard
    /// background, cookie, snake.
    #[verifier::loop_isolation(false)]
    pub fn render(&self) -> (buf: Vec<u32>)
        requires
            grid_wf(self@),
        ensures
            buf@.len() == width_px(self@) * height_px(self@),
            forall|i: int| 0 <= i < buf@.len() ==> buf@[i] == pixel_color(self@, i),
    {
        let w = self.pixel_width();
        let h = self.pixel_height();
        let total = w * h;
        let mut buf: Vec<u32> = Vec::new();
        let mut i: usize = 0;
        while i < total
            invariant
                buf@.len() == i,
                i <= total,
                forall|j: int| 0 <= j < i ==> buf@[j] == pixel_color(self@, j),
            decreases total - i,
        {
            let x = i % w;
            let y = i / w;
            let c = Cell { row: y / self.cell_size(), col: x / self.cell_size() };
            let color = self.cell_color_at(c);
            buf.push(color);
            i += 1;
        }
        buf
    }

    /// Width of the pixel buffer the state renders to.
    pub fn pixel_width(&self) -> (r: usize)
        requires
            grid_wf(self@),
        ensures
            r == width_px(self@),
            r >= 13,
    {
        proof {
            assert(self@.cols * self@.cell_size <= usize::MAX && self@.cols * self@.cell_size
                >= 13) by (nonlinear_arith)
                requires
                    self@.rows >= 11,
                    self@.cols >= 13,
                    self@.cell_size >= 1,
                    self@.rows * self@.cell_size * self@.cols * self@.cell_size <= usize::MAX,
            ;
        }
        self.cols() * self.cell_size()
    }

    /// Height of the pixel buffer the state renders to.
    pub fn pixel_height(&self) -> (r: usize)
        requires
            grid_wf(self@),
        ensures
            r == height_px(self@),
            r >= 11,
            width_px(self@) * height_px(self@) <= usize::MAX,
    {
        proof {
            assert(self@.rows * self@.cell_size <= usize::MAX && self@.rows * self@.cell_size >= 11
                && (self@.cols * self@.cell_size) * (self@.rows * self@.cell_size)
                <= usize::MAX) by (nonlinear_arith)
                requires
                    self@.rows >= 11,
                    self@.cols >= 13,
                    self@.cell_size >= 1,
                    self@.rows * self@.cell_size * self@.cols * self@.cell_size <= usize::MAX,
            ;
        }
        self.rows() * self.cell_size()
    }

    /// Paint the pixels of one cell, leaving every other pixel untouched —
    /// the incremental repaint the per-tick redraw may use.
    #[verifier::loop_isolation(false)]
    pub fn set_cell_color(&self, buf: &mut Vec<u32>, target: Cell, color: u32)
        requires
            grid_wf(self@),
            old(buf)@.len() == width_px(self@) * height_px(self@),
        ensures
            final(buf)@.len() == old(buf)@.len(),
            forall|i: int|
                0 <= i < old(buf)@.len() ==> final(buf)@[i] == (if cell_of_pixel(self@, i)
                    == target {
                    color
                } else {
                    old(buf)@[i]
                }),
    {
        let w = self.pixel_width();
        let len = buf.len();
        let mut i: usize = 0;
        while i < len
            invariant
                buf@.len() == len,
                i <= len,
                forall|j: int|
                    0 <= j < i ==> buf@[j] == (if cell_of_pixel(self@, j) == target {
                        color
                    } else {
                        old(buf)@[j]
                    }),
                forall|j: int| i <= j < len ==> buf@[j] == old(buf)@[j],
            decreases len - i,
        {
            let x = i % w;
            let y = i / w;
            if y / self.cell_size() == target.row && x / self.cell_size() == target.col {
                buf.set(i, color);
            }
            i += 1;
        }
    }

    /// The checkerboard background alone, as painted on a full reset.
    #[verifier::loop_isolation(false)]
    pub fn fill_background(&self) -> (buf: Vec<u32>)
        requires
            grid_wf(self@),
        ensures
            buf@.len() == width_px(self@) * height_px(self@),
            forall|i: int| 0 <= i < buf@.len() ==> buf@[i] == checker_color(
                cell_of_pixel(self@, i),
            ),
    {
        let w = self.pixel_width();
        let h = self.pixel_height();
        let total = w * h;
        let mut buf: Vec<u32> = Vec::new();
        let mut i: usize = 0;
        while i < total
            invariant
                buf@.len() == i,
                i <= total,
                forall|j: int| 0 <= j < i ==> buf@[j] == checker_color(cell_of_pixel(self@, j)),
            decreases total - i,
        {
            let x = i % w;
            let y = i / w;
            let row = y / self.cell_size();
            let col = x / self.cell_size();
            proof {
                lemma_add_mod_noop(row as int, col as int, 2);
            }
            let color = if row % 2 == col % 2 {
                LIGHT_CELL_COLOR
            } else {
                DARK_CELL_COLOR
            };
            buf.push(color);
            i += 1;
        }
        buf
    }
}

} // verus!
