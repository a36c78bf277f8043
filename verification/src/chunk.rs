//! The partition of the world grid into square chunks, and the chunks that
//! a viewport touches.

use vstd::prelude::*;
use vstd::arithmetic::div_mod::{
    lemma_div_is_ordered, lemma_fundamental_div_mod, lemma_fundamental_div_mod_converse,
    lemma_multiply_divide_lt,
};
use vstd::arithmetic::div_mod::lemma_div_by_multiple;
use vstd::arithmetic::power2::{lemma_pow2_pos, pow2};
use crate::scalar::{Scalar, ZERO_BITS};
use crate::viewport::Viewport;
use crate::world::World;

verus! {

/// The number of chunks of side `side` that it takes to cover `cells` cells
/// in a row: the last chunk is clipped where `side` does not divide `cells`.
pub open spec fn chunks_along(cells: int, side: int) -> int {
    cells / side + if cells % side == 0 {
        0int
    } else {
        1int
    }
}

/// The chunks along an axis are at least one and at most the cells, and the
/// last cell lies in the last chunk.
pub proof fn lemma_chunks_along(cells: int, side: int)
    requires
        cells > 0,
        side > 0,
    ensures
        1 <= chunks_along(cells, side) <= cells,
        (cells - 1) / side == chunks_along(cells, side) - 1,
{
    let q = cells / side;
    let r = cells % side;
    lemma_fundamental_div_mod(cells, side);
    assert(0 <= r < side);
    assert(q >= 0 && q <= side * q) by (nonlinear_arith)
        requires
            cells == side * q + r,
            0 <= r < side,
            cells > 0,
            side > 0,
    ;
    if r == 0 {
        assert(q >= 1) by (nonlinear_arith)
            requires
                cells == side * q,
                cells > 0,
                side > 0,
        ;
        assert(cells - 1 == side * (q - 1) + (side - 1)) by (nonlinear_arith)
            requires
                cells == side * q,
        ;
        lemma_fundamental_div_mod_converse(cells - 1, side, q - 1, side - 1);
    } else {
        lemma_fundamental_div_mod_converse(cells - 1, side, q, r - 1);
    }
}

/// The `k`-th chunk index, in row-major order, of a window of chunks that is
/// `cols` chunks wide and starts at column `first_col` of row `first_row`,
/// in a grid with `per_row` chunks to the row.
pub open spec fn window_entry(first_col: int, first_row: int, cols: int, per_row: int, k: int) -> u32 {
    ((first_row + k / cols) * per_row + first_col + k % cols) as u32
}

/// The first `n` chunk indices of such a window.
pub open spec fn window_seq(first_col: int, first_row: int, cols: int, per_row: int, n: nat) -> Seq<
    u32,
> {
    Seq::new(n, |k: int| window_entry(first_col, first_row, cols, per_row, k))
}

proof fn lemma_window_position(cols: int, line: int, column: int)
    requires
        cols > 0,
        0 <= line,
        0 <= column < cols,
    ensures
        (line * cols + column) / cols == line,
        (line * cols + column) % cols == column,
        line * cols + column >= 0,
{
    lemma_fundamental_div_mod_converse(line * cols + column, cols, line, column);
    assert(line * cols >= 0) by (nonlinear_arith)
        requires
            line >= 0,
            cols > 0,
    ;
}

impl World {
    /// The number of chunks in a row of chunks.
    pub open spec fn chunks_per_row(&self) -> int {
        chunks_along(self.width as int, self.chunk_size as int)
    }

    /// The number of rows of chunks.
    pub open spec fn chunk_rows(&self) -> int {
        chunks_along(self.height as int, self.chunk_size as int)
    }

    /// The number of chunks of the grid.
    pub open spec fn chunk_count(&self) -> int {
        self.chunk_rows() * self.chunks_per_row()
    }

    /// The column and the row of the chunk that holds the point `(x, y)`,
    /// each coordinate rounded toward zero.
    pub open spec fn spec_chunk_coord(&self, x: Scalar, y: Scalar) -> (u32, u32) {
        (x.truncated() / self.chunk_size, y.truncated() / self.chunk_size)
    }

    /// The index of the chunk that holds the cell nearest to the point
    /// `(x, y)`.
    pub open spec fn spec_chunk_idx(&self, x: Scalar, y: Scalar) -> int {
        let cx = if x.truncated() >= self.width {
            self.width - 1
        } else {
            x.truncated() as int
        };
        let cy = if y.truncated() >= self.height {
            self.height - 1
        } else {
            y.truncated() as int
        };
        (cy / (self.chunk_size as int)) * self.chunks_per_row() + cx / (self.chunk_size as int)
    }

    /// The chunk indices of the window of chunks from the one that holds
    /// `(x, y)` to the one that holds `(right, bottom)`, both included, cut
    /// off at the last column and the last row of chunks; in row-major order.
    pub open spec fn chunk_window(&self, x: Scalar, y: Scalar, right: Scalar, bottom: Scalar) -> Seq<
        u32,
    > {
        let first = self.spec_chunk_coord(x, y);
        let last = self.spec_chunk_coord(right, bottom);
        let last_col = if last.0 >= self.chunks_per_row() {
            self.chunks_per_row() - 1
        } else {
            last.0 as int
        };
        let last_row = if last.1 >= self.chunk_rows() {
            self.chunk_rows() - 1
        } else {
            last.1 as int
        };
        if first.0 > last_col || first.1 > last_row {
            Seq::empty()
        } else {
            let cols = last_col - first.0 + 1;
            let rows = last_row - first.1 + 1;
            window_seq(
                first.0 as int,
                first.1 as int,
                cols,
                self.chunks_per_row(),
                (rows * cols) as nat,
            )
        }
    }

    /// Whether `chunks` are the chunk indices that the viewport touches: the
    /// window from the chunk that holds the viewport's near corner to the one
    /// that holds its far corner, the far edges being what `sum` gives for
    /// the near edge and the extent.
    pub open spec fn viewport_chunks<A: Fn(Scalar, Scalar) -> Scalar>(
        &self,
        chunks: Seq<u32>,
        viewport: &Viewport,
        sum: A,
    ) -> bool {
        exists|right: Scalar, bottom: Scalar|
            #![trigger sum.ensures((viewport.x, viewport.width), right), sum.ensures((viewport.y, viewport.height), bottom)]
            sum.ensures((viewport.x, viewport.width), right) && sum.ensures(
                (viewport.y, viewport.height),
                bottom,
            ) && chunks == self.chunk_window(viewport.x, viewport.y, right, bottom)
    }

    /// The column and the row of the chunk that holds the point `(x, y)`.
    /// A negative or NaN coordinate counts as zero.
    pub fn chunk_coord(&self, x: Scalar, y: Scalar) -> (r: (u32, u32))
        requires
            self.wf(),
        ensures
            r == self.spec_chunk_coord(x, y),
    {
        let chunk_x: u32 = x.trunc_u32() / self.chunk_size;
        let chunk_y: u32 = y.trunc_u32() / self.chunk_size;
        (chunk_x, chunk_y)
    }

    fn chunk_columns(&self) -> (r: u32)
        requires
            self.wf(),
        ensures
            r == self.chunks_per_row(),
            1 <= r <= self.width,
    {
        proof {
            lemma_chunks_along(self.width as int, self.chunk_size as int);
        }
        let whole: u32 = self.width / self.chunk_size;
        if self.width % self.chunk_size == 0 {
            whole
        } else {
            whole + 1
        }
    }

    fn chunk_lines(&self) -> (r: u32)
        requires
            self.wf(),
        ensures
            r == self.chunk_rows(),
            1 <= r <= self.height,
    {
        proof {
            lemma_chunks_along(self.height as int, self.chunk_size as int);
        }
        let whole: u32 = self.height / self.chunk_size;
        if self.height % self.chunk_size == 0 {
            whole
        } else {
            whole + 1
        }
    }

    /// The index of the chunk that holds the point `(x, y)`. A point outside
    /// the grid is brought to the nearest cell inside it.
    pub fn chunk_idx(&self, x: Scalar, y: Scalar) -> (r: u32)
        requires
            self.wf(),
        ensures
            r == self.spec_chunk_idx(x, y),
            r < self.chunk_count(),
    {
        let tx: u32 = x.trunc_u32();
        let ty: u32 = y.trunc_u32();
        let cx: u32 = if tx >= self.width {
            self.width - 1
        } else {
            tx
        };
        let cy: u32 = if ty >= self.height {
            self.height - 1
        } else {
            ty
        };
        let chunk_x: u32 = cx / self.chunk_size;
        let chunk_y: u32 = cy / self.chunk_size;
        let chunk_w: u32 = self.chunk_columns();
        let chunk_h: u32 = self.chunk_lines();
        proof {
            let side = self.chunk_size as int;
            lemma_chunks_along(self.width as int, side);
            lemma_chunks_along(self.height as int, side);
            lemma_div_is_ordered(cx as int, self.width - 1, side);
            lemma_div_is_ordered(cy as int, self.height - 1, side);
            assert(0 <= chunk_y * chunk_w && chunk_y * chunk_w + chunk_x < chunk_h * chunk_w
                && chunk_h * chunk_w <= self.width * self.height) by (nonlinear_arith)
                requires
                    0 <= chunk_y <= chunk_h - 1,
                    0 <= chunk_x <= chunk_w - 1,
                    chunk_w <= self.width,
                    chunk_h <= self.height,
            ;
        }
        (chunk_y * chunk_w) + chunk_x
    }

    /// The indices of the chunks from the one that holds `(x, y)` to the one
    /// that holds `(right, bottom)`, row by row from the top and from left
    /// to right within a row. Chunks past the last column or row of the
    /// grid are left out, so the result is empty where `(x, y)` lies past
    /// them.
    pub fn chunks_between(&self, x: Scalar, y: Scalar, right: Scalar, bottom: Scalar) -> (chunks:
        Vec<u32>)
        requires
            self.wf(),
        ensures
            chunks@ == self.chunk_window(x, y, right, bottom),
    {
        let first: (u32, u32) = self.chunk_coord(x, y);
        let last: (u32, u32) = self.chunk_coord(right, bottom);
        let per_row: u32 = self.chunk_columns();
        let rows: u32 = self.chunk_lines();
        let last_col: u32 = if last.0 >= per_row {
            per_row - 1
        } else {
            last.0
        };
        let last_row: u32 = if last.1 >= rows {
            rows - 1
        } else {
            last.1
        };
        let mut chunks: Vec<u32> = Vec::new();
        if first.0 > last_col || first.1 > last_row {
            return chunks;
        }
        let ghost cols: int = last_col - first.0 + 1;
        let ghost height: int = last_row - first.1 + 1;
        let mut cy: u32 = first.1;
        proof {
            assert(rows * per_row <= self.width * self.height) by (nonlinear_arith)
                requires
                    1 <= rows <= self.height,
                    1 <= per_row <= self.width,
            ;
            assert((cy - first.1) * cols == 0) by (nonlinear_arith)
                requires
                    cy == first.1,
            ;
            assert(chunks@ =~= window_seq(first.0 as int, first.1 as int, cols, per_row as int, 0));
        }
        while cy <= last_row
            invariant
                self.wf(),
                first.1 <= cy <= last_row + 1,
                first.0 <= last_col < per_row,
                last_row < rows,
                cols == last_col - first.0 + 1,
                rows * per_row <= u32::MAX,
                (cy - first.1) * cols >= 0,
                chunks@ == window_seq(
                    first.0 as int,
                    first.1 as int,
                    cols,
                    per_row as int,
                    ((cy - first.1) * cols) as nat,
                ),
            decreases last_row + 1 - cy,
        {
            let mut cx: u32 = first.0;
            while cx <= last_col
                invariant
                    first.1 <= cy <= last_row,
                    first.0 <= cx <= last_col + 1,
                    last_col < per_row,
                    last_row < rows,
                    cols == last_col - first.0 + 1,
                    rows * per_row <= u32::MAX,
                    (cy - first.1) * cols >= 0,
                    chunks@ == window_seq(
                        first.0 as int,
                        first.1 as int,
                        cols,
                        per_row as int,
                        ((cy - first.1) * cols + (cx - first.0)) as nat,
                    ),
                decreases last_col + 1 - cx,
            {
                proof {
                    assert(0 <= cy * per_row && cy * per_row + cx < rows * per_row)
                        by (nonlinear_arith)
                        requires
                            0 <= cy <= rows - 1,
                            0 <= cx <= per_row - 1,
                    ;
                }
                let chunk_idx: u32 = (cy * per_row) + cx;
                proof {
                    let k = (cy - first.1) * cols + (cx - first.0);
                    lemma_window_position(cols, cy - first.1, cx - first.0);
                    assert(window_entry(first.0 as int, first.1 as int, cols, per_row as int, k)
                        == chunk_idx);
                    assert(chunks@.push(chunk_idx) =~= window_seq(
                        first.0 as int,
                        first.1 as int,
                        cols,
                        per_row as int,
                        (k + 1) as nat,
                    ));
                }
                chunks.push(chunk_idx);
                cx = cx + 1;
            }
            proof {
                assert((cy + 1 - first.1) * cols == (cy - first.1) * cols + cols)
                    by (nonlinear_arith);
            }
            cy = cy + 1;
        }
        proof {
            assert((cy - first.1) * cols == height * cols);
        }
        chunks
    }

    /// The indices of the chunks that the viewport touches, in row-major
    /// order: those from the chunk that holds the viewport's near corner to
    /// the chunk that holds its far corner, the far edges being what `sum`
    /// gives.
    pub fn chunks_in_viewport<A: Fn(Scalar, Scalar) -> Scalar>(
        &self,
        viewport: &Viewport,
        sum: &A,
    ) -> (chunks: Vec<u32>)
        requires
            self.wf(),
            sum.requires((viewport.x, viewport.width)),
            sum.requires((viewport.y, viewport.height)),
        ensures
            self.viewport_chunks(chunks@, viewport, *sum),
    {
        let right: Scalar = viewport.right(sum);
        let bottom: Scalar = viewport.bottom(sum);
        self.chunks_between(viewport.x, viewport.y, right, bottom)
    }
}

/// A window that starts in the first cell and reaches the last cell of the
/// grid holds every chunk index exactly once, in ascending order.
pub proof fn lemma_window_covers_grid(
    world: &World,
    x: Scalar,
    y: Scalar,
    right: Scalar,
    bottom: Scalar,
)
    requires
        world.wf(),
        x.truncated() == 0,
        y.truncated() == 0,
        right.truncated() >= world.width - 1,
        bottom.truncated() >= world.height - 1,
    ensures
        world.chunk_count() <= u32::MAX,
        world.chunk_window(x, y, right, bottom) == Seq::new(
            world.chunk_count() as nat,
            |i: int| i as u32,
        ),
{
    let side = world.chunk_size as int;
    let per_row = world.chunks_per_row();
    let rows = world.chunk_rows();
    lemma_chunks_along(world.width as int, side);
    lemma_chunks_along(world.height as int, side);
    lemma_div_is_ordered(world.width - 1, right.truncated() as int, side);
    lemma_div_is_ordered(world.height - 1, bottom.truncated() as int, side);
    assert(0int / side == 0);
    assert(rows * per_row <= world.width * world.height && rows * per_row >= 1)
        by (nonlinear_arith)
        requires
            1 <= rows <= world.height,
            1 <= per_row <= world.width,
    ;
    let window = world.chunk_window(x, y, right, bottom);
    let all = Seq::new(world.chunk_count() as nat, |i: int| i as u32);
    assert(window.len() == all.len());
    assert forall|k: int| 0 <= k < window.len() implies window[k] == all[k] by {
        lemma_fundamental_div_mod(k, per_row);
        assert((k / per_row) * per_row == per_row * (k / per_row)) by (nonlinear_arith);
    }
    assert(window =~= all);
}

/// The entries of a chunk window are chunk indices of the grid and ascend
/// strictly, so that none occurs twice.
pub proof fn lemma_window_ascends(world: &World, x: Scalar, y: Scalar, right: Scalar, bottom: Scalar)
    requires
        world.wf(),
    ensures
        forall|i: int|
            0 <= i < world.chunk_window(x, y, right, bottom).len() ==> (
            #[trigger] world.chunk_window(x, y, right, bottom)[i]) < world.chunk_count(),
        forall|i: int, j: int|
            0 <= i < j < world.chunk_window(x, y, right, bottom).len() ==> (
            #[trigger] world.chunk_window(x, y, right, bottom)[i]) < (#[trigger] world.chunk_window(
                x,
                y,
                right,
                bottom,
            )[j]),
{
    let side = world.chunk_size as int;
    let per_row = world.chunks_per_row();
    let rows = world.chunk_rows();
    lemma_chunks_along(world.width as int, side);
    lemma_chunks_along(world.height as int, side);
    assert(rows * per_row <= world.width * world.height) by (nonlinear_arith)
        requires
            1 <= rows <= world.height,
            1 <= per_row <= world.width,
    ;
    let window = world.chunk_window(x, y, right, bottom);
    if window.len() > 0 {
        let first = world.spec_chunk_coord(x, y);
        let last = world.spec_chunk_coord(right, bottom);
        let last_col = if last.0 >= per_row {
            per_row - 1
        } else {
            last.0 as int
        };
        let last_row = if last.1 >= rows {
            rows - 1
        } else {
            last.1 as int
        };
        let cols = last_col - first.0 + 1;
        let lines = last_row - first.1 + 1;
        let value = |k: int| (first.1 + k / cols) * per_row + first.0 + k % cols;
        assert forall|k: int| 0 <= k < window.len() implies 0 <= value(k) < rows * per_row && #[trigger] window[k]
            == value(k) by {
            lemma_fundamental_div_mod(k, cols);
            assert(lines * cols == cols * lines) by (nonlinear_arith);
            lemma_multiply_divide_lt(k, cols, lines);
            assert(k / cols >= 0) by (nonlinear_arith)
                requires
                    k >= 0,
                    cols > 0,
                    k == cols * (k / cols) + k % cols,
                    0 <= k % cols < cols,
            ;
            let line = first.1 + k / cols;
            let column = first.0 + k % cols;
            assert(0 <= line * per_row && line * per_row + column < rows * per_row)
                by (nonlinear_arith)
                requires
                    0 <= line <= rows - 1,
                    0 <= column <= per_row - 1,
            ;
        }
        assert forall|i: int, j: int| 0 <= i < j < window.len() implies (#[trigger] window[i]) < (
        #[trigger] window[j]) by {
            assert(window[i] == value(i));
            assert(window[j] == value(j));
            lemma_fundamental_div_mod(i, cols);
            lemma_fundamental_div_mod(j, cols);
            lemma_div_is_ordered(i, j, cols);
            let a = i / cols;
            let b = j / cols;
            if a < b {
                assert((first.1 + a) * per_row + per_row <= (first.1 + b) * per_row)
                    by (nonlinear_arith)
                    requires
                        a + 1 <= b,
                        per_row >= 1,
                ;
            } else {
                assert(cols * a == cols * b);
            }
        }
    }
}

/// A scalar that is the whole number `n` is truncated to `n`.
pub proof fn lemma_whole_number_truncates(v: Scalar, n: nat)
    requires
        v.is_whole_number(n),
        n <= u32::MAX,
    ensures
        v.truncated() == n,
{
    lemma_pow2_pos(149);
    lemma_div_by_multiple(n as int, pow2(149) as int);
}

/// A viewport over the whole grid touches every chunk once, in row-major
/// order: where the viewport starts at `(0.0, 0.0)`, is as wide and as high
/// as the grid has columns and rows, and `sum` adds nothing to an extent
/// when the near edge is zero, the chunks of the viewport are all the chunk
/// indices of the grid in ascending order.
pub proof fn lemma_full_viewport_covers_grid<A: Fn(Scalar, Scalar) -> Scalar>(
    world: &World,
    viewport: &Viewport,
    sum: A,
    chunks: Seq<u32>,
)
    requires
        world.wf(),
        viewport.x == (Scalar { bits: ZERO_BITS }),
        viewport.y == (Scalar { bits: ZERO_BITS }),
        viewport.width.is_whole_number(world.width as nat),
        viewport.height.is_whole_number(world.height as nat),
        forall|r: Scalar| #[trigger]
            sum.ensures((viewport.x, viewport.width), r) ==> r.spec_same_value(viewport.width),
        forall|r: Scalar| #[trigger]
            sum.ensures((viewport.y, viewport.height), r) ==> r.spec_same_value(viewport.height),
        world.viewport_chunks(chunks, viewport, sum),
    ensures
        chunks == Seq::new(world.chunk_count() as nat, |i: int| i as u32),
{
    let (right, bottom) = choose|right: Scalar, bottom: Scalar|
        #![trigger sum.ensures((viewport.x, viewport.width), right), sum.ensures((viewport.y, viewport.height), bottom)]
        sum.ensures((viewport.x, viewport.width), right) && sum.ensures(
            (viewport.y, viewport.height),
            bottom,
        ) && chunks == world.chunk_window(viewport.x, viewport.y, right, bottom);
    let zero = Scalar { bits: ZERO_BITS };
    lemma_pow2_pos(149);
    assert(zero.is_whole_number(0)) by {
        assert(zero.significand() == 0);
        assert(0 * pow2((zero.exponent() - 1) as nat) == 0) by (nonlinear_arith);
        assert(0 * pow2(149) == 0) by (nonlinear_arith);
    }
    lemma_whole_number_truncates(zero, 0);
    lemma_same_value_of_positive(right, viewport.width, world.width as nat);
    lemma_same_value_of_positive(bottom, viewport.height, world.height as nat);
    lemma_whole_number_truncates(right, world.width as nat);
    lemma_whole_number_truncates(bottom, world.height as nat);
    lemma_window_covers_grid(world, viewport.x, viewport.y, right, bottom);
}

proof fn lemma_same_value_of_positive(r: Scalar, w: Scalar, n: nat)
    requires
        w.is_whole_number(n),
        n > 0,
        r.spec_same_value(w),
    ensures
        r == w,
{
    lemma_pow2_pos(149);
    assert(n * pow2(149) > 0) by (nonlinear_arith)
        requires
            n > 0,
            pow2(149) > 0,
    ;
    if w.magnitude() == 0 {
        assert(w.significand() == 0);
        assert(0 * pow2((w.exponent() - 1) as nat) == 0) by (nonlinear_arith);
    }
}

} // verus!
