use vstd::prelude::*;
use vstd::arithmetic::div_mod::{lemma_fundamental_div_mod_converse, lemma_small_mod};
use crate::cell::{Cell, cell_value, next_state};

verus! {

/// The mathematical picture of a universe: its dimensions and its cells in
/// row-major order.
pub struct Grid {
    pub width: nat,
    pub height: nat,
    pub cells: Seq<Cell>,
}

/// `(x + d) % n`: a coordinate moved by `d` and wrapped onto `[0, n)`.
pub open spec fn wrap(x: int, d: int, n: int) -> int {
    (x + d) % n
}

impl Grid {
    /// Both dimensions positive and exactly `width * height` cells.
    pub open spec fn wf(self) -> bool {
        &&& self.width > 0
        &&& self.height > 0
        &&& self.cells.len() == self.width * self.height
    }

    /// The flat offset of `(row, col)`.
    pub open spec fn index(self, row: int, col: int) -> int {
        row * self.width + col
    }

    /// The cell at `(row, col)`.
    pub open spec fn at(self, row: int, col: int) -> Cell {
        self.cells[self.index(row, col)]
    }

    /// 1 when the cell at `(row, col)` is alive, else 0.
    pub open spec fn live(self, row: int, col: int) -> nat {
        cell_value(self.at(row, col))
    }

    /// The number of living cells among the eight toroidal neighbours of
    /// `(row, col)`: one row up and down and one column left and right, each
    /// wrapped around the grid's edges.
    pub open spec fn neighbor_count(self, row: int, col: int) -> nat {
        let h = self.height as int;
        let w = self.width as int;
        let up = wrap(row, h - 1, h);
        let down = wrap(row, 1, h);
        let left = wrap(col, w - 1, w);
        let right = wrap(col, 1, w);
        self.live(up, left) + self.live(up, col) + self.live(up, right)
            + self.live(row, left) + self.live(row, right)
            + self.live(down, left) + self.live(down, col) + self.live(down, right)
    }

    /// The next generation: every cell, read from this generation only, put
    /// through the birth / survival / death rule.
    pub open spec fn step(self) -> Grid {
        Grid {
            width: self.width,
            height: self.height,
            cells: Seq::new(
                self.cells.len(),
                |i: int|
                    next_state(
                        self.cells[i],
                        self.neighbor_count(i / self.width as int, i % self.width as int) as int,
                    ),
            ),
        }
    }
}

/// The grid after `n` generations.
pub open spec fn generations(g: Grid, n: nat) -> Grid
    decreases n,
{
    if n == 0 {
        g
    } else {
        generations(g, (n - 1) as nat).step()
    }
}

/// Moving one step either way around a ring of `n` places, written without
/// the modulo.
pub proof fn lemma_wrap(x: int, n: int)
    requires
        0 <= x < n,
    ensures
        wrap(x, n - 1, n) == if x == 0 { n - 1 } else { x - 1 },
        wrap(x, 1, n) == if x + 1 == n { 0 } else { x + 1 },
        0 <= wrap(x, n - 1, n) < n,
        0 <= wrap(x, 1, n) < n,
{
    if x == 0 {
        lemma_small_mod((n - 1) as nat, n as nat);
    } else {
        lemma_fundamental_div_mod_converse(x + n - 1, n, 1, x - 1);
    }
    if x + 1 == n {
        lemma_fundamental_div_mod_converse(x + 1, n, 1, 0);
    } else {
        lemma_small_mod((x + 1) as nat, n as nat);
    }
}

/// Row-major offsets of in-range coordinates are in range and give the
/// coordinates back.
pub proof fn lemma_index(g: Grid, row: int, col: int)
    requires
        g.wf(),
        0 <= row < g.height,
        0 <= col < g.width,
    ensures
        0 <= g.index(row, col) < g.cells.len(),
        g.index(row, col) / g.width as int == row,
        g.index(row, col) % g.width as int == col,
{
    let w = g.width as int;
    let h = g.height as int;
    assert(0 <= row * w + col < h * w) by (nonlinear_arith)
        requires
            0 <= row < h,
            0 <= col < w,
    ;
    assert(h * w == g.width * g.height) by (nonlinear_arith)
        requires
            h == g.height,
            w == g.width,
    ;
    lemma_fundamental_div_mod_converse(row * w + col, w, row, col);
}

/// Every offset of a well-formed grid has its coordinates in range.
pub proof fn lemma_coords(g: Grid, i: int)
    requires
        g.wf(),
        0 <= i < g.cells.len(),
    ensures
        0 <= i / (g.width as int) < g.height,
        0 <= i % (g.width as int) < g.width,
        g.index(i / g.width as int, i % g.width as int) == i,
{
    let w = g.width as int;
    let h = g.height as int;
    let q = i / w;
    let r = i % w;
    assert(i == w * q + r && 0 <= r < w) by (nonlinear_arith)
        requires
            w > 0,
            q == i / w,
            r == i % w,
    ;
    assert(0 <= q < h) by (nonlinear_arith)
        requires
            i == w * q + r,
            0 <= r < w,
            0 <= i < w * h,
    ;
}

} // verus!
