use vstd::prelude::*;
use crate::cell::{Cell, next_state};
use crate::model::{Grid, generations, wrap, lemma_coords, lemma_index, lemma_wrap};

verus! {

/// The grid of the given dimensions whose living cells are exactly those
/// `(row, col)` for which `alive` holds.
pub open spec fn pattern(width: nat, height: nat, alive: spec_fn(int, int) -> bool) -> Grid {
    Grid {
        width,
        height,
        cells: Seq::new(
            width * height,
            |i: int|
                if alive(i / width as int, i % width as int) {
                    Cell::Alive
                } else {
                    Cell::Dead
                },
        ),
    }
}

/// Whether `(a, b)` lies in the 2x2 block whose top-left cell is
/// `(row, col)`; the block itself wraps around the edges.
pub open spec fn in_block(width: nat, height: nat, row: int, col: int) -> spec_fn(int, int) -> bool {
    |a: int, b: int|
        (a == row || a == wrap(row, 1, height as int)) && (b == col || b == wrap(col, 1, width as int))
}

/// The 2x2 block whose top-left cell is `(row, col)`, on an otherwise dead
/// grid.
pub open spec fn block(width: nat, height: nat, row: int, col: int) -> Grid {
    pattern(width, height, in_block(width, height, row, col))
}

/// Whether `(a, b)` is one of the three cells of row `row` at columns
/// `col - 1`, `col` and `col + 1`, wrapped.
pub open spec fn in_row_of_three(width: nat, row: int, col: int) -> spec_fn(int, int) -> bool {
    |a: int, b: int|
        a == row && (b == wrap(col, width - 1, width as int) || b == col || b == wrap(
            col,
            1,
            width as int,
        ))
}

/// Whether `(a, b)` is one of the three cells of column `col` at rows
/// `row - 1`, `row` and `row + 1`, wrapped.
pub open spec fn in_column_of_three(height: nat, row: int, col: int) -> spec_fn(int, int) -> bool {
    |a: int, b: int|
        b == col && (a == wrap(row, height - 1, height as int) || a == row || a == wrap(
            row,
            1,
            height as int,
        ))
}

/// Three living cells in a row, centred on `(row, col)`, on an otherwise dead
/// grid.
pub open spec fn horizontal_line(width: nat, height: nat, row: int, col: int) -> Grid {
    pattern(width, height, in_row_of_three(width, row, col))
}

/// Three living cells in a column, centred on `(row, col)`, on an otherwise
/// dead grid.
pub open spec fn vertical_line(width: nat, height: nat, row: int, col: int) -> Grid {
    pattern(width, height, in_column_of_three(height, row, col))
}

/// The next state of a cell is the rule applied to its current state and
/// its living-neighbour count in the current generation.
pub proof fn lemma_step_at(g: Grid, row: int, col: int)
    requires
        g.wf(),
        0 <= row < g.height,
        0 <= col < g.width,
    ensures
        g.step().at(row, col) == next_state(g.at(row, col), g.neighbor_count(row, col) as int),
{
    lemma_index(g, row, col);
}

/// A generation of a well-formed grid keeps its dimensions and holds
/// `width * height` cells.
pub proof fn lemma_step_wf(g: Grid)
    requires
        g.wf(),
    ensures
        g.step().wf(),
        g.step().width == g.width,
        g.step().height == g.height,
{
}

/// After any number of generations a well-formed grid is still well formed.
pub proof fn lemma_generations_wf(g: Grid, n: nat)
    requires
        g.wf(),
    ensures
        generations(g, n).wf(),
        generations(g, n).width == g.width,
        generations(g, n).height == g.height,
    decreases n,
{
    if n > 0 {
        lemma_generations_wf(g, (n - 1) as nat);
        lemma_step_wf(generations(g, (n - 1) as nat));
    }
}

/// The eight neighbours of an in-range cell, written without the modulo, all
/// lie in the grid.
proof fn lemma_neighborhood(g: Grid, row: int, col: int)
    requires
        g.wf(),
        0 <= row < g.height,
        0 <= col < g.width,
    ensures
        wrap(row, g.height - 1, g.height as int) == if row == 0 { g.height - 1 } else { row - 1 },
        wrap(row, 1, g.height as int) == if row + 1 == g.height { 0 } else { row + 1 },
        wrap(col, g.width - 1, g.width as int) == if col == 0 { g.width - 1 } else { col - 1 },
        wrap(col, 1, g.width as int) == if col + 1 == g.width { 0 } else { col + 1 },
        forall|a: int, b: int|
            0 <= a < g.height && 0 <= b < g.width ==> 0 <= #[trigger] g.index(a, b) < g.cells.len(),
{
    lemma_wrap(row, g.height as int);
    lemma_wrap(col, g.width as int);
    assert forall|a: int, b: int| 0 <= a < g.height && 0 <= b < g.width implies 0 <= #[trigger] g.index(
        a,
        b,
    ) < g.cells.len() by {
        lemma_index(g, a, b);
    }
}

/// A grid in which every cell is dead stays dead.
pub proof fn lemma_dead_grid_stays_dead(g: Grid)
    requires
        g.wf(),
        forall|i: int| 0 <= i < g.cells.len() ==> g.cells[i] == Cell::Dead,
    ensures
        forall|i: int| 0 <= i < g.step().cells.len() ==> g.step().cells[i] == Cell::Dead,
{
    assert forall|i: int| 0 <= i < g.step().cells.len() implies g.step().cells[i] == Cell::Dead by {
        lemma_coords(g, i);
        lemma_neighborhood(g, i / g.width as int, i % g.width as int);
    }
}

/// A living cell with fewer than two living neighbours dies.
pub proof fn lemma_underpopulation(g: Grid, row: int, col: int)
    requires
        g.wf(),
        0 <= row < g.height,
        0 <= col < g.width,
        g.at(row, col) == Cell::Alive,
        g.neighbor_count(row, col) <= 1,
    ensures
        g.step().at(row, col) == Cell::Dead,
{
    lemma_step_at(g, row, col);
}

/// A living cell with more than three living neighbours dies.
pub proof fn lemma_overpopulation(g: Grid, row: int, col: int)
    requires
        g.wf(),
        0 <= row < g.height,
        0 <= col < g.width,
        g.at(row, col) == Cell::Alive,
        g.neighbor_count(row, col) > 3,
    ensures
        g.step().at(row, col) == Cell::Dead,
{
    lemma_step_at(g, row, col);
}

/// A dead cell with exactly three living neighbours comes alive.
pub proof fn lemma_birth(g: Grid, row: int, col: int)
    requires
        g.wf(),
        0 <= row < g.height,
        0 <= col < g.width,
        g.at(row, col) == Cell::Dead,
        g.neighbor_count(row, col) == 3,
    ensures
        g.step().at(row, col) == Cell::Alive,
{
    lemma_step_at(g, row, col);
}

/// A cell of a pattern is alive exactly where the pattern says so.
proof fn lemma_pattern_at(width: nat, height: nat, alive: spec_fn(int, int) -> bool)
    requires
        width > 0,
        height > 0,
    ensures
        pattern(width, height, alive).wf(),
        forall|a: int, b: int|
            0 <= a < height && 0 <= b < width ==> #[trigger] pattern(width, height, alive).at(a, b)
                == if alive(a, b) {
                Cell::Alive
            } else {
                Cell::Dead
            },
{
    let g = pattern(width, height, alive);
    assert forall|a: int, b: int| 0 <= a < height && 0 <= b < width implies #[trigger] g.at(a, b)
        == if alive(a, b) {
        Cell::Alive
    } else {
        Cell::Dead
    } by {
        lemma_index(g, a, b);
    }
}

proof fn lemma_block_cell(width: nat, height: nat, row: int, col: int, x: int, y: int)
    requires
        width >= 3,
        height >= 3,
        0 <= row < height,
        0 <= col < width,
        0 <= x < height,
        0 <= y < width,
    ensures
        block(width, height, row, col).step().at(x, y) == block(width, height, row, col).at(x, y),
{
    let g = block(width, height, row, col);
    lemma_pattern_at(width, height, in_block(width, height, row, col));
    lemma_wrap(row, height as int);
    lemma_wrap(col, width as int);
    lemma_neighborhood(g, x, y);
    lemma_step_at(g, x, y);
}

/// A lone 2x2 block is a still life: on a grid of at least three rows and
/// three columns it is its own next generation, and so it is unchanged after
/// any number of generations.
pub proof fn lemma_block_still_life(width: nat, height: nat, row: int, col: int, n: nat)
    requires
        width >= 3,
        height >= 3,
        0 <= row < height,
        0 <= col < width,
    ensures
        block(width, height, row, col).step() == block(width, height, row, col),
        generations(block(width, height, row, col), n) == block(width, height, row, col),
    decreases n,
{
    let g = block(width, height, row, col);
    lemma_pattern_at(width, height, in_block(width, height, row, col));
    assert forall|i: int| 0 <= i < g.cells.len() implies g.step().cells[i] == g.cells[i] by {
        lemma_coords(g, i);
        lemma_block_cell(width, height, row, col, i / width as int, i % width as int);
    }
    assert(g.step().cells =~= g.cells);
    if n > 0 {
        lemma_block_still_life(width, height, row, col, (n - 1) as nat);
    }
}

proof fn lemma_horizontal_cell(width: nat, height: nat, row: int, col: int, x: int, y: int)
    requires
        width >= 4,
        height >= 4,
        0 <= row < height,
        0 <= col < width,
        0 <= x < height,
        0 <= y < width,
    ensures
        horizontal_line(width, height, row, col).step().at(x, y) == vertical_line(
            width,
            height,
            row,
            col,
        ).at(x, y),
{
    let g = horizontal_line(width, height, row, col);
    lemma_pattern_at(width, height, in_row_of_three(width, row, col));
    lemma_pattern_at(width, height, in_column_of_three(height, row, col));
    lemma_wrap(row, height as int);
    lemma_wrap(col, width as int);
    lemma_neighborhood(g, x, y);
    let up = wrap(row, height - 1, height as int);
    let down = wrap(row, 1, height as int);
    let left = wrap(col, width - 1, width as int);
    let right = wrap(col, 1, width as int);
    if x == row {
        if y == col || y == left || y == right {
        } else {
        }
    } else if x == up || x == down {
        if y == col || y == left || y == right {
        } else {
        }
    } else {
    }
    lemma_step_at(g, x, y);
}

proof fn lemma_vertical_cell(width: nat, height: nat, row: int, col: int, x: int, y: int)
    requires
        width >= 4,
        height >= 4,
        0 <= row < height,
        0 <= col < width,
        0 <= x < height,
        0 <= y < width,
    ensures
        vertical_line(width, height, row, col).step().at(x, y) == horizontal_line(
            width,
            height,
            row,
            col,
        ).at(x, y),
{
    let g = vertical_line(width, height, row, col);
    lemma_pattern_at(width, height, in_row_of_three(width, row, col));
    lemma_pattern_at(width, height, in_column_of_three(height, row, col));
    lemma_wrap(row, height as int);
    lemma_wrap(col, width as int);
    lemma_neighborhood(g, x, y);
    lemma_step_at(g, x, y);
}

/// The blinker oscillates with period two: on a grid of at least four rows
/// and four columns, three cells in a row become three cells in a column
/// through the same centre, and these become the row again.
pub proof fn lemma_blinker(width: nat, height: nat, row: int, col: int)
    requires
        width >= 4,
        height >= 4,
        0 <= row < height,
        0 <= col < width,
    ensures
        horizontal_line(width, height, row, col).step() == vertical_line(width, height, row, col),
        vertical_line(width, height, row, col).step() == horizontal_line(width, height, row, col),
        generations(horizontal_line(width, height, row, col), 2) == horizontal_line(
            width,
            height,
            row,
            col,
        ),
{
    let hz = horizontal_line(width, height, row, col);
    let vt = vertical_line(width, height, row, col);
    lemma_pattern_at(width, height, in_row_of_three(width, row, col));
    lemma_pattern_at(width, height, in_column_of_three(height, row, col));
    assert forall|i: int| 0 <= i < hz.cells.len() implies hz.step().cells[i] == vt.cells[i] by {
        lemma_coords(hz, i);
        lemma_horizontal_cell(width, height, row, col, i / width as int, i % width as int);
    }
    assert(hz.step().cells =~= vt.cells);
    assert forall|i: int| 0 <= i < vt.cells.len() implies vt.step().cells[i] == hz.cells[i] by {
        lemma_coords(vt, i);
        lemma_vertical_cell(width, height, row, col, i / width as int, i % width as int);
    }
    assert(vt.step().cells =~= hz.cells);
    assert(generations(hz, 2) == generations(hz, 1).step());
    assert(generations(hz, 1) == generations(hz, 0).step());
}

} // verus!
