use vstd::prelude::*;
use crate::cell::{Cell, cell_value, next_state};
use crate::model::{Grid, wrap, lemma_index, lemma_wrap};

verus! {

/// Why a universe could not be built.
#[derive(Clone, Copy, Debug, PartialEq, Eq, Structural)]
pub enum UniverseError {
    /// The width or the height is zero.
    ZeroDimension,
    /// The number of cells is not `width * height`.
    LengthMismatch,
}

/// A toroidal Game of Life universe.
///
/// `cells` holds the current generation in row-major order; `spare` is the
/// buffer that the next generation is written into, so that reading the
/// current generation is never disturbed by the writes of a tick.
pub struct Universe {
    w: u32,
    h: u32,
    cells: Vec<Cell>,
    spare: Vec<Cell>,
}

impl View for Universe {
    type V = Grid;

    closed spec fn view(&self) -> Grid {
        Grid { width: self.w as nat, height: self.h as nat, cells: self.cells@ }
    }
}

/// `(x + d) % n` on machine integers, computed without overflow.
fn wrap_add(x: u32, d: u32, n: u32) -> (r: u32)
    requires
        n > 0,
    ensures
        r as int == wrap(x as int, d as int, n as int),
        r < n,
{
    ((x as u64 + d as u64) % (n as u64)) as u32
}

impl Universe {
    #[verifier::type_invariant]
    spec fn well_formed(self) -> bool {
        self@.wf()
    }

    /// Builds a universe of the given dimensions from its cells in row-major
    /// order. Fails when a dimension is zero, or else when the number of
    /// cells is not `width * height`.
    pub fn new(width: u32, height: u32, cells: Vec<Cell>) -> (r: Result<Universe, UniverseError>)
        ensures
            (width == 0 || height == 0) <==> r == Err::<Universe, UniverseError>(
                UniverseError::ZeroDimension,
            ),
            (width > 0 && height > 0 && cells@.len() != width * height) <==> r == Err::<
                Universe,
                UniverseError,
            >(UniverseError::LengthMismatch),
            r is Ok <==> (width > 0 && height > 0 && cells@.len() == width * height),
            r matches Ok(u) ==> u@ == (Grid {
                width: width as nat,
                height: height as nat,
                cells: cells@,
            }),
    {
        if width == 0 || height == 0 {
            return Err(UniverseError::ZeroDimension);
        }
        proof {
            assert(width as int * height as int <= u32::MAX as int * u32::MAX as int)
                by (nonlinear_arith)
                requires
                    width <= u32::MAX,
                    height <= u32::MAX,
            ;
        }
        if cells.len() as u64 != width as u64 * height as u64 {
            return Err(UniverseError::LengthMismatch);
        }
        Ok(Universe { w: width, h: height, cells, spare: Vec::new() })
    }

    /// The number of columns.
    pub fn width(&self) -> (r: u32)
        ensures
            r as nat == self@.width,
    {
        self.w
    }

    /// The number of rows.
    pub fn height(&self) -> (r: u32)
        ensures
            r as nat == self@.height,
    {
        self.h
    }

    /// The current generation, in row-major order.
    pub fn cells(&self) -> (r: &[Cell])
        ensures
            r@ == self@.cells,
    {
        self.cells.as_slice()
    }

    /// The flat offset `row * width + column` of an in-range cell.
    pub fn get_pos(&self, row: u32, column: u32) -> (r: usize)
        requires
            row < self@.height,
            column < self@.width,
        ensures
            r as int == self@.index(row as int, column as int),
            r < self@.cells.len(),
    {
        proof {
            use_type_invariant(self);
            lemma_index(self@, row as int, column as int);
        }
        // the offset is below the buffer's length, which fits in a usize
        let len = self.cells.len();
        proof {
            assert(self@.index(row as int, column as int) < len);
        }
        row as usize * self.w as usize + column as usize
    }

    /// 1 when the in-range cell `(row, column)` is alive, else 0.
    fn live_at(&self, row: u32, column: u32) -> (r: u8)
        requires
            row < self@.height,
            column < self@.width,
        ensures
            r as nat == self@.live(row as int, column as int),
    {
        self.cells[self.get_pos(row, column)].value()
    }

    /// The number of living cells among the eight neighbours of
    /// `(row, column)`, with the grid's edges wrapping around.
    pub fn live_neighbor_count(&self, row: u32, column: u32) -> (r: u8)
        requires
            row < self@.height,
            column < self@.width,
        ensures
            r as nat == self@.neighbor_count(row as int, column as int),
            r <= 8,
    {
        proof {
            use_type_invariant(self);
        }
        let up = wrap_add(row, self.h - 1, self.h);
        let down = wrap_add(row, 1, self.h);
        let left = wrap_add(column, self.w - 1, self.w);
        let right = wrap_add(column, 1, self.w);
        self.live_at(up, left) + self.live_at(up, column) + self.live_at(up, right)
            + self.live_at(row, left) + self.live_at(row, right)
            + self.live_at(down, left) + self.live_at(down, column) + self.live_at(down, right)
    }

    /// Advances the universe by one generation. Every cell of the next
    /// generation is computed from the current one alone, then the new
    /// generation replaces the current one as a whole.
    pub fn tick(&mut self)
        ensures
            final(self)@ == old(self)@.step(),
            final(self)@.wf(),
    {
        proof {
            use_type_invariant(&*self);
        }
        let ghost g = self@;
        let mut next: Vec<Cell> = Vec::new();
        std::mem::swap(&mut next, &mut self.spare);
        next.clear();
        let mut row: u32 = 0;
        while row < self.h
            invariant
                self@ == g,
                g.wf(),
                0 <= row <= g.height,
                next@.len() == row * g.width,
                forall|i: int| 0 <= i < next@.len() ==> next@[i] == g.step().cells[i],
            decreases g.height - row,
        {
            let mut col: u32 = 0;
            while col < self.w
                invariant
                    self@ == g,
                    g.wf(),
                    0 <= row < g.height,
                    0 <= col <= g.width,
                    next@.len() == row * g.width + col,
                    forall|i: int| 0 <= i < next@.len() ==> next@[i] == g.step().cells[i],
                decreases g.width - col,
            {
                let id = self.get_pos(row, col);
                let cell = self.cells[id];
                let live = self.live_neighbor_count(row, col);
                proof {
                    lemma_index(g, row as int, col as int);
                }
                next.push(cell.next(live));
                col += 1;
            }
            assert(next@.len() == (row + 1) * g.width) by (nonlinear_arith)
                requires
                    next@.len() == row * g.width + g.width,
            ;
            row += 1;
        }
        assert(next@.len() == g.cells.len()) by (nonlinear_arith)
            requires
                next@.len() == g.height * g.width,
                g.cells.len() == g.width * g.height,
        ;
        assert(next@ =~= g.step().cells);
        std::mem::swap(&mut self.cells, &mut next);
        self.spare = next;
    }
}

} // verus!
