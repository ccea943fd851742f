use vstd::prelude::*;

verus! {

/// The state of one cell of the grid.
#[derive(Clone, Copy, Debug, PartialEq, Eq, Structural)]
pub enum Cell {
    Dead,
    Alive,
}

/// The integer a cell contributes to a living-neighbour count: 0 or 1.
pub open spec fn cell_value(c: Cell) -> nat {
    match c {
        Cell::Dead => 0,
        Cell::Alive => 1,
    }
}

/// The birth / survival / death rule: the next state of a cell in `state`
/// that has `live` living neighbours.
pub open spec fn next_state(state: Cell, live: int) -> Cell {
    match state {
        Cell::Alive => if live == 2 || live == 3 {
            Cell::Alive
        } else {
            Cell::Dead
        },
        Cell::Dead => if live == 3 {
            Cell::Alive
        } else {
            Cell::Dead
        },
    }
}

impl Cell {
    /// The cell as an integer, 0 for `Dead` and 1 for `Alive`.
    pub fn value(self) -> (r: u8)
        ensures
            r as nat == cell_value(self),
    {
        match self {
            Cell::Dead => 0,
            Cell::Alive => 1,
        }
    }

    /// The state this cell takes in the next generation, given its number of
    /// living neighbours.
    pub fn next(self, live_neighbors: u8) -> (r: Cell)
        ensures
            r == next_state(self, live_neighbors as int),
    {
        match self {
            Cell::Alive => if live_neighbors < 2 {
                // underpopulation
                Cell::Dead
            } else if live_neighbors > 3 {
                // overpopulation
                Cell::Dead
            } else {
                Cell::Alive
            },
            Cell::Dead => if live_neighbors == 3 {
                // birth
                Cell::Alive
            } else {
                Cell::Dead
            },
        }
    }
}

} // verus!
