//! A toroidal Game of Life engine: a fixed-size grid of cells whose edges
//! wrap around, advanced one generation at a time by the classic 2/3/3 rule.
pub mod cell;
pub mod model;
pub mod universe;
pub mod laws;

pub use cell::Cell;
pub use model::Grid;
pub use universe::{Universe, UniverseError};
