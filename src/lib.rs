//! Conway's Game of Life on a rectangular grid with a configurable boundary
//! policy (toroidal wrap-around or clipped edges), with every step proved
//! against a mathematical model of the grid.
use vstd::prelude::*;

pub mod cell;
pub mod model;
pub mod grid;
pub mod timing;

verus! {

pub use crate::cell::Cell;
pub use crate::model::{GridModel, WrapMode};
pub use crate::grid::{GameOfLife, GridError};
pub use crate::timing::frame_pause;

} // verus!
