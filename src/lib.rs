//! A Rule 30 automaton feeding Conway's Game of Life.
//!
//! Each tick, the one-dimensional automaton produces a new row; the oldest row
//! of its sliding window falls into the bottom row of the Life grid, which then
//! advances one generation.
pub mod backend;
pub mod conway;
pub mod rule30;
pub mod simulation;
pub mod theorems;

pub use backend::Backend;
pub use conway::Conway;
pub use rule30::{next_row, Rule30};
pub use simulation::{ConfigError, Rule30Conway};
