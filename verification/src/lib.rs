//! A verified forest-fire cellular automaton on a square grid.
//!
//! Each cell is `Empty`, `Tree`, `Burning` or `Burned`. A step turns every
//! `Burning` cell into `Burned` and lets fire spread from burning cells to
//! 4-connected `Tree` neighbors, each with a caller-chosen probability.

pub mod automaton;
pub mod grid;
pub mod laws;
pub mod prob;
pub mod random;

pub use automaton::{choose_ignition, initialize, new_random, step, step_rel};
pub use grid::{Cell, Grid, neighbors4};
pub use prob::{FireError, Prob};
