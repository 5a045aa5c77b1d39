//! A two-dimensional wave solver on a finite-difference grid.
//!
//! The solver's structure (which cells are read, which are written, in what
//! order, and how the time layers move) is verified here for any amplitude
//! type.  The per-cell arithmetic is handed in by the caller as update rules.
pub mod boundary;
pub mod config;
pub mod forcing;
pub mod grid;
pub mod laws;
pub mod solver;
pub mod stencil;

pub use boundary::update_with_absorbing_boundary;
pub use config::{ConfigError, GridShape, StencilKind};
pub use forcing::{apply_force, source_cell};
pub use grid::{filled, Grid};
pub use solver::{damp_grid, tick, Command, Rules, Solver};
pub use stencil::{
    update_with_laplace_operator_1, update_with_laplace_operator_4, Arm, Cross, WideCross,
};
