//! Conway's Game of Life on a fixed-size rectangular grid with clipped edges.
//!
//! A generation is advanced by counting, for every cell, the live cells of its
//! 3x3 neighbourhood (the cell itself included, positions beyond the border
//! left out) and applying the birth and survival rule to that count. Every
//! executable function carries a contract over the mathematical [`Board`].

pub mod board;
pub mod grid;
pub mod init;
pub mod laws;
pub mod rules;

pub use board::Board;
pub use grid::{Grid, GridError};
pub use init::{init_cells_bitpattern, init_cells_bitrandom};
pub use rules::next_state;
