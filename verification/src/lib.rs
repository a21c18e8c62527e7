//! A verified engine for Conway's Game of Life on a toroidal grid.
//!
//! The grid is a dense, row-major sequence of two-state cells. Stepping the
//! grid one generation counts the live cells among the eight toroidal
//! neighbors of every cell and applies the classic birth/survival rule,
//! evaluated synchronously against a snapshot of the current generation.

pub mod grid;
pub mod patterns;
pub mod text;
