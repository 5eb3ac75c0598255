//! A verified core for Conway's Game of Life on a toroidal grid.
//!
//! The library owns the simulation state: a double-buffered grid of binary
//! cells, the toroidal neighbor-counting step function, and the mapping from
//! cell states to pixel colors. Window presentation, input polling and frame
//! pacing live outside the library.
#![allow(unused_imports)]
use vstd::prelude::*;

pub mod grid;
pub mod life;
mod rng;
pub mod stepper;
