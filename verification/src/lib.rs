//! A forest-fire cellular automaton on a 2D grid.
//!
//! Each cell ("tree") advances through a small probabilistic state machine
//! (dormant, alive, struck by lightning, burning, dead) once per tick.  The
//! grid engine keeps two equally sized buffers and advances a whole
//! generation at a time, reading only the current buffer and writing only
//! the next one, so that no cell's transition can see another cell's
//! transition from the same tick.

pub mod forest;
pub mod position;
pub mod random;
pub mod tree;
pub mod tree_builder;
