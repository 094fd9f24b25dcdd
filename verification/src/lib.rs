//! Verified core of a configurable two-dimensional cellular automaton: a
//! toroidal grid of integer cell states, birth/survival rule tables with an
//! optional lifetime variant, the generational step function, and the
//! scheduling discipline that keeps at most one background step in flight.
//!
//! Rendering, window management and input polling are left to the embedding
//! program; the core only consumes and exposes plain data.

pub mod board;
pub mod config;
pub mod controller;
pub mod render;
pub mod rules;
pub mod step;
