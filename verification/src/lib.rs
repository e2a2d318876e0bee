//! Simulation core of a falling-block puzzle game: the piece shape catalog,
//! rigid piece translation, boundary and overlap collision detection, and the
//! tick-gated pacing of gravity against player input — each operation with a
//! verified contract.

pub mod zetris;
pub mod zetromino;
