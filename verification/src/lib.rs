//! A verified toroidal Game-of-Life engine. A `Universe` stores a flat
//! row-major grid of cells and advances it by the B3/S23 rule with
//! wraparound edges; every operation carries a contract over the `Grid`
//! model, and the classic properties of the game — still-life stability,
//! glider translation, determinism — are proved as lemmas.

pub mod cell;
pub mod glider;
pub mod grid;
pub mod laws;
pub mod universe;

pub use cell::Cell;
pub use universe::{GridError, Universe};
