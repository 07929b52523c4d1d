//! Conway's Game of Life on a torus, with one bit of storage per cell.
//!
//! [`grid::Grid`] is the mathematical model of a cell field and holds the
//! transition rule; [`universe::Universe`] is the executable field, whose
//! contracts are stated over that model. [`theorems`] proves what holds of
//! every grid. [`bitset`] and [`strings`] state what is taken on trust from
//! the `fixedbitset` crate and from std.

mod arith;
pub mod bitset;
pub mod grid;
pub mod strings;
pub mod theorems;
pub mod universe;

pub use crate::universe::Universe;
