//! Rules engine of a Minesweeper board: mine placement, neighbour geometry,
//! opening and flagging of cells, each with a contract that Verus proves.
//!
//! - [`minesweeper`]: the board and its operations.
//! - [`model`]: the board as mathematical sets, and what each operation
//!   means on them.
//! - [`laws`]: what follows from the model, proved.
//! - [`position_set`]: the set of positions that the board keeps its mines,
//!   open cells and flags in.
//! - [`random`]: the random source that places the mines.

pub mod laws;
pub mod minesweeper;
pub mod model;
pub mod position_set;
pub mod random;
