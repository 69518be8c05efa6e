//! A fixed-size Game of Life engine.
//!
//! The grid is a 50 by 50 board of binary cells without wraparound. Two boards
//! alternate as the generation that is read and the generation that is
//! written, and every generation can be encoded as a row-major RGBA pixel
//! buffer for a renderer.

pub mod cell;
pub mod board;
pub mod rule;
pub mod state;

pub use crate::board::{get_coord, Board, BOARD_HEIGHT, BOARD_WIDTH, CELL_COUNT};
pub use crate::cell::Cell;
pub use crate::rule::{get_next_cell_state, live_neighbor_count, next_state, update};
pub use crate::state::{init, tick, State};
