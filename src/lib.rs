//! Text UI for board games: a grid of rectangular cells drawn in a terminal
//! with incremental repaint, an optional cursor and a modal message dialog.

pub mod term;
pub mod cell;
pub mod cell_grid;
pub mod game;
pub mod cursor;
pub mod board;
pub mod align;
pub mod info;
mod chars;

pub use term::Rgb;
pub use cell::{Cell, ResourceTable};
pub use cell_grid::{CellGrid, CellUpdates};
pub use game::{GameCore, GameState, KeyAction, Position};
pub use board::Board;
pub use cursor::{Cursor, Direction, Key, KeyHandleResult};
pub use info::{Info, InfoLayout};
