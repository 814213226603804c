//! A verified engine for a two-player vertical-grid token game.
//!
//! Players drop tokens into columns of a fixed 6 x 7 board; a token settles
//! at the lowest empty cell of its column, and the first player to align
//! four of their tokens horizontally, vertically or diagonally wins. If the
//! board fills without such an alignment the game is a draw.
//!
//! The board state machine (placement, gravity resolution, win and draw
//! detection) lives here with full contracts; rendering and terminal input
//! are left to callers.

pub mod game;
pub mod grid;
pub mod laws;
pub mod pawn;

pub use game::ConnectFour;
pub use game::GameError;
pub use grid::MAX_COL;
pub use grid::MAX_ROW;
pub use grid::MIN_CONNECT;
pub use pawn::Pawn;
