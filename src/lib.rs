//! A two-player chess engine on a fixed 8x8 board: piece movement templates,
//! the legality resolver that walks them, and the turn and selection state
//! machine, each with its contract proved.

use vstd::prelude::*;

pub mod board;
pub mod geometry;
pub mod pieces;

pub use board::{Game, Input, SelectionType, Tile};
pub use geometry::{Line, Point};
pub use pieces::{flatten, Color, MoveType, Movement, Piece, PieceType};

verus! {

} // verus!
