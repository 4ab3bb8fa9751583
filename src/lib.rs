//! A chess position held as one occupancy mask per kind of piece, the
//! board layout read from those masks, and the position's FEN text form in
//! both directions.
use vstd::prelude::*;

pub mod bitboard;
pub mod board;
pub mod castle;
pub mod display;
pub mod drawing;
pub mod fen;
pub mod piece;
pub mod square;
pub mod text;

pub use bitboard::{BitBoard, BitBoardType};
pub use board::{BitBoardState, GameState};
pub use fen::{FenError, FenField};
pub use castle::{CastleAvailability, CastleError};
pub use display::convert_to_chess_pieces;
pub use piece::{Color, ColorError, Piece, PieceError, PieceType};
pub use square::{Square, SquareError};

verus! {

} // verus!
