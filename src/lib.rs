//! Othello move generation, move making and fixed-depth negamax search on
//! bitboards kept relative to the side to move.

pub mod bitboard;
pub mod board;
pub mod perft;
pub mod search;
pub mod squares;
pub mod state;

pub use bitboard::Bitboard;
pub use board::{extract_lsb, Board, InvalidMoveError, Move};
pub use perft::perft;
pub use search::negamax;
pub use state::{GameState, MoveType, Side};
