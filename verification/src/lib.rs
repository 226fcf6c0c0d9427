//! A chess rules engine on bitboards: board state, pseudo-legal move
//! generation, check detection, a simulate-then-validate legality filter,
//! and a mutator that applies moves (captures, en passant, promotion,
//! castling) while flipping the side to move.

use vstd::prelude::*;

pub mod apply;
pub mod bitboard;
pub mod board;
pub mod check;
pub mod gen;
pub mod rules;
pub mod square;

pub use crate::bitboard::BitBoard;
pub use crate::board::ChessBoard;
pub use crate::board::Color;
pub use crate::board::Move;
pub use crate::board::PieceKind;
pub use crate::square::ChessError;
pub use crate::square::Square;
pub use crate::square::square_from_i32;
pub use crate::square::square_from_string;

verus! {

/// Sum of two counters; the caller keeps the sum within range.
pub fn add(left: usize, right: usize) -> (sum: usize)
    requires
        left + right <= usize::MAX,
    ensures
        sum == left + right,
{
    left + right
}

} // verus!
