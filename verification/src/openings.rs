//! A two-move opening book, consulted by the length of the game so far.

use crate::rules::{Move, Position};
use std::sync::Arc;
use vstd::prelude::*;

verus! {

/// The queen's pawn from d2 to d4.
pub open spec fn queens_pawn() -> Move {
    Move { source: 11, dest: 27, promotion: None }
}

/// The king's knight from g1 to f3.
pub open spec fn kings_knight() -> Move {
    Move { source: 6, dest: 21, promotion: None }
}

/// The book move for a game with `plies` positions behind it.
pub open spec fn book_move(plies: nat) -> Option<Move> {
    if plies == 0 {
        Some(queens_pawn())
    } else if plies == 2 {
        Some(kings_knight())
    } else {
        None
    }
}

/// The book move for the game so far, if the book has one. The book goes by
/// the length of the history alone and does not look at the board.
pub fn openings(board: Box<Position>, previous_boards: Arc<Vec<u64>>) -> (m: Option<Move>)
    ensures
        m == book_move(previous_boards@.len()),
{
    if previous_boards.len() == 0 {
        Some(Move { source: 11, dest: 27, promotion: None })
    } else if previous_boards.len() == 2 {
        Some(Move { source: 6, dest: 21, promotion: None })
    } else {
        None
    }
}

} // verus!
