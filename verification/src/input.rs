//! Moves as a player names them.
//!
//! A square is named by the letter of its file, `a` to `h`, and the number of
//! its rank, `1` to `8`. The letter may be a capital: `E4` names the square
//! `e4`. Whatever follows these two characters is not read.

use crate::rules::{fen_after, legal_moves_of, Move, Position};
use vstd::prelude::*;

verus! {

/// Why a move that a player named was not played.
#[derive(Clone, Copy, Debug, PartialEq, Eq, Structural)]
pub enum Refusal {
    /// One of the two names is not the name of a square.
    NoSuchSquare,
    /// The squares exist, but the rules do not allow the move.
    Illegal,
}

/// The file that a letter names, counted from 0: `a` or `A` is the first,
/// `h` or `H` the last. Other characters name none.
pub open spec fn file_named(letter: char) -> Option<int> {
    if 'a' <= letter <= 'h' {
        Some(letter as int - 'a' as int)
    } else if 'A' <= letter <= 'H' {
        Some(letter as int - 'A' as int)
    } else {
        None
    }
}

/// The rank that a digit names, counted from 0: `1` is the first, `8` the
/// last. Other characters name none.
pub open spec fn rank_named(digit: char) -> Option<int> {
    if '1' <= digit <= '8' {
        Some(digit as int - '1' as int)
    } else {
        None
    }
}

/// Whether a name starts with a file and a rank.
pub open spec fn names_square(name: Seq<char>) -> bool {
    &&& name.len() >= 2
    &&& file_named(name[0]).is_some()
    &&& rank_named(name[1]).is_some()
}

/// The number of the square with the given name: eight for every rank below
/// its own, and one for every file to the left of its own.
pub open spec fn square_named(name: Seq<char>) -> Option<u8> {
    if names_square(name) {
        Some((rank_named(name[1]).unwrap() * 8 + file_named(name[0]).unwrap()) as u8)
    } else {
        None
    }
}

/// The move from one named square to another, without promotion.
pub open spec fn move_named(piece: Seq<char>, to: Seq<char>) -> Option<Move> {
    match (square_named(piece), square_named(to)) {
        (Some(source), Some(dest)) => Some(Move { source, dest, promotion: None }),
        _ => None,
    }
}

/// Reads the name of a square.
pub fn parse_square(name: &str) -> (square: Option<u8>)
    ensures
        square == square_named(name@),
        square matches Some(n) ==> n < 64,
{
    if name.unicode_len() < 2 {
        return None;
    }
    let file = name.get_char(0);
    let rank = name.get_char(1);
    let across: u32 = if 'a' <= file && file <= 'h' {
        file as u32 - 'a' as u32
    } else if 'A' <= file && file <= 'H' {
        file as u32 - 'A' as u32
    } else {
        return None;
    };
    if '1' <= rank && rank <= '8' {
        let up: u32 = rank as u32 - '1' as u32;
        Some((up * 8 + across) as u8)
    } else {
        None
    }
}

/// Plays the move from the square named `piece` to the square named `to`,
/// if there are such squares and the move is legal.
pub fn make_move(
    piece: &str,
    to: &str,
    board: &Position,
) -> (played: Result<(Move, Position), Refusal>)
    ensures
        match played {
            Ok((m, next)) => {
                &&& move_named(piece@, to@) == Some(m)
                &&& legal_moves_of(board@).contains(m)
                &&& next@ == fen_after(board@, m)
            },
            Err(Refusal::NoSuchSquare) => move_named(piece@, to@).is_none(),
            Err(Refusal::Illegal) => {
                &&& move_named(piece@, to@) matches Some(m)
                &&& !legal_moves_of(board@).contains(m)
            },
        },
{
    let source = match parse_square(piece) {
        Some(square) => square,
        None => {
            return Err(Refusal::NoSuchSquare);
        },
    };
    let dest = match parse_square(to) {
        Some(square) => square,
        None => {
            return Err(Refusal::NoSuchSquare);
        },
    };
    let m = Move { source, dest, promotion: None };
    match board.try_apply(m) {
        Some(next) => Ok((m, next)),
        None => Err(Refusal::Illegal),
    }
}

} // verus!
