//! A move chooser for chess.
//!
//! Given a position, the side it plays and the game so far, the engine picks
//! a move by a depth-limited alpha-beta search, scored by material and mate.
//! The rules of chess are the `chess` crate's: it lists the legal moves,
//! plays them and tells when a game is over.
//!
//! - [`rules`] is the boundary with the rules engine: positions, moves, and
//!   the names under which the engine's answers enter the contracts.
//! - [`outcomes`] holds the weights and how a single move is scored.
//! - [`repetition`] is the guard against a third occurrence of a position.
//! - [`search`] is the searcher below the root.
//! - [`dispatch`] scores the root moves and chooses among them.
//! - [`gather`] puts candidates that were scored side by side back in order.
//! - [`openings`] is a small opening book.
//!
//! Around the engine, for a game at the console:
//!
//! - [`input`] reads a move from the names of two squares.
//! - [`gameboard`] draws a position as text.
//! - [`duplicate`] finds the boards that a game log shows more than once.

pub mod dispatch;
pub mod duplicate;
pub mod gameboard;
pub mod gather;
pub mod input;
pub mod openings;
pub mod outcomes;
pub mod repetition;
pub mod rules;
pub mod search;

pub use crate::dispatch::{
    candidate_for, candidates, do_move, root_moves, select, select_move, try_candidate_for,
    Candidate,
};
pub use crate::gather::{arrange, Report};
pub use crate::openings::openings;
pub use crate::outcomes::{Outcomes, Settings};
pub use crate::repetition::{is_threefold, repeats_position};
pub use crate::rules::{Move, PieceKind, Position, Side, Status};
pub use crate::search::{search_max, search_min};
