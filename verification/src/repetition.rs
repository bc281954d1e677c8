//! The repetition guard.
//!
//! A game's history is the list of fingerprints of the positions it went
//! through, oldest first. A fingerprint that the history already holds twice
//! must not come up a third time.
//!
//! The guard is asked before a position is entered in the history: it counts
//! the occurrences that are already there, and the position asked about is
//! not one of them. A fingerprint is the set of squares one side occupies, so
//! positions that differ only in which piece stands where share it.

use crate::rules::{fen_after, legal_moves_of, occupancy_of, Move, Position, Side};
use std::sync::Arc;
use vstd::prelude::*;

verus! {

/// How often a fingerprint occurs in a history.
pub open spec fn occurrences(history: Seq<u64>, fingerprint: u64) -> nat {
    history.to_multiset().count(fingerprint)
}

/// Whether a fingerprint has been seen twice or more.
pub open spec fn is_repeated(fingerprint: u64, history: Seq<u64>) -> bool {
    occurrences(history, fingerprint) >= 2
}

/// One more entry raises the count of its own fingerprint by one and leaves
/// every other count alone.
pub proof fn lemma_occurrences_push(history: Seq<u64>, entry: u64, fingerprint: u64)
    ensures
        entry == fingerprint ==> occurrences(history.push(entry), fingerprint) == occurrences(
            history,
            fingerprint,
        ) + 1,
        entry != fingerprint ==> occurrences(history.push(entry), fingerprint) == occurrences(
            history,
            fingerprint,
        ),
{
    vstd::seq_lib::to_multiset_build(history, entry);
}

/// Two places that hold a fingerprint make it occur twice or more.
proof fn lemma_two_places(history: Seq<u64>, fingerprint: u64, first: int, second: int)
    requires
        0 <= first < second < history.len(),
        history[first] == fingerprint,
        history[second] == fingerprint,
    ensures
        occurrences(history, fingerprint) >= 2,
    decreases history.len(),
{
    let front = history.drop_last();
    assert(history == front.push(history.last()));
    lemma_occurrences_push(front, history.last(), fingerprint);
    if second == history.len() - 1 {
        // The last entry is one occurrence, and the front holds another.
        front.to_multiset_ensures();
    } else {
        lemma_two_places(front, fingerprint, first, second);
    }
}

/// A history that holds a fingerprint at two places makes the guard report
/// it, whatever else the history holds.
pub proof fn lemma_seen_twice_is_repeated(
    history: Seq<u64>,
    fingerprint: u64,
    first: int,
    second: int,
)
    requires
        0 <= first < history.len(),
        0 <= second < history.len(),
        first != second,
        history[first] == fingerprint,
        history[second] == fingerprint,
    ensures
        is_repeated(fingerprint, history),
{
    if first < second {
        lemma_two_places(history, fingerprint, first, second);
    } else {
        lemma_two_places(history, fingerprint, second, first);
    }
}

/// Whether `board` already occurs twice or more in `boards`.
pub fn is_threefold(board: u64, boards: &Arc<Vec<u64>>) -> (repeated: bool)
    ensures
        repeated == is_repeated(board, boards@),
{
    let mut seen: usize = 0;
    let mut i: usize = 0;
    proof {
        boards@.take(0).to_multiset_ensures();
    }
    while i < boards.len()
        invariant
            i <= boards.len(),
            seen <= i,
            seen == occurrences(boards@.take(i as int), board),
        decreases boards.len() - i,
    {
        proof {
            assert(boards@.take(i + 1) == boards@.take(i as int).push(boards@[i as int]));
            lemma_occurrences_push(boards@.take(i as int), boards@[i as int], board);
        }
        if boards[i] == board {
            seen += 1;
        }
        i += 1;
    }
    assert(boards@.take(i as int) == boards@);
    seen >= 2
}

/// Whether `m` can be played and would bring up, for `side`, a fingerprint
/// that the history already holds twice.
pub fn repeats_position(
    board: &Position,
    m: Move,
    side: Side,
    boards: &Arc<Vec<u64>>,
) -> (repeated: bool)
    ensures
        repeated == (legal_moves_of(board@).contains(m) && is_repeated(
            occupancy_of(fen_after(board@, m), side),
            boards@,
        )),
{
    match board.try_apply(m) {
        Some(next) => is_threefold(next.fingerprint(side), boards),
        None => false,
    }
}

} // verus!
