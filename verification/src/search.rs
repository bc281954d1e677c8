//! The bounded minimax searcher.
//!
//! Plies alternate between the engine, which maximizes, and its opponent, who
//! minimizes. Every move adds its own contribution to the total gathered on
//! the way down; below the last ply nothing is searched. Alpha and beta cut a
//! ply short as soon as one of its moves reaches the bound.

use crate::outcomes::{add_scores, clamp_score, Settings};
use crate::rules::{capture_of, fen_after, legal_moves_of, status_of, Position, Status};
use std::sync::Arc;
use vstd::prelude::*;

verus! {

/// The better of a score and the best one before it: the larger on the
/// engine's plies, the smaller on the opponent's.
pub open spec fn better_of(maximizing: bool, best: Option<int>, score: int) -> int {
    match best {
        None => score,
        Some(b) => if maximizing {
            if score > b {
                score
            } else {
                b
            }
        } else {
            if score < b {
                score
            } else {
                b
            }
        },
    }
}

/// What one move is worth before anything below it is searched: its own
/// contribution on top of the total so far.
pub open spec fn move_base(
    settings: Settings,
    maximizing: bool,
    fen: Seq<char>,
    total: int,
    at: int,
) -> int {
    let m = legal_moves_of(fen)[at];
    let mates = status_of(fen_after(fen, m)) == Status::Checkmate;
    clamp_score(settings.local_score(capture_of(fen, m), mates, maximizing) + total)
}

/// The value of a ply, taken up at its move number `from` with `best` the
/// best score of the moves before.
///
/// `depth` counts the plies above this one. A ply with `depth + 1` at the
/// maximum is a leaf: its moves score their base. Elsewhere a move scores its
/// base plus the value of the ply below, or plus nothing where that ply has
/// no moves. On the engine's plies a score at or above `beta` ends the ply
/// with `beta`, and a score above `alpha` replaces it; the opponent's plies
/// mirror this. A ply that ran through all its moves is worth the best score,
/// and a ply without moves has no value.
pub open spec fn ply_value(
    settings: Settings,
    maximizing: bool,
    alpha: int,
    beta: int,
    fen: Seq<char>,
    depth: nat,
    total: int,
    from: nat,
    best: Option<int>,
) -> Option<int>
    decreases settings.max_depth - depth, legal_moves_of(fen).len() - from,
{
    let moves = legal_moves_of(fen);
    if from >= moves.len() {
        best
    } else {
        let base = move_base(settings, maximizing, fen, total, from as int);
        if depth + 1 < settings.max_depth {
            let below = ply_value(
                settings,
                !maximizing,
                alpha,
                beta,
                fen_after(fen, moves[from as int]),
                depth + 1,
                base,
                0,
                None,
            );
            let score = clamp_score(
                base + match below {
                    Some(v) => v,
                    None => 0,
                },
            );
            let best = Some(better_of(maximizing, best, score));
            if maximizing {
                if score >= beta {
                    Some(beta)
                } else if score > alpha {
                    ply_value(settings, maximizing, score, beta, fen, depth, total, from + 1, best)
                } else {
                    ply_value(settings, maximizing, alpha, beta, fen, depth, total, from + 1, best)
                }
            } else {
                if score <= alpha {
                    Some(alpha)
                } else if score < beta {
                    ply_value(settings, maximizing, alpha, score, fen, depth, total, from + 1, best)
                } else {
                    ply_value(settings, maximizing, alpha, beta, fen, depth, total, from + 1, best)
                }
            }
        } else {
            ply_value(
                settings,
                maximizing,
                alpha,
                beta,
                fen,
                depth,
                total,
                from + 1,
                Some(better_of(maximizing, best, base)),
            )
        }
    }
}

/// The value of a whole ply.
pub open spec fn search_value(
    settings: Settings,
    maximizing: bool,
    alpha: int,
    beta: int,
    fen: Seq<char>,
    depth: nat,
    total: int,
) -> Option<int> {
    ply_value(settings, maximizing, alpha, beta, fen, depth, total, 0, None)
}

/// Whether a number is a score.
pub open spec fn is_score(x: int) -> bool {
    i64::MIN <= x <= i64::MAX
}

/// Between bounds that are scores, and with a best so far that is a score,
/// the value of a ply is a score.
pub proof fn lemma_value_is_a_score(
    settings: Settings,
    maximizing: bool,
    alpha: int,
    beta: int,
    fen: Seq<char>,
    depth: nat,
    total: int,
    from: nat,
    best: Option<int>,
)
    requires
        is_score(alpha),
        is_score(beta),
        best matches Some(b) ==> is_score(b),
    ensures
        ply_value(settings, maximizing, alpha, beta, fen, depth, total, from, best) matches Some(v)
            ==> is_score(v),
    decreases legal_moves_of(fen).len() - from,
{
    let moves = legal_moves_of(fen);
    if from < moves.len() {
        let base = move_base(settings, maximizing, fen, total, from as int);
        if depth + 1 < settings.max_depth {
            let below = ply_value(
                settings,
                !maximizing,
                alpha,
                beta,
                fen_after(fen, moves[from as int]),
                depth + 1,
                base,
                0,
                None,
            );
            let score = clamp_score(
                base + match below {
                    Some(v) => v,
                    None => 0,
                },
            );
            let next = Some(better_of(maximizing, best, score));
            let low = if maximizing && score > alpha {
                score
            } else {
                alpha
            };
            let high = if !maximizing && score < beta {
                score
            } else {
                beta
            };
            lemma_value_is_a_score(
                settings,
                maximizing,
                low,
                high,
                fen,
                depth,
                total,
                from + 1,
                next,
            );
        } else {
            lemma_value_is_a_score(
                settings,
                maximizing,
                alpha,
                beta,
                fen,
                depth,
                total,
                from + 1,
                Some(better_of(maximizing, best, base)),
            );
        }
    }
}

/// What a move of a ply that is not a leaf scores between the bounds as they
/// stand when the move is reached: its base plus the value of the ply below,
/// or plus nothing where that ply has no moves.
pub open spec fn move_score(
    settings: Settings,
    maximizing: bool,
    alpha: int,
    beta: int,
    fen: Seq<char>,
    depth: nat,
    total: int,
    at: int,
) -> int {
    let base = move_base(settings, maximizing, fen, total, at);
    let below = ply_value(
        settings,
        !maximizing,
        alpha,
        beta,
        fen_after(fen, legal_moves_of(fen)[at]),
        depth + 1,
        base,
        0,
        None,
    );
    clamp_score(
        base + match below {
            Some(v) => v,
            None => 0,
        },
    )
}

/// A ply of the engine's ends at the first move that scores `beta` or more,
/// and is then worth exactly `beta`, whatever the moves before it scored.
pub proof fn lemma_cut_at_beta(
    settings: Settings,
    alpha: int,
    beta: int,
    fen: Seq<char>,
    depth: nat,
    total: int,
    from: nat,
    best: Option<int>,
)
    requires
        depth + 1 < settings.max_depth,
        from < legal_moves_of(fen).len(),
        move_score(settings, true, alpha, beta, fen, depth, total, from as int) >= beta,
    ensures
        ply_value(settings, true, alpha, beta, fen, depth, total, from, best) == Some(beta),
{
}

/// A ply of the opponent's ends at the first move that scores `alpha` or
/// less, and is then worth exactly `alpha`.
pub proof fn lemma_cut_at_alpha(
    settings: Settings,
    alpha: int,
    beta: int,
    fen: Seq<char>,
    depth: nat,
    total: int,
    from: nat,
    best: Option<int>,
)
    requires
        depth + 1 < settings.max_depth,
        from < legal_moves_of(fen).len(),
        move_score(settings, false, alpha, beta, fen, depth, total, from as int) <= alpha,
    ensures
        ply_value(settings, false, alpha, beta, fen, depth, total, from, best) == Some(alpha),
{
}

/// Whether the search of `fen`, with `depth` plies above it, can come to the
/// ply `below` with `at` plies above it: a ply comes to itself and, unless it
/// is a leaf, to whatever the plies after its moves come to. The bounds can
/// only keep the search from some of these plies, never lead it to others.
pub open spec fn reaches(
    settings: Settings,
    fen: Seq<char>,
    depth: nat,
    below: Seq<char>,
    at: nat,
) -> bool
    decreases settings.max_depth - depth,
{
    ||| (below == fen && at == depth)
    ||| (depth + 1 < settings.max_depth && exists|i: int|
        0 <= i < legal_moves_of(fen).len() && reaches(
            settings,
            fen_after(fen, #[trigger] legal_moves_of(fen)[i]),
            depth + 1,
            below,
            at,
        ))
}

/// No ply is searched beyond the maximum depth: a search that starts above
/// the maximum only comes to plies above the maximum, so the count of plies,
/// raised by one on entering a ply, never exceeds it.
pub proof fn lemma_depth_is_bounded(
    settings: Settings,
    fen: Seq<char>,
    depth: nat,
    below: Seq<char>,
    at: nat,
)
    requires
        depth < settings.max_depth,
        reaches(settings, fen, depth, below, at),
    ensures
        depth <= at,
        at + 1 <= settings.max_depth,
    decreases settings.max_depth - depth,
{
    if !(below == fen && at == depth) {
        let i = choose|i: int|
            0 <= i < legal_moves_of(fen).len() && reaches(
                settings,
                fen_after(fen, #[trigger] legal_moves_of(fen)[i]),
                depth + 1,
                below,
                at,
            );
        lemma_depth_is_bounded(
            settings,
            fen_after(fen, legal_moves_of(fen)[i]),
            depth + 1,
            below,
            at,
        );
    }
}

/// Whether none of the moves from `from` on has a base better than `value`.
pub open spec fn no_base_better(
    settings: Settings,
    maximizing: bool,
    fen: Seq<char>,
    total: int,
    from: int,
    value: int,
) -> bool {
    forall|i: int|
        from <= i < legal_moves_of(fen).len() ==> if maximizing {
            #[trigger] move_base(settings, maximizing, fen, total, i) <= value
        } else {
            #[trigger] move_base(settings, maximizing, fen, total, i) >= value
        }
}

/// Whether `value` is the base of one of the moves from `from` on.
pub open spec fn is_base(
    settings: Settings,
    maximizing: bool,
    fen: Seq<char>,
    total: int,
    from: int,
    value: int,
) -> bool {
    exists|i: int|
        from <= i < legal_moves_of(fen).len() && value == move_base(
            settings,
            maximizing,
            fen,
            total,
            i,
        )
}

/// Whether `value` is the best among the bases of the moves from `from` on:
/// the base of one of them, and none of them better.
pub open spec fn is_best_base(
    settings: Settings,
    maximizing: bool,
    fen: Seq<char>,
    total: int,
    from: int,
    value: int,
) -> bool {
    &&& is_base(settings, maximizing, fen, total, from, value)
    &&& no_base_better(settings, maximizing, fen, total, from, value)
}

/// A ply has a value exactly when a move was scored: before its last move
/// it always has one to come, after it only the best so far.
pub proof fn lemma_value_with_moves(
    settings: Settings,
    maximizing: bool,
    alpha: int,
    beta: int,
    fen: Seq<char>,
    depth: nat,
    total: int,
    from: nat,
    best: Option<int>,
)
    ensures
        ply_value(settings, maximizing, alpha, beta, fen, depth, total, from, best).is_some() <==> (
        best.is_some() || from < legal_moves_of(fen).len()),
    decreases legal_moves_of(fen).len() - from,
{
    let moves = legal_moves_of(fen);
    if from < moves.len() {
        let base = move_base(settings, maximizing, fen, total, from as int);
        if depth + 1 < settings.max_depth {
            let below = ply_value(
                settings,
                !maximizing,
                alpha,
                beta,
                fen_after(fen, moves[from as int]),
                depth + 1,
                base,
                0,
                None,
            );
            let score = clamp_score(
                base + match below {
                    Some(v) => v,
                    None => 0,
                },
            );
            let next = Some(better_of(maximizing, best, score));
            let low = if maximizing && score > alpha {
                score
            } else {
                alpha
            };
            let high = if !maximizing && score < beta {
                score
            } else {
                beta
            };
            lemma_value_with_moves(
                settings,
                maximizing,
                low,
                high,
                fen,
                depth,
                total,
                from + 1,
                next,
            );
        } else {
            lemma_value_with_moves(
                settings,
                maximizing,
                alpha,
                beta,
                fen,
                depth,
                total,
                from + 1,
                Some(better_of(maximizing, best, base)),
            );
        }
    }
}

/// A position without legal moves has no value, at any depth and between any
/// bounds; every other position has one.
pub proof fn lemma_no_value_without_moves(
    settings: Settings,
    maximizing: bool,
    alpha: int,
    beta: int,
    fen: Seq<char>,
    depth: nat,
    total: int,
)
    ensures
        search_value(settings, maximizing, alpha, beta, fen, depth, total).is_none()
            <==> legal_moves_of(fen).len() == 0,
{
    lemma_value_with_moves(settings, maximizing, alpha, beta, fen, depth, total, 0, None);
}

/// On a leaf, the moves still to come can only replace the best so far by a
/// base that is better, and leave a value that none of their bases betters.
proof fn lemma_leaf_scan(
    settings: Settings,
    maximizing: bool,
    alpha: int,
    beta: int,
    fen: Seq<char>,
    depth: nat,
    total: int,
    from: nat,
    best: int,
)
    requires
        depth + 1 >= settings.max_depth,
        from <= legal_moves_of(fen).len(),
    ensures
        ply_value(settings, maximizing, alpha, beta, fen, depth, total, from, Some(best))
            matches Some(value) && {
            &&& value == best || is_base(settings, maximizing, fen, total, from as int, value)
            &&& no_base_better(settings, maximizing, fen, total, from as int, value)
            &&& if maximizing {
                best <= value
            } else {
                best >= value
            }
        },
    decreases legal_moves_of(fen).len() - from,
{
    if from < legal_moves_of(fen).len() {
        let base = move_base(settings, maximizing, fen, total, from as int);
        let next = better_of(maximizing, Some(best), base);
        lemma_leaf_scan(settings, maximizing, alpha, beta, fen, depth, total, from + 1, next);
    }
}

/// A leaf does not look below its moves and does not heed the bounds: it is
/// worth the best of its moves' bases.
pub proof fn lemma_leaf_value(
    settings: Settings,
    maximizing: bool,
    alpha: int,
    beta: int,
    fen: Seq<char>,
    depth: nat,
    total: int,
)
    requires
        depth + 1 >= settings.max_depth,
        legal_moves_of(fen).len() > 0,
    ensures
        search_value(settings, maximizing, alpha, beta, fen, depth, total) matches Some(value)
            && is_best_base(settings, maximizing, fen, total, 0, value),
{
    let first = move_base(settings, maximizing, fen, total, 0);
    lemma_leaf_scan(settings, maximizing, alpha, beta, fen, depth, total, 1, first);
}

/// A score as a mathematical integer.
pub open spec fn as_value(score: Option<i64>) -> Option<int> {
    match score {
        Some(v) => Some(v as int),
        None => None,
    }
}

fn better(maximizing: bool, best: Option<i64>, score: i64) -> (b: i64)
    ensures
        b == better_of(maximizing, as_value(best), score as int),
{
    match best {
        None => score,
        Some(b) => if maximizing {
            if score > b {
                score
            } else {
                b
            }
        } else {
            if score < b {
                score
            } else {
                b
            }
        },
    }
}

/// Searches one ply and those below it.
///
/// `depth` counts the plies above this one and must be below the maximum, so
/// that the ply counted in is at most the maximum. A ply is only searched
/// from a ply above it, with one more ply counted, and only where that still
/// holds.
fn search(
    settings: &Settings,
    maximizing: bool,
    alpha: i64,
    beta: i64,
    board: &Position,
    depth: u32,
    total_score: i64,
    previous_boards: &Arc<Vec<u64>>,
) -> (value: Option<i64>)
    requires
        depth < settings.max_depth,
    ensures
        as_value(value) == search_value(
            *settings,
            maximizing,
            alpha as int,
            beta as int,
            board@,
            depth as nat,
            total_score as int,
        ),
    decreases settings.max_depth - depth,
{
    let moves = board.legal_moves();
    let mut low: i64 = alpha;
    let mut high: i64 = beta;
    let mut best: Option<i64> = None;
    let ghost goal = search_value(
        *settings,
        maximizing,
        alpha as int,
        beta as int,
        board@,
        depth as nat,
        total_score as int,
    );
    let mut i: usize = 0;
    while i < moves.len()
        invariant
            i <= moves.len(),
            moves@ == legal_moves_of(board@),
            depth < settings.max_depth,
            goal == search_value(
                *settings,
                maximizing,
                alpha as int,
                beta as int,
                board@,
                depth as nat,
                total_score as int,
            ),
            goal == ply_value(
                *settings,
                maximizing,
                low as int,
                high as int,
                board@,
                depth as nat,
                total_score as int,
                i as nat,
                as_value(best),
            ),
        decreases moves.len() - i,
    {
        let m = moves[i];
        let taken = board.captured_by(m);
        let next = board.apply(m);
        let mates = match next.status() {
            Status::Checkmate => true,
            _ => false,
        };
        let base: i64 = add_scores(settings.score_move(taken, mates, maximizing), total_score);
        assert(base == move_base(*settings, maximizing, board@, total_score as int, i as int));
        if depth + 1 < settings.max_depth {
            let below = search(
                settings,
                !maximizing,
                low,
                high,
                &next,
                depth + 1,
                base,
                previous_boards,
            );
            let reply: i64 = match below {
                Some(v) => v,
                None => 0,
            };
            let score: i64 = add_scores(base, reply);
            best = Some(better(maximizing, best, score));
            if maximizing {
                if score >= high {
                    return Some(high);
                } else if score > low {
                    low = score;
                }
            } else {
                if score <= low {
                    return Some(low);
                } else if score < high {
                    high = score;
                }
            }
        } else {
            best = Some(better(maximizing, best, base));
        }
        i += 1;
    }
    best
}

/// Searches a ply on which the engine moves: the value of the move that
/// leaves it best off, the opponent answering as `search_min` finds.
///
/// `depth` counts the plies above this one and must be below the maximum.
pub fn search_max(
    settings: &Settings,
    alpha: i64,
    beta: i64,
    board: &Position,
    depth: u32,
    total_score: i64,
    previous_boards: &Arc<Vec<u64>>,
) -> (value: Option<i64>)
    requires
        depth < settings.max_depth,
    ensures
        as_value(value) == search_value(
            *settings,
            true,
            alpha as int,
            beta as int,
            board@,
            depth as nat,
            total_score as int,
        ),
{
    search(settings, true, alpha, beta, board, depth, total_score, previous_boards)
}

/// Searches a ply on which the opponent moves: the value of the move that
/// leaves the engine worst off, the engine answering as `search_max` finds.
///
/// `depth` counts the plies above this one and must be below the maximum.
pub fn search_min(
    settings: &Settings,
    alpha: i64,
    beta: i64,
    board: &Position,
    depth: u32,
    total_score: i64,
    previous_boards: &Arc<Vec<u64>>,
) -> (value: Option<i64>)
    requires
        depth < settings.max_depth,
    ensures
        as_value(value) == search_value(
            *settings,
            false,
            alpha as int,
            beta as int,
            board@,
            depth as nat,
            total_score as int,
        ),
{
    search(settings, false, alpha, beta, board, depth, total_score, previous_boards)
}

} // verus!
