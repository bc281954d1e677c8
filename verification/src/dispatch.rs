//! The root of the search: one candidate per legal move, and the choice
//! among them.

use crate::outcomes::{add_scores, clamp_score, Settings};
use crate::rules::{
    capture_of, fen_after, legal_moves_of, mover_of, status_of, Move, PieceKind, Position, Side,
    Status,
};
use crate::search::{is_score, lemma_value_is_a_score, search_min, search_value};
use std::sync::Arc;
use vstd::prelude::*;

verus! {

/// What the search found for one root move.
#[derive(Clone, Copy, Debug, PartialEq, Eq)]
pub struct Candidate {
    pub mv: Move,
    /// The move's own contribution plus the value of the opponent's best
    /// answer.
    pub score: i64,
    /// Whether the move mates on the spot.
    pub is_mate: bool,
}

/// Whether a move ends the game by mate.
pub open spec fn mates_at_once(fen: Seq<char>, m: Move) -> bool {
    status_of(fen_after(fen, m)) == Status::Checkmate
}

/// What a root move contributes by itself, scored as on any ply of the
/// engine's.
pub open spec fn immediate_of(settings: Settings, fen: Seq<char>, m: Move) -> int {
    settings.local_score(capture_of(fen, m), mates_at_once(fen, m), true)
}

/// What lies below a root move: the value of the opponent's answers, searched
/// one ply down between the widest bounds with the move's own contribution as
/// the total so far. Where there is no answer, or no ply left to search, it
/// is nothing.
pub open spec fn answer_of(settings: Settings, fen: Seq<char>, m: Move) -> int {
    let answer = if 1 < settings.max_depth {
        search_value(
            settings,
            false,
            i64::MIN as int,
            i64::MAX as int,
            fen_after(fen, m),
            1,
            immediate_of(settings, fen, m),
        )
    } else {
        None
    };
    match answer {
        Some(v) => v,
        None => 0,
    }
}

/// The candidate for a root move: its own contribution plus what lies below
/// it, and whether it mates.
pub open spec fn candidate_of(settings: Settings, fen: Seq<char>, m: Move) -> Candidate {
    let score = clamp_score(immediate_of(settings, fen, m) + answer_of(settings, fen, m));
    Candidate { mv: m, score: score as i64, is_mate: mates_at_once(fen, m) }
}

/// The candidates of a position, in the order of its legal moves.
pub open spec fn candidates_of(settings: Settings, fen: Seq<char>) -> Seq<Candidate> {
    legal_moves_of(fen).map_values(|m: Move| candidate_of(settings, fen, m))
}

/// Whether any candidate mates on the spot.
pub open spec fn has_mate(results: Seq<Candidate>) -> bool {
    exists|j: int| 0 <= j < results.len() && (#[trigger] results[j]).is_mate
}

/// Whether `k` is the place of the candidate to play: the first that mates,
/// or, where none mates, the first of those with the highest score.
pub open spec fn is_choice(results: Seq<Candidate>, k: int) -> bool {
    &&& 0 <= k < results.len()
    &&& if has_mate(results) {
        &&& results[k].is_mate
        &&& forall|j: int| 0 <= j < k ==> !(#[trigger] results[j]).is_mate
    } else {
        &&& forall|j: int|
            0 <= j < results.len() ==> (#[trigger] results[j]).score <= results[k].score
        &&& forall|j: int| 0 <= j < k ==> (#[trigger] results[j]).score < results[k].score
    }
}

/// The move to play among the candidates; none where there are none.
pub open spec fn chosen(results: Seq<Candidate>) -> Option<Move> {
    if results.len() == 0 {
        None
    } else {
        Some(results[choose|k: int| is_choice(results, k)].mv)
    }
}

/// The moves that are scored for `side`: the legal moves when it is its turn,
/// none when it is not.
pub open spec fn root_moves_of(fen: Seq<char>, side: Side) -> Seq<Move> {
    if mover_of(fen) == side {
        legal_moves_of(fen)
    } else {
        Seq::empty()
    }
}

/// The move the engine plays for `side`: none when it is not its turn, else
/// the choice among the candidates of the position.
pub open spec fn selected_move(settings: Settings, fen: Seq<char>, side: Side) -> Option<Move> {
    if mover_of(fen) != side {
        None
    } else {
        chosen(candidates_of(settings, fen))
    }
}

/// At most one place is the choice.
pub proof fn lemma_choice_unique(results: Seq<Candidate>, a: int, b: int)
    requires
        is_choice(results, a),
        is_choice(results, b),
    ensures
        a == b,
{
    // Of two places the earlier one would have to mate, or to score below
    // the later one; the later one being the choice allows neither.
    if a < b {
        assert(results[a].is_mate || results[a].score < results[b].score);
    } else if b < a {
        assert(results[b].is_mate || results[b].score < results[a].score);
    }
}

/// Wherever there is a candidate, one of them is the choice.
pub proof fn lemma_choice_exists(results: Seq<Candidate>)
    requires
        results.len() > 0,
    ensures
        exists|k: int| is_choice(results, k),
    decreases results.len(),
{
    let last = results.len() - 1;
    if results.len() == 1 {
        assert(is_choice(results, 0));
    } else {
        let front = results.drop_last();
        lemma_choice_exists(front);
        let k = choose|k: int| is_choice(front, k);
        assert(forall|j: int| 0 <= j < front.len() ==> front[j] == results[j]);
        if has_mate(front) {
            // The first mate of the front is the first mate of all.
            let j = choose|j: int| 0 <= j < front.len() && (#[trigger] front[j]).is_mate;
            assert(results[j].is_mate);
            assert(is_choice(results, k));
        } else if results[last].is_mate {
            assert(is_choice(results, last));
        } else {
            assert(!has_mate(results)) by {
                if has_mate(results) {
                    let j = choose|j: int|
                        0 <= j < results.len() && (#[trigger] results[j]).is_mate;
                    assert(front[j].is_mate);
                }
            }
            // Nothing mates: the last one is the choice if it beats the
            // best of the front, else that one stays.
            if results[last].score > results[k].score {
                assert(is_choice(results, last));
            } else {
                assert(is_choice(results, k));
            }
        }
    }
}

/// The chosen move is the move of the candidate at the place of the choice.
pub proof fn lemma_chosen_at_choice(results: Seq<Candidate>, k: int)
    requires
        is_choice(results, k),
    ensures
        chosen(results) == Some(results[k].mv),
{
    lemma_choice_unique(results, k, choose|k: int| is_choice(results, k));
}

/// The move depends on nothing but the settings, the position's record and
/// the side: two positions with the same record get the same answer, and so
/// does the same position asked twice.
pub proof fn lemma_same_record_same_move(
    settings: Settings,
    first: Position,
    second: Position,
    side: Side,
)
    requires
        first@ == second@,
    ensures
        selected_move(settings, first@, side) == selected_move(settings, second@, side),
{
}

/// Out of turn the engine plays nothing, whatever the position and the
/// settings.
pub proof fn lemma_nothing_out_of_turn(settings: Settings, fen: Seq<char>, side: Side)
    requires
        mover_of(fen) != side,
    ensures
        selected_move(settings, fen, side).is_none(),
{
}

/// Where the position has no legal move the engine plays nothing.
pub proof fn lemma_nothing_without_moves(settings: Settings, fen: Seq<char>, side: Side)
    requires
        legal_moves_of(fen).len() == 0,
    ensures
        selected_move(settings, fen, side).is_none(),
{
}

/// In turn, and with a legal move at hand, the engine plays one of the legal
/// moves.
pub proof fn lemma_plays_a_legal_move(settings: Settings, fen: Seq<char>, side: Side)
    requires
        mover_of(fen) == side,
        legal_moves_of(fen).len() > 0,
    ensures
        selected_move(settings, fen, side) matches Some(m) && legal_moves_of(fen).contains(m),
{
    let results = candidates_of(settings, fen);
    lemma_choice_exists(results);
    let k = choose|k: int| is_choice(results, k);
    lemma_chosen_at_choice(results, k);
    assert(results[k].mv == legal_moves_of(fen)[k]);
}

/// Where some legal move mates at once, the engine plays a move that mates at
/// once, whatever the scores of the others.
pub proof fn lemma_mate_is_played(settings: Settings, fen: Seq<char>, side: Side, mating: Move)
    requires
        mover_of(fen) == side,
        legal_moves_of(fen).contains(mating),
        mates_at_once(fen, mating),
    ensures
        selected_move(settings, fen, side) matches Some(m) && legal_moves_of(fen).contains(m)
            && mates_at_once(fen, m),
{
    let moves = legal_moves_of(fen);
    let results = candidates_of(settings, fen);
    let at = choose|i: int| 0 <= i < moves.len() && moves[i] == mating;
    assert(results[at].is_mate);
    assert(has_mate(results));
    lemma_choice_exists(results);
    let k = choose|k: int| is_choice(results, k);
    lemma_chosen_at_choice(results, k);
    assert(results[k].mv == moves[k]);
}

/// Among candidates none of which mates, one that scores below another is
/// never the choice.
pub proof fn lemma_lower_score_not_chosen(results: Seq<Candidate>, higher: int, lower: int)
    requires
        !has_mate(results),
        0 <= higher < results.len(),
        0 <= lower < results.len(),
        results[lower].score < results[higher].score,
    ensures
        !is_choice(results, lower),
{
}

/// What lies below a root move is a score.
pub proof fn lemma_answer_is_a_score(settings: Settings, fen: Seq<char>, m: Move)
    ensures
        is_score(answer_of(settings, fen, m)),
{
    lemma_value_is_a_score(
        settings,
        false,
        i64::MIN as int,
        i64::MAX as int,
        fen_after(fen, m),
        1,
        immediate_of(settings, fen, m),
        0,
        None,
    );
}

/// Whether `kind`, taken on top of a value `below`, scores without running
/// over the top of the range.
pub open spec fn gain_fits(settings: Settings, kind: PieceKind, below: int) -> bool {
    let gain = settings.outcomes.material(kind) * settings.take_piece_multiplier;
    &&& gain <= i64::MAX
    &&& gain + below <= i64::MAX
}

/// A heavier piece keeps the move that takes it ahead, at the root.
///
/// Take a position in which the engine is to move and no move mates, a move
/// that takes a piece of `kind` and a move that takes nothing, with the same
/// value below both. Under settings that give the piece a positive weight and
/// take it at a positive multiplier, the taking move scores higher by exactly
/// the piece's weight at that multiplier, so long as the taking move's score
/// stays below the top of the range. So under the heavier of two weights the gap is no smaller, and
/// under either the engine does not play the quiet move from its place: it
/// plays the move of another place.
pub proof fn lemma_heavier_piece_at_the_root(
    lighter: Settings,
    heavier: Settings,
    fen: Seq<char>,
    side: Side,
    kind: PieceKind,
    taking: int,
    quiet: int,
)
    requires
        mover_of(fen) == side,
        0 <= taking < legal_moves_of(fen).len(),
        0 <= quiet < legal_moves_of(fen).len(),
        forall|i: int|
            0 <= i < legal_moves_of(fen).len() ==> !mates_at_once(
                fen,
                #[trigger] legal_moves_of(fen)[i],
            ),
        capture_of(fen, legal_moves_of(fen)[taking]) == Some(kind),
        capture_of(fen, legal_moves_of(fen)[quiet]).is_none(),
        lighter.take_piece_multiplier == heavier.take_piece_multiplier,
        lighter.take_piece_multiplier > 0,
        0 < lighter.outcomes.material(kind) < heavier.outcomes.material(kind),
        answer_of(lighter, fen, legal_moves_of(fen)[taking]) == answer_of(
            lighter,
            fen,
            legal_moves_of(fen)[quiet],
        ),
        answer_of(heavier, fen, legal_moves_of(fen)[taking]) == answer_of(
            heavier,
            fen,
            legal_moves_of(fen)[quiet],
        ),
        gain_fits(lighter, kind, answer_of(lighter, fen, legal_moves_of(fen)[quiet])),
        gain_fits(heavier, kind, answer_of(heavier, fen, legal_moves_of(fen)[quiet])),
    ensures
        ({
            let before = candidates_of(lighter, fen);
            let after = candidates_of(heavier, fen);
            let gap_before = before[taking].score - before[quiet].score;
            let gap_after = after[taking].score - after[quiet].score;
            &&& gap_before == lighter.outcomes.material(kind) * lighter.take_piece_multiplier
            &&& gap_after == heavier.outcomes.material(kind) * heavier.take_piece_multiplier
            &&& 0 < gap_before <= gap_after
            &&& !is_choice(before, quiet)
            &&& !is_choice(after, quiet)
            &&& exists|k: int|
                k != quiet && is_choice(before, k) && selected_move(lighter, fen, side) == Some(
                    before[k].mv,
                )
            &&& exists|k: int|
                k != quiet && is_choice(after, k) && selected_move(heavier, fen, side) == Some(
                    after[k].mv,
                )
        }),
{
    let moves = legal_moves_of(fen);
    let before = candidates_of(lighter, fen);
    let after = candidates_of(heavier, fen);
    lemma_answer_is_a_score(lighter, fen, moves[quiet]);
    lemma_answer_is_a_score(heavier, fen, moves[quiet]);
    let factor = lighter.take_piece_multiplier as int;
    let light = lighter.outcomes.material(kind);
    let heavy = heavier.outcomes.material(kind);
    assert(0 < light * factor <= heavy * factor) by (nonlinear_arith)
        requires
            0 < light < heavy,
            factor > 0,
    ;
    assert(!mates_at_once(fen, moves[taking]));
    assert(!mates_at_once(fen, moves[quiet]));
    assert(immediate_of(lighter, fen, moves[taking]) == light * factor);
    assert(immediate_of(heavier, fen, moves[taking]) == heavy * factor);
    assert(immediate_of(lighter, fen, moves[quiet]) == 0);
    assert(immediate_of(heavier, fen, moves[quiet]) == 0);
    assert(before[taking].score - before[quiet].score == light * factor);
    assert(after[taking].score - after[quiet].score == heavy * factor);
    assert(!has_mate(before)) by {
        if has_mate(before) {
            let j = choose|j: int| 0 <= j < before.len() && (#[trigger] before[j]).is_mate;
            assert(mates_at_once(fen, moves[j]));
        }
    }
    assert(!has_mate(after)) by {
        if has_mate(after) {
            let j = choose|j: int| 0 <= j < after.len() && (#[trigger] after[j]).is_mate;
            assert(mates_at_once(fen, moves[j]));
        }
    }
    lemma_lower_score_not_chosen(before, taking, quiet);
    lemma_lower_score_not_chosen(after, taking, quiet);
    lemma_choice_exists(before);
    lemma_choice_exists(after);
    let k = choose|k: int| is_choice(before, k);
    lemma_chosen_at_choice(before, k);
    let l = choose|l: int| is_choice(after, l);
    lemma_chosen_at_choice(after, l);
}

/// What holds of the selected move in every position: it is there exactly
/// when the engine is to move and can move, it is legal, and it mates at once
/// where any move does.
proof fn lemma_selection(settings: Settings, fen: Seq<char>, side: Side)
    ensures
        selected_move(settings, fen, side).is_some() <==> mover_of(fen) == side && legal_moves_of(
            fen,
        ).len() > 0,
        selected_move(settings, fen, side) matches Some(m) ==> legal_moves_of(fen).contains(m),
        forall|mating: Move|
            mover_of(fen) == side && legal_moves_of(fen).contains(mating)
                && #[trigger] mates_at_once(fen, mating) ==> (selected_move(settings, fen, side)
                matches Some(m) && mates_at_once(fen, m)),
{
    if mover_of(fen) == side && legal_moves_of(fen).len() > 0 {
        lemma_plays_a_legal_move(settings, fen, side);
        assert forall|mating: Move|
            mover_of(fen) == side && legal_moves_of(fen).contains(mating)
                && #[trigger] mates_at_once(fen, mating) implies (selected_move(settings, fen, side)
            matches Some(m) && mates_at_once(fen, m)) by {
            lemma_mate_is_played(settings, fen, side, mating);
        }
    }
}

/// Scores one root move.
pub fn candidate_for(
    settings: &Settings,
    board: &Position,
    m: Move,
    previous_boards: &Arc<Vec<u64>>,
) -> (candidate: Candidate)
    requires
        legal_moves_of(board@).contains(m),
    ensures
        candidate == candidate_of(*settings, board@, m),
{
    let taken = board.captured_by(m);
    let next = board.apply(m);
    let is_mate = match next.status() {
        Status::Checkmate => true,
        _ => false,
    };
    let immediate: i64 = settings.score_move(taken, is_mate, true);
    let answer: Option<i64> = if 1 < settings.max_depth {
        search_min(settings, i64::MIN, i64::MAX, &next, 1, immediate, previous_boards)
    } else {
        None
    };
    let reply: i64 = match answer {
        Some(v) => v,
        None => 0,
    };
    Candidate { mv: m, score: add_scores(immediate, reply), is_mate }
}

/// Scores one root move, or nothing where the move is not legal.
pub fn try_candidate_for(
    settings: &Settings,
    board: &Position,
    m: Move,
    previous_boards: &Arc<Vec<u64>>,
) -> (candidate: Option<Candidate>)
    ensures
        candidate == if legal_moves_of(board@).contains(m) {
            Some(candidate_of(*settings, board@, m))
        } else {
            None
        },
{
    if board.is_legal(m) {
        Some(candidate_for(settings, board, m, previous_boards))
    } else {
        None
    }
}

/// Picks the move to play from the candidates, taken in the order given.
pub fn select(results: &Vec<Candidate>) -> (picked: Option<Move>)
    ensures
        picked == chosen(results@),
{
    if results.len() == 0 {
        return None;
    }
    let mut pick: usize = 0;
    let mut i: usize = 0;
    while i < results.len()
        invariant
            0 < results.len(),
            i <= results.len(),
            pick < results.len(),
            i == 0 ==> pick == 0,
            i > 0 ==> pick < i,
            forall|j: int| 0 <= j < i ==> !(#[trigger] results@[j]).is_mate,
            forall|j: int|
                0 <= j < i ==> (#[trigger] results@[j]).score <= results@[pick as int].score,
            forall|j: int|
                0 <= j < pick ==> (#[trigger] results@[j]).score < results@[pick as int].score,
        decreases results.len() - i,
    {
        if results[i].is_mate {
            proof {
                assert(has_mate(results@));
                assert(is_choice(results@, i as int));
                lemma_choice_unique(results@, i as int, choose|k: int| is_choice(results@, k));
            }
            return Some(results[i].mv);
        }
        if results[i].score > results[pick].score {
            pick = i;
        }
        i += 1;
    }
    proof {
        assert(!has_mate(results@));
        assert(is_choice(results@, pick as int));
        lemma_choice_unique(results@, pick as int, choose|k: int| is_choice(results@, k));
    }
    Some(results[pick].mv)
}

/// The moves to score for `color`. Out of turn there are none, and with none
/// scored nothing is played.
pub fn root_moves(board: &Position, color: Side) -> (moves: Vec<Move>)
    ensures
        moves@ == root_moves_of(board@, color),
{
    if board.side_to_move() != color {
        Vec::new()
    } else {
        board.legal_moves()
    }
}

/// Scores every legal move of the position, one after the other, in the
/// order in which the rules engine lists them.
pub fn candidates(
    settings: &Settings,
    board: &Position,
    previous_boards: &Arc<Vec<u64>>,
) -> (results: Vec<Candidate>)
    ensures
        results@ == candidates_of(*settings, board@),
{
    let moves = board.legal_moves();
    let mut results: Vec<Candidate> = Vec::new();
    let mut i: usize = 0;
    while i < moves.len()
        invariant
            i <= moves.len(),
            moves@ == legal_moves_of(board@),
            results@ == candidates_of(*settings, board@).take(i as int),
        decreases moves.len() - i,
    {
        let candidate = candidate_for(settings, board, moves[i], previous_boards);
        results.push(candidate);
        assert(results@ == candidates_of(*settings, board@).take(i + 1));
        i += 1;
    }
    assert(results@ == candidates_of(*settings, board@));
    results
}

/// Chooses a move for `color` with the given settings.
pub fn select_move(
    settings: &Settings,
    board: &Position,
    color: Side,
    previous_boards: &Arc<Vec<u64>>,
) -> (picked: Option<Move>)
    ensures
        picked == selected_move(*settings, board@, color),
        picked.is_some() <==> mover_of(board@) == color && legal_moves_of(board@).len() > 0,
        picked matches Some(m) ==> legal_moves_of(board@).contains(m),
        forall|mating: Move|
            mover_of(board@) == color && legal_moves_of(board@).contains(mating)
                && #[trigger] mates_at_once(board@, mating) ==> (picked matches Some(m)
                && mates_at_once(board@, m)),
{
    proof {
        lemma_selection(*settings, board@, color);
    }
    if board.side_to_move() != color {
        return None;
    }
    let results = candidates(settings, board, previous_boards);
    select(&results)
}

/// Chooses a move for `color` with the standard settings.
pub fn do_move(
    board: Box<Position>,
    color: Side,
    previous_boards: Arc<Vec<u64>>,
) -> (picked: Option<Move>)
    ensures
        picked == selected_move(Settings::standard(), board@, color),
        picked.is_some() <==> mover_of(board@) == color && legal_moves_of(board@).len() > 0,
        picked matches Some(m) ==> legal_moves_of(board@).contains(m),
        forall|mating: Move|
            mover_of(board@) == color && legal_moves_of(board@).contains(mating)
                && #[trigger] mates_at_once(board@, mating) ==> (picked matches Some(m)
                && mates_at_once(board@, m)),
{
    let settings = Settings::default();
    select_move(&settings, &*board, color, &previous_boards)
}

} // verus!
