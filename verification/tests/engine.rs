use chess_player::{
    arrange, candidate_for, candidates, do_move, root_moves, select, select_move,
    try_candidate_for, Candidate, Move, Position, Settings, Side,
};
use std::sync::Arc;

fn at(name: &str) -> u8 {
    let bytes = name.as_bytes();
    (bytes[0] - b'a') + 8 * (bytes[1] - b'1')
}

fn go(text: &str) -> Move {
    Move { source: at(&text[0..2]), dest: at(&text[2..4]), promotion: None }
}

fn after(moves: &[&str]) -> Position {
    let mut position = Position::initial();
    for text in moves {
        position = position.try_apply(go(text)).expect("a legal move");
    }
    position
}

fn plies(max_depth: u32) -> Settings {
    let mut settings = Settings::default();
    settings.max_depth = max_depth;
    settings
}

fn scored(text: &str, score: i64, is_mate: bool) -> Candidate {
    Candidate { mv: go(text), score, is_mate }
}

#[test]
fn it_works() {
    let m = do_move(Box::new(Position::initial()), Side::White, Arc::new(vec![])).unwrap();
    println!("{} to {}", m.source, m.dest);
    assert!(Position::initial().is_legal(m));
    assert!(Position::initial().legal_moves().contains(&m));
}

#[test]
fn the_opening_move_is_the_first_of_the_best() {
    // Which move opens is a matter of tuning. What is fixed is the rule: the
    // move played is the first, in the order of the legal moves, of those
    // that score highest.
    let start = Position::initial();
    let history = Arc::new(vec![]);
    for max_depth in [1, 3, 5] {
        let results = candidates(&plies(max_depth), &start, &history);
        let best = results.iter().map(|c| c.score).max().unwrap();
        let first = results.iter().find(|c| c.score == best).unwrap();
        let m = select_move(&plies(max_depth), &start, Side::White, &history);
        assert_eq!(m, Some(first.mv));
    }
    let at_five = candidates(&Settings::default(), &start, &history);
    assert!(at_five[2].score > at_five[0].score);
    assert_eq!(at_five[2].mv, go("b2b3"));
    assert_eq!(do_move(Box::new(start), Side::White, history), Some(go("b2b3")));
}

#[test]
fn the_opening_move_does_not_hang_on_the_multipliers() {
    let mut plain = Settings::default();
    plain.take_piece_multiplier = 100;
    plain.outcomes_multiplier = 100;
    let start = Position::initial();
    let history = Arc::new(vec![]);
    let m = select_move(&plain, &start, Side::White, &history).unwrap();
    assert_eq!((m.source, m.dest), (at("b2"), at("b3")));
    for max_depth in 0..5 {
        let early = select_move(&plies(max_depth), &start, Side::White, &history).unwrap();
        assert_eq!((early.source, early.dest), (at("a2"), at("a3")));
    }
}

#[test]
fn the_same_question_gets_the_same_answer() {
    let position = after(&["e2e4", "e7e5", "g1f3"]);
    let history = Arc::new(vec![1, 2, 3]);
    let settings = plies(3);
    let first = select_move(&settings, &position, Side::Black, &history);
    let second = select_move(&settings, &position, Side::Black, &history);
    let third = select_move(&settings, &after(&["e2e4", "e7e5", "g1f3"]), Side::Black, &history);
    assert!(first.is_some());
    assert_eq!(first, second);
    assert_eq!(first, third);
}

#[test]
fn out_of_turn_there_is_no_move_to_score() {
    let start = Position::initial();
    assert_eq!(root_moves(&start, Side::Black), vec![]);
    assert_eq!(root_moves(&start, Side::White), start.legal_moves());
    assert_eq!(root_moves(&start, Side::White).len(), 20);
    assert_eq!(select(&arrange(&vec![], 0).unwrap()), None);
}

#[test]
fn a_search_needs_a_worker() {
    let mut settings = Settings::default();
    assert_eq!(settings.workers(), 8);
    settings.worker_count = 0;
    assert_eq!(settings.workers(), 1);
    settings.worker_count = 3;
    assert_eq!(settings.workers(), 3);
}

#[test]
fn nothing_is_played_out_of_turn() {
    assert_eq!(do_move(Box::new(Position::initial()), Side::Black, Arc::new(vec![])), None);
    let position = after(&["e2e4"]);
    assert_eq!(select_move(&plies(2), &position, Side::White, &Arc::new(vec![])), None);
    assert!(select_move(&plies(2), &position, Side::Black, &Arc::new(vec![])).is_some());
}

#[test]
fn nothing_is_played_when_mated() {
    let mated = after(&["f2f3", "e7e5", "g2g4", "d8h4"]);
    assert_eq!(do_move(Box::new(mated), Side::White, Arc::new(vec![])), None);
    assert_eq!(do_move(Box::new(mated), Side::Black, Arc::new(vec![])), None);
}

#[test]
fn nothing_is_played_in_stalemate() {
    let stuck = after(&[
        "e2e3", "a7a5", "d1h5", "a8a6", "h5a5", "h7h5", "h2h4", "a6h6", "a5c7", "f7f6", "c7d7",
        "e8f7", "d7b7", "d8d3", "b7b8", "d3h7", "b8c8", "f7g6", "c8e6",
    ]);
    assert_eq!(do_move(Box::new(stuck), Side::Black, Arc::new(vec![])), None);
    assert_eq!(candidates(&Settings::default(), &stuck, &Arc::new(vec![])), vec![]);
}

#[test]
fn a_mate_in_one_is_played() {
    let position = after(&["f2f3", "e7e5", "g2g4"]);
    let m = do_move(Box::new(position), Side::Black, Arc::new(vec![]));
    assert_eq!(m, Some(go("d8h4")));
}

#[test]
fn a_mate_is_played_even_where_it_scores_worst() {
    let position = after(&["e2e4", "e7e5", "f1c4", "b8c6", "d1h5", "g8f6"]);
    let mut settings = plies(2);
    settings.outcomes.their_checkmate = -1000;
    settings.outcomes.pawn = 0;
    let history = Arc::new(vec![]);
    let results = candidates(&settings, &position, &history);
    let mate = results.iter().find(|c| c.is_mate).unwrap();
    assert_eq!(mate.mv, go("h5f7"));
    assert_eq!(mate.score, -250_000);
    assert!(results.iter().all(|c| c.is_mate == (c.mv == go("h5f7"))));
    assert!(results.iter().any(|c| c.score > mate.score));
    assert_eq!(select_move(&settings, &position, Side::White, &history), Some(go("h5f7")));
}

#[test]
fn a_candidate_adds_the_answer_to_the_move() {
    let position = after(&["e2e4", "d7d5"]);
    let history = Arc::new(vec![]);
    let taking = candidate_for(&plies(2), &position, go("e4d5"), &history);
    assert_eq!(taking, scored("e4d5", 102, false));
    let quiet = candidate_for(&plies(2), &position, go("a2a3"), &history);
    assert_eq!(quiet, scored("a2a3", -100, false));
    let pushing = candidate_for(&plies(2), &position, go("e4e5"), &history);
    assert_eq!(pushing, scored("e4e5", 0, false));
}

#[test]
fn a_candidate_at_the_last_ply_stands_alone() {
    let position = after(&["e2e4", "d7d5"]);
    let history = Arc::new(vec![]);
    for depth in [0, 1] {
        let taking = candidate_for(&plies(depth), &position, go("e4d5"), &history);
        assert_eq!(taking, scored("e4d5", 101, false));
    }
    assert_eq!(select_move(&plies(1), &position, Side::White, &history), Some(go("e4d5")));
    assert_eq!(select_move(&plies(2), &position, Side::White, &history), Some(go("e4d5")));
}

#[test]
fn a_move_that_is_not_legal_has_no_candidate() {
    let position = after(&["e2e4", "d7d5"]);
    let history = Arc::new(vec![]);
    assert_eq!(try_candidate_for(&plies(2), &position, go("e4e6"), &history), None);
    assert_eq!(
        try_candidate_for(&plies(2), &position, go("e4d5"), &history),
        Some(scored("e4d5", 102, false))
    );
}

#[test]
fn a_mating_candidate_is_flagged() {
    let position = after(&["f2f3", "e7e5", "g2g4"]);
    let history = Arc::new(vec![]);
    let mate = candidate_for(&plies(3), &position, go("d8h4"), &history);
    assert_eq!(mate, scored("d8h4", 250_000, true));
}

#[test]
fn candidates_follow_the_legal_moves() {
    let position = Position::initial();
    let results = candidates(&plies(2), &position, &Arc::new(vec![]));
    let moves = position.legal_moves();
    assert_eq!(results.len(), 20);
    for (result, m) in results.iter().zip(moves.iter()) {
        assert_eq!(result.mv, *m);
        assert_eq!(result.score, 0);
        assert!(!result.is_mate);
    }
}

#[test]
fn select_takes_nothing_from_nothing() {
    assert_eq!(select(&vec![]), None);
}

#[test]
fn select_keeps_the_first_of_the_best() {
    let results = vec![
        scored("a2a3", 5, false),
        scored("b2b3", 7, false),
        scored("c2c3", 7, false),
        scored("d2d3", -2, false),
    ];
    assert_eq!(select(&results), Some(go("b2b3")));
    assert_eq!(select(&vec![scored("a2a3", i64::MIN, false)]), Some(go("a2a3")));
    let level = vec![scored("a2a3", 0, false), scored("b2b3", 0, false)];
    assert_eq!(select(&level), Some(go("a2a3")));
}

#[test]
fn select_plays_the_first_mate_whatever_the_scores() {
    let results = vec![
        scored("a2a3", 900, false),
        scored("b2b3", -5, true),
        scored("c2c3", 1000, true),
        scored("d2d3", 2000, false),
    ];
    assert_eq!(select(&results), Some(go("b2b3")));
}

#[test]
fn select_never_takes_the_lower_of_two_scores() {
    let capture = scored("e4d5", 102, false);
    let quiet = scored("a2a3", 1, false);
    assert_eq!(select(&vec![quiet, capture]), Some(capture.mv));
    assert_eq!(select(&vec![capture, quiet]), Some(capture.mv));
}

#[test]
fn a_heavier_pawn_keeps_the_capture_chosen() {
    let position = after(&["e2e4", "d7d5"]);
    let history = Arc::new(vec![]);
    for pawn in [1, 2, 50, 1_000_000] {
        let mut settings = plies(1);
        settings.outcomes.pawn = pawn;
        assert_eq!(select_move(&settings, &position, Side::White, &history), Some(go("e4d5")));
    }
}
