use chess_player::{search_max, search_min, Move, Position, Settings};
use std::sync::Arc;

fn cell(name: &str) -> u8 {
    let bytes = name.as_bytes();
    (bytes[0] - b'a') + 8 * (bytes[1] - b'1')
}

fn line(moves: &[&str]) -> Position {
    let mut position = Position::initial();
    for text in moves {
        let m = Move { source: cell(&text[0..2]), dest: cell(&text[2..4]), promotion: None };
        position = position.try_apply(m).expect("a legal move");
    }
    position
}

fn shallow(max_depth: u32) -> Settings {
    let mut settings = Settings::default();
    settings.max_depth = max_depth;
    settings
}

#[test]
fn a_leaf_of_the_engine_takes_its_best_capture() {
    let position = line(&["e2e4", "d7d5"]);
    let none = Arc::new(vec![]);
    let settings = Settings::default();
    assert_eq!(search_max(&settings, i64::MIN, i64::MAX, &position, 4, 0, &none), Some(101));
    assert_eq!(search_max(&settings, i64::MIN, i64::MAX, &position, 4, 7, &none), Some(108));
    assert_eq!(search_max(&settings, i64::MIN, i64::MAX, &position, 4, -500, &none), Some(-399));
}

#[test]
fn a_leaf_of_the_opponent_takes_the_engine_s_worst() {
    let position = line(&["e2e4", "d7d5", "a2a3"]);
    let none = Arc::new(vec![]);
    let settings = Settings::default();
    assert_eq!(search_min(&settings, i64::MIN, i64::MAX, &position, 4, 0, &none), Some(-100));
    assert_eq!(search_min(&settings, i64::MIN, i64::MAX, &position, 4, 30, &none), Some(-70));
}

#[test]
fn a_leaf_ignores_the_bounds() {
    let position = line(&["e2e4", "d7d5"]);
    let none = Arc::new(vec![]);
    let settings = Settings::default();
    assert_eq!(search_max(&settings, 1000, 2000, &position, 4, 0, &none), Some(101));
    assert_eq!(search_max(&settings, -9, -8, &position, 4, 0, &none), Some(101));
}

#[test]
fn a_quiet_leaf_is_worth_the_total_so_far() {
    let none = Arc::new(vec![]);
    let settings = Settings::default();
    let start = Position::initial();
    assert_eq!(search_max(&settings, i64::MIN, i64::MAX, &start, 4, 0, &none), Some(0));
    assert_eq!(search_min(&settings, i64::MIN, i64::MAX, &start, 4, 12, &none), Some(12));
}

#[test]
fn a_leaf_sees_a_mate() {
    let position = line(&["f2f3", "e7e5", "g2g4"]);
    let none = Arc::new(vec![]);
    let settings = Settings::default();
    assert_eq!(search_min(&settings, i64::MIN, i64::MAX, &position, 4, 0, &none), Some(-250_000));
    assert_eq!(search_max(&settings, i64::MIN, i64::MAX, &position, 4, 0, &none), Some(250_000));
}

#[test]
fn a_position_without_moves_has_no_value() {
    let mated = line(&["f2f3", "e7e5", "g2g4", "d8h4"]);
    let none = Arc::new(vec![]);
    let settings = Settings::default();
    for depth in 0..5 {
        assert_eq!(search_max(&settings, i64::MIN, i64::MAX, &mated, depth, 3, &none), None);
        assert_eq!(search_min(&settings, i64::MIN, i64::MAX, &mated, depth, 3, &none), None);
    }
}

#[test]
fn two_plies_add_the_answer_to_the_move() {
    let position = line(&["e2e4", "d7d5"]);
    let none = Arc::new(vec![]);
    assert_eq!(search_max(&shallow(2), i64::MIN, i64::MAX, &position, 0, 0, &none), Some(102));
    assert_eq!(search_max(&shallow(3), i64::MIN, i64::MAX, &position, 1, 0, &none), Some(102));
}

#[test]
fn nothing_is_searched_below_the_last_ply() {
    // Black can take back on d5, which only a search one ply deeper sees.
    let position = line(&["e2e4", "d7d5"]);
    let none = Arc::new(vec![]);
    for max_depth in 1..6 {
        let last = max_depth - 1;
        let value = search_max(&shallow(max_depth), i64::MIN, i64::MAX, &position, last, 0, &none);
        assert_eq!(value, Some(101));
    }
    let deeper = search_max(&shallow(6), i64::MIN, i64::MAX, &position, 4, 0, &none);
    assert_eq!(deeper, Some(102));
}

#[test]
fn a_mate_below_counts_for_nothing_more() {
    let position = line(&["f2f3", "e7e5", "g2g4"]);
    let none = Arc::new(vec![]);
    let best = search_min(&shallow(2), i64::MIN, i64::MAX, &position, 0, 0, &none);
    assert_eq!(best, Some(-250_000));
}

#[test]
fn the_engine_s_ply_stops_at_beta() {
    let none = Arc::new(vec![]);
    let start = Position::initial();
    assert_eq!(search_max(&shallow(2), i64::MIN, -5, &start, 0, 0, &none), Some(-5));
    assert_eq!(search_max(&shallow(2), i64::MIN, 0, &start, 0, 0, &none), Some(0));
    assert_eq!(search_max(&shallow(2), i64::MIN, 1, &start, 0, 0, &none), Some(0));
}

#[test]
fn the_opponent_s_ply_stops_at_alpha() {
    let none = Arc::new(vec![]);
    let start = Position::initial();
    assert_eq!(search_min(&shallow(2), 5, i64::MAX, &start, 0, 0, &none), Some(5));
    assert_eq!(search_min(&shallow(2), 0, i64::MAX, &start, 0, 0, &none), Some(0));
    assert_eq!(search_min(&shallow(2), -1, i64::MAX, &start, 0, 0, &none), Some(0));
}

#[test]
fn the_search_does_not_read_the_history() {
    let position = line(&["e2e4", "d7d5"]);
    let settings = shallow(3);
    let empty = Arc::new(vec![]);
    let full = Arc::new(vec![1, 2, 3, 3, 3]);
    assert_eq!(
        search_max(&settings, i64::MIN, i64::MAX, &position, 0, 0, &empty),
        search_max(&settings, i64::MIN, i64::MAX, &position, 0, 0, &full)
    );
}

#[test]
fn the_deepest_search_allowed_still_ends() {
    let mut settings = Settings::default();
    settings.max_depth = u32::MAX;
    let none = Arc::new(vec![]);
    let start = Position::initial();
    let value = search_max(&settings, i64::MIN, i64::MAX, &start, u32::MAX - 1, 0, &none);
    assert_eq!(value, Some(0));
}
