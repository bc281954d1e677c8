use chess_player::{
    arrange, candidate_for, candidates, select, Candidate, Move, Position, Report, Settings,
};
use std::sync::Arc;

fn entry(source: u8, score: i64) -> Candidate {
    Candidate { mv: Move { source, dest: source + 8, promotion: None }, score, is_mate: false }
}

fn report(place: usize, source: u8, score: i64) -> Report {
    Report { place, candidate: entry(source, score) }
}

#[test]
fn no_reports_for_no_places() {
    assert_eq!(arrange(&vec![], 0), Some(vec![]));
}

#[test]
fn reports_are_put_in_the_order_of_their_places() {
    let reports = vec![report(2, 10, 7), report(0, 8, 7), report(3, 11, -4), report(1, 9, 5)];
    assert_eq!(
        arrange(&reports, 4),
        Some(vec![entry(8, 7), entry(9, 5), entry(10, 7), entry(11, -4)])
    );
}

#[test]
fn a_missing_report_is_noticed() {
    assert_eq!(arrange(&vec![report(0, 8, 1), report(1, 9, 1)], 3), None);
    assert_eq!(arrange(&vec![], 1), None);
}

#[test]
fn a_report_too_many_is_noticed() {
    assert_eq!(arrange(&vec![report(0, 8, 1), report(1, 9, 1)], 1), None);
    assert_eq!(arrange(&vec![report(0, 8, 1)], 0), None);
}

#[test]
fn a_place_reported_twice_is_noticed() {
    assert_eq!(arrange(&vec![report(0, 8, 1), report(0, 9, 2), report(2, 10, 3)], 3), None);
    assert_eq!(arrange(&vec![report(1, 8, 1), report(1, 8, 1)], 2), None);
}

#[test]
fn a_place_beyond_the_last_is_noticed() {
    assert_eq!(arrange(&vec![report(0, 8, 1), report(2, 9, 2)], 2), None);
    assert_eq!(arrange(&vec![report(usize::MAX, 8, 1)], 1), None);
}

#[test]
fn the_choice_does_not_depend_on_the_order_of_arrival() {
    let ordered = vec![report(0, 8, 3), report(1, 9, 7), report(2, 10, 7), report(3, 11, 1)];
    let expected = select(&arrange(&ordered, 4).unwrap());
    assert_eq!(expected, Some(entry(9, 7).mv));
    let orders: [[usize; 4]; 5] =
        [[3, 2, 1, 0], [2, 1, 0, 3], [1, 3, 0, 2], [2, 0, 3, 1], [0, 2, 1, 3]];
    for order in orders {
        let shuffled: Vec<Report> = order.iter().map(|i| ordered[*i]).collect();
        assert_eq!(select(&arrange(&shuffled, 4).unwrap()), expected);
    }
}

#[test]
fn reports_of_a_position_give_its_candidates_back() {
    let position = Position::initial();
    let mut settings = Settings::default();
    settings.max_depth = 2;
    let history = Arc::new(vec![]);
    let moves = position.legal_moves();
    let mut reports: Vec<Report> = vec![];
    for place in (0..moves.len()).rev() {
        let candidate = candidate_for(&settings, &position, moves[place], &history);
        reports.push(Report { place, candidate });
    }
    assert_eq!(arrange(&reports, moves.len()), Some(candidates(&settings, &position, &history)));
}
