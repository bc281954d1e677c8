use chess_player::duplicate::{boards, count_copies, duplicates, is_same_board, Repeat};

fn log_of(texts: &[&str]) -> Vec<String> {
    texts.iter().map(|text| text.to_string()).collect()
}

fn drawing(name: &str) -> Vec<String> {
    (1..=18).map(|n| format!("{} {}", name, n)).collect()
}

fn text_of(name: &str) -> String {
    drawing(name).iter().map(|line| format!("{}\n", line)).collect()
}

fn entry(name: &str) -> Vec<String> {
    let mut lines = vec!["#".to_string()];
    lines.extend(drawing(name));
    lines.push("".to_string());
    lines
}

#[test]
fn an_empty_log_has_no_boards() {
    assert_eq!(boards(&vec![]), Vec::<String>::new());
    assert_eq!(boards(&log_of(&["1", "Ongoing", "# not a marker"])), Vec::<String>::new());
}

#[test]
fn a_marker_announces_eighteen_lines() {
    let mut lines = log_of(&["Ongoing"]);
    lines.extend(entry("a"));
    lines.extend(log_of(&["2", "Ongoing"]));
    lines.extend(entry("b"));
    assert_eq!(boards(&lines), vec![text_of("a"), text_of("b")]);
}

#[test]
fn a_board_needs_the_line_that_closes_it() {
    let mut lines = entry("a");
    lines.pop();
    assert_eq!(boards(&lines), Vec::<String>::new());
    lines.push("anything".to_string());
    assert_eq!(boards(&lines), vec![text_of("a")]);
    lines.truncate(5);
    assert_eq!(boards(&lines), Vec::<String>::new());
    assert_eq!(boards(&log_of(&["#"])), Vec::<String>::new());
}

#[test]
fn the_closing_line_is_not_read_as_a_marker() {
    let mut lines = entry("a");
    lines.pop();
    lines.push("#".to_string());
    lines.extend(drawing("b"));
    lines.push("".to_string());
    assert_eq!(boards(&lines), vec![text_of("a")]);
}

#[test]
fn a_marker_inside_a_drawing_is_part_of_it() {
    let mut lines = vec!["#".to_string()];
    lines.extend((0..18).map(|_| "#".to_string()));
    lines.push("".to_string());
    assert_eq!(boards(&lines), vec!["#\n".repeat(18)]);
}

#[test]
fn boards_are_compared_without_the_blanks_around_them() {
    assert!(is_same_board(&"a\nb\n".to_string(), &"  a\nb".to_string()));
    assert!(is_same_board(&"\n\ta\nb \n\n".to_string(), &"a\nb".to_string()));
    assert!(!is_same_board(&"a\nb\n".to_string(), &"a\n b\n".to_string()));
    assert!(!is_same_board(&"a\nb\n".to_string(), &"a\nc\n".to_string()));
    assert!(is_same_board(&"".to_string(), &" \n".to_string()));
}

#[test]
fn copies_are_counted_among_all_boards() {
    let all = log_of(&["x\n", "y\n", " x", "z", "x"]);
    assert_eq!(count_copies(&all, &"x".to_string()), 3);
    assert_eq!(count_copies(&all, &"y".to_string()), 1);
    assert_eq!(count_copies(&all, &"w".to_string()), 0);
    assert_eq!(count_copies(&vec![], &"x".to_string()), 0);
}

#[test]
fn a_repeated_board_is_listed_each_time_it_occurs() {
    let all = log_of(&["x\n", "y\n", " x", "z", "x"]);
    assert_eq!(
        duplicates(&all),
        vec![
            Repeat { board: "x\n".to_string(), count: 3 },
            Repeat { board: " x".to_string(), count: 3 },
            Repeat { board: "x".to_string(), count: 3 },
        ]
    );
}

#[test]
fn boards_that_occur_once_are_not_listed() {
    assert_eq!(duplicates(&log_of(&["x", "y", "z"])), vec![]);
    assert_eq!(duplicates(&vec![]), vec![]);
}

#[test]
fn a_log_with_a_board_drawn_twice() {
    let mut lines = entry("a");
    lines.extend(entry("b"));
    lines.extend(entry("a"));
    let found = duplicates(&boards(&lines));
    assert_eq!(
        found,
        vec![
            Repeat { board: text_of("a"), count: 2 },
            Repeat { board: text_of("a"), count: 2 },
        ]
    );
}
