use chess_player::gameboard::{draw, draw_horizontal, draw_piece, get_square};
use chess_player::{Move, PieceKind, Position, Side};

fn moved(source: u8, dest: u8) -> Position {
    Position::initial().try_apply(Move { source, dest, promotion: None }).unwrap()
}

#[test]
fn each_piece_has_its_figure() {
    assert_eq!(draw_piece(Some(PieceKind::Bishop), Side::Black), "♝");
    assert_eq!(draw_piece(Some(PieceKind::King), Side::Black), "♚");
    assert_eq!(draw_piece(Some(PieceKind::Knight), Side::Black), "♞");
    assert_eq!(draw_piece(Some(PieceKind::Pawn), Side::Black), "♟");
    assert_eq!(draw_piece(Some(PieceKind::Queen), Side::Black), "♛");
    assert_eq!(draw_piece(Some(PieceKind::Rook), Side::Black), "♜");
    assert_eq!(draw_piece(Some(PieceKind::Bishop), Side::White), "♗");
    assert_eq!(draw_piece(Some(PieceKind::King), Side::White), "♔");
    assert_eq!(draw_piece(Some(PieceKind::Knight), Side::White), "♘");
    assert_eq!(draw_piece(Some(PieceKind::Pawn), Side::White), "♙");
    assert_eq!(draw_piece(Some(PieceKind::Queen), Side::White), "♕");
    assert_eq!(draw_piece(Some(PieceKind::Rook), Side::White), "♖");
}

#[test]
fn an_empty_square_is_blank() {
    assert_eq!(draw_piece(None, Side::Black), " ");
    assert_eq!(draw_piece(None, Side::White), " ");
}

#[test]
fn squares_are_numbered_rank_by_rank() {
    assert_eq!(get_square(0, 0), 0);
    assert_eq!(get_square(0, 7), 7);
    assert_eq!(get_square(1, 0), 8);
    assert_eq!(get_square(3, 4), 28);
    assert_eq!(get_square(7, 7), 63);
}

#[test]
fn ranks_and_files_are_counted_round_by_eight() {
    assert_eq!(get_square(8, 0), 0);
    assert_eq!(get_square(0, 8), 0);
    assert_eq!(get_square(9, 10), 10);
    assert_eq!(get_square(15, 15), 63);
    assert_eq!(get_square(usize::MAX, usize::MAX), 63);
    assert_eq!(get_square(usize::MAX - 2, 3), 43);
}

#[test]
fn lines_beyond_the_drawing_go_on_in_the_same_way() {
    let start = Position::initial();
    assert_eq!(draw_horizontal(0, &start), "0│ ♜ │ ♞ │ ♝ │ ♛ │ ♚ │ ♝ │ ♞ │ ♜ │");
    assert_eq!(draw_horizontal(18, &start), "9│ ♖ │ ♘ │ ♗ │ ♕ │ ♔ │ ♗ │ ♘ │ ♖ │");
    assert_eq!(draw_horizontal(20, &start), "10│ ♙ │ ♙ │ ♙ │ ♙ │ ♙ │ ♙ │ ♙ │ ♙ │");
    assert_eq!(draw_horizontal(-2, &start), "-1│ ♟ │ ♟ │ ♟ │ ♟ │ ♟ │ ♟ │ ♟ │ ♟ │");
    assert_eq!(draw_horizontal(-4, &start), "-2│   │   │   │   │   │   │   │   │");
    assert_eq!(draw_horizontal(2468, &start), "1234│ ♙ │ ♙ │ ♙ │ ♙ │ ♙ │ ♙ │ ♙ │ ♙ │");
    assert_eq!(
        draw_horizontal(i32::MIN, &start),
        "-1073741824│ ♜ │ ♞ │ ♝ │ ♛ │ ♚ │ ♝ │ ♞ │ ♜ │"
    );
    assert_eq!(
        draw_horizontal(i32::MAX - 1, &start),
        "1073741823│ ♟ │ ♟ │ ♟ │ ♟ │ ♟ │ ♟ │ ♟ │ ♟ │"
    );
    for count in [-3, -1, 19, 21, i32::MAX, i32::MIN + 1] {
        assert_eq!(draw_horizontal(count, &start), " ├───┼───┼───┼───┼───┼───┼───┼───┤");
    }
}

#[test]
fn pieces_and_colours_are_found_on_their_squares() {
    let start = Position::initial();
    assert_eq!(start.piece_on(0), Some(PieceKind::Rook));
    assert_eq!(start.piece_on(4), Some(PieceKind::King));
    assert_eq!(start.piece_on(59), Some(PieceKind::Queen));
    assert_eq!(start.piece_on(12), Some(PieceKind::Pawn));
    assert_eq!(start.piece_on(28), None);
    assert_eq!(start.piece_on(64), None);
    assert_eq!(start.piece_on(255), None);
    assert_eq!(start.color_on(0), Some(Side::White));
    assert_eq!(start.color_on(15), Some(Side::White));
    assert_eq!(start.color_on(16), None);
    assert_eq!(start.color_on(47), None);
    assert_eq!(start.color_on(48), Some(Side::Black));
    assert_eq!(start.color_on(63), Some(Side::Black));
    assert_eq!(start.color_on(64), None);
    assert_eq!(start.color_on(200), None);
    let pushed = moved(12, 28);
    assert_eq!(pushed.piece_on(12), None);
    assert_eq!(pushed.color_on(12), None);
    assert_eq!(pushed.piece_on(28), Some(PieceKind::Pawn));
    assert_eq!(pushed.color_on(28), Some(Side::White));
}

#[test]
fn borders_and_separators_frame_the_ranks() {
    let start = Position::initial();
    assert_eq!(draw_horizontal(1, &start), " ┌───┬───┬───┬───┬───┬───┬───┬───┐");
    assert_eq!(draw_horizontal(17, &start), " └───┴───┴───┴───┴───┴───┴───┴───┘");
    for count in [3, 5, 7, 9, 11, 13, 15] {
        assert_eq!(draw_horizontal(count, &start), " ├───┼───┼───┼───┼───┼───┼───┼───┤");
    }
}

#[test]
fn ranks_show_their_number_and_their_pieces() {
    let start = Position::initial();
    assert_eq!(draw_horizontal(2, &start), "1│ ♖ │ ♘ │ ♗ │ ♕ │ ♔ │ ♗ │ ♘ │ ♖ │");
    assert_eq!(draw_horizontal(4, &start), "2│ ♙ │ ♙ │ ♙ │ ♙ │ ♙ │ ♙ │ ♙ │ ♙ │");
    assert_eq!(draw_horizontal(6, &start), "3│   │   │   │   │   │   │   │   │");
    assert_eq!(draw_horizontal(12, &start), "6│   │   │   │   │   │   │   │   │");
    assert_eq!(draw_horizontal(14, &start), "7│ ♟ │ ♟ │ ♟ │ ♟ │ ♟ │ ♟ │ ♟ │ ♟ │");
    assert_eq!(draw_horizontal(16, &start), "8│ ♜ │ ♞ │ ♝ │ ♛ │ ♚ │ ♝ │ ♞ │ ♜ │");
    let pushed = moved(12, 28);
    assert_eq!(draw_horizontal(4, &pushed), "2│ ♙ │ ♙ │ ♙ │ ♙ │   │ ♙ │ ♙ │ ♙ │");
    assert_eq!(draw_horizontal(8, &pushed), "4│   │   │   │   │ ♙ │   │   │   │");
}

#[test]
fn a_drawing_has_the_letters_and_seventeen_lines() {
    let start = Position::initial();
    let lines = draw(Box::new(start));
    assert_eq!(lines.len(), 18);
    assert_eq!(lines[0], "   A   B   C   D   E   F   G   H   ");
    for count in 1..18 {
        assert_eq!(lines[count], draw_horizontal(count as i32, &start));
    }
}
