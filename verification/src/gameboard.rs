//! The board as text.
//!
//! A drawing has a line of file letters and then seventeen lines: a border,
//! the eight ranks from the first to the eighth with a separator between any
//! two, and a border. A rank starts with its number, and each of its squares
//! shows the figure of the piece that stands on it. A line can be asked for
//! by any number: numbers beyond the seventeen go on in the same way, even
//! ones for ranks and odd ones for separators.

use crate::rules::{occupant, owner, PieceKind, Position, Side};
use vstd::prelude::*;
use vstd::string::StringExecFns;

verus! {

/// The figure for a piece of a colour; a blank for an empty square.
pub open spec fn figure(piece: Option<PieceKind>, color: Side) -> Seq<char> {
    match piece {
        Some(p) => match color {
            Side::Black => match p {
                PieceKind::Bishop => "♝"@,
                PieceKind::King => "♚"@,
                PieceKind::Knight => "♞"@,
                PieceKind::Pawn => "♟"@,
                PieceKind::Queen => "♛"@,
                PieceKind::Rook => "♜"@,
            },
            Side::White => match p {
                PieceKind::Bishop => "♗"@,
                PieceKind::King => "♔"@,
                PieceKind::Knight => "♘"@,
                PieceKind::Pawn => "♙"@,
                PieceKind::Queen => "♕"@,
                PieceKind::Rook => "♖"@,
            },
        },
        None => " "@,
    }
}

/// A digit as it is written.
pub open spec fn digit_text(digit: int) -> Seq<char> {
    if digit == 0 {
        "0"@
    } else if digit == 1 {
        "1"@
    } else if digit == 2 {
        "2"@
    } else if digit == 3 {
        "3"@
    } else if digit == 4 {
        "4"@
    } else if digit == 5 {
        "5"@
    } else if digit == 6 {
        "6"@
    } else if digit == 7 {
        "7"@
    } else if digit == 8 {
        "8"@
    } else {
        "9"@
    }
}

/// A number that is not negative as it is written in decimal digits.
pub open spec fn digits(number: nat) -> Seq<char>
    decreases number,
{
    if number < 10 {
        digit_text(number as int)
    } else {
        digits(number / 10) + digit_text((number % 10) as int)
    }
}

/// A number as it is written in decimal digits, with a minus sign before a
/// negative one.
pub open spec fn decimal(number: int) -> Seq<char> {
    if number < 0 {
        "-"@ + digits((-number) as nat)
    } else {
        digits(number as nat)
    }
}

/// The label of a rank line: half the line's number.
pub open spec fn rank_label(number: int) -> Seq<char> {
    decimal(number)
}

/// One square of a rank: its figure between blanks, closed by a bar. An
/// empty square has no colour and is drawn as Black's.
pub open spec fn cell(fen: Seq<char>, square: u8) -> Seq<char> {
    let color = match owner(fen, square) {
        Some(side) => side,
        None => Side::Black,
    };
    " "@ + figure(occupant(fen, square), color) + " │"@
}

/// The first `files` squares of a rank, from the a-file on.
pub open spec fn cells(fen: Seq<char>, rank: int, files: int) -> Seq<char>
    decreases files,
{
    if files <= 0 {
        Seq::empty()
    } else {
        cells(fen, rank, files - 1) + cell(fen, (rank * 8 + files - 1) as u8)
    }
}

/// The line of file letters above a drawing.
pub open spec fn letters() -> Seq<char> {
    "   A   B   C   D   E   F   G   H   "@
}

/// Line `count` of a drawing. Lines 1 and 17 are the borders. An even line
/// is a rank: it is labelled with half its number and shows the rank below
/// the one so numbered, counted round by eight, so the lines 2 to 16 show
/// the first rank to the eighth. Every other line is a separator.
pub open spec fn horizontal(count: int, fen: Seq<char>) -> Seq<char> {
    if count == 1 {
        " ┌───┬───┬───┬───┬───┬───┬───┬───┐"@
    } else if count == 17 {
        " └───┴───┴───┴───┴───┴───┴───┴───┘"@
    } else if count % 2 == 0 {
        rank_label(count / 2) + "│"@ + cells(fen, (count / 2 - 1) % 8, 8)
    } else {
        " ├───┼───┼───┼───┼───┼───┼───┼───┤"@
    }
}

/// Converts a piece and a colour into a figure.
pub fn draw_piece(piece: Option<PieceKind>, color: Side) -> (text: String)
    ensures
        text@ == figure(piece, color),
{
    match piece {
        Some(p) => match color {
            Side::Black => match p {
                PieceKind::Bishop => "♝".to_owned(),
                PieceKind::King => "♚".to_owned(),
                PieceKind::Knight => "♞".to_owned(),
                PieceKind::Pawn => "♟".to_owned(),
                PieceKind::Queen => "♛".to_owned(),
                PieceKind::Rook => "♜".to_owned(),
            },
            Side::White => match p {
                PieceKind::Bishop => "♗".to_owned(),
                PieceKind::King => "♔".to_owned(),
                PieceKind::Knight => "♘".to_owned(),
                PieceKind::Pawn => "♙".to_owned(),
                PieceKind::Queen => "♕".to_owned(),
                PieceKind::Rook => "♖".to_owned(),
            },
        },
        None => " ".to_owned(),
    }
}

/// The number of the square on a rank and a file, both counted from 0 and
/// both counted round by eight.
pub fn get_square(rank: usize, file: usize) -> (square: u8)
    ensures
        square == (rank % 8) * 8 + file % 8,
{
    ((rank % 8) * 8 + file % 8) as u8
}

/// A digit as text.
fn digit_str(digit: u64) -> (text: &'static str)
    requires
        digit < 10,
    ensures
        text@ == digit_text(digit as int),
{
    if digit == 0 {
        "0"
    } else if digit == 1 {
        "1"
    } else if digit == 2 {
        "2"
    } else if digit == 3 {
        "3"
    } else if digit == 4 {
        "4"
    } else if digit == 5 {
        "5"
    } else if digit == 6 {
        "6"
    } else if digit == 7 {
        "7"
    } else if digit == 8 {
        "8"
    } else {
        "9"
    }
}

/// Writes the digits of a number after a text.
fn append_digits(text: &mut String, number: u64)
    ensures
        final(text)@ == old(text)@ + digits(number as nat),
    decreases number,
{
    if number >= 10 {
        append_digits(text, number / 10);
    }
    text.append(digit_str(number % 10));
}

/// One line of the drawing, chosen by its number: a border, a separator or
/// a rank.
pub fn draw_horizontal(count: i32, board: &Position) -> (line: String)
    ensures
        line@ == horizontal(count as int, board@),
{
    // The number moved up by an even amount, so that nothing below is
    // negative: it is even, and falls on a rank, exactly when `count` does.
    let raised: u64 = (count as i64 + 2147483648) as u64;
    if count == 1 {
        " ┌───┬───┬───┬───┬───┬───┬───┬───┐".to_owned()
    } else if count == 17 {
        " └───┴───┴───┴───┴───┴───┴───┴───┘".to_owned()
    } else if raised % 2 == 0 {
        let half: u64 = raised / 2;
        assert(half == count / 2 + 1073741824);
        let mut line = String::new();
        if half < 1073741824 {
            line.append("-");
            append_digits(&mut line, 1073741824 - half);
        } else {
            append_digits(&mut line, half - 1073741824);
        }
        assert(line@ == rank_label(count / 2));
        line.append("│");
        let rank: usize = ((half + 7) % 8) as usize;
        assert(rank == (count / 2 - 1) % 8);
        let mut file: usize = 0;
        while file < 8
            invariant
                file <= 8,
                rank < 8,
                rank == (count / 2 - 1) % 8,
                line@ == rank_label(count / 2) + "│"@ + cells(board@, rank as int, file as int),
            decreases 8 - file,
        {
            let square: u8 = get_square(rank, file);
            let color = match board.color_on(square) {
                Some(side) => side,
                None => Side::Black,
            };
            let text = draw_piece(board.piece_on(square), color);
            line.append(" ");
            line.append(text.as_str());
            line.append(" │");
            file += 1;
        }
        line
    } else {
        " ├───┼───┼───┼───┼───┼───┼───┼───┤".to_owned()
    }
}

/// The drawing of a board: the file letters and then the seventeen lines.
pub fn draw(board: Box<Position>) -> (lines: Vec<String>)
    ensures
        lines@.len() == 18,
        lines@[0]@ == letters(),
        forall|i: int| 1 <= i <= 17 ==> (#[trigger] lines@[i])@ == horizontal(i, board@),
{
    let mut lines: Vec<String> = Vec::new();
    lines.push("   A   B   C   D   E   F   G   H   ".to_owned());
    let mut i: i32 = 1;
    while i < 18
        invariant
            1 <= i <= 18,
            lines@.len() == i,
            lines@[0]@ == letters(),
            forall|j: int| 1 <= j < i ==> (#[trigger] lines@[j])@ == horizontal(j, board@),
        decreases 18 - i,
    {
        let line = draw_horizontal(i, &*board);
        lines.push(line);
        i += 1;
    }
    lines
}

} // verus!
