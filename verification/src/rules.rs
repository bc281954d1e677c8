//! The boundary with the rules engine.
//!
//! Legality, move application and game status are the `chess` crate's. This
//! module carries its `Board` around as an opaque value and gives each answer
//! of the engine a name, so that the rest of the library can be specified over
//! plain values: a position is viewed as the characters of its FEN record.
//!
//! Nothing about the engine is proved here. The functions marked
//! `external_body` call it, and their contracts say that an answer is the
//! named function of the board's record: the same record always gets the same
//! answer. Beyond that they state what the engine's source and documentation
//! show: the record of the starting position and its twenty moves, that the
//! side to move is the one the record names, that a move passes the turn,
//! and that a game goes on exactly where a move is left. Everything else in
//! the library is verified against those contracts.
//!
//! A position is the starting position, a position that a legal move leads
//! to, or one read from a record. The engine reads records with little care,
//! so the library checks a record itself before it hands it over.
//!
//! A board also keeps which pieces give check and which are pinned, and the
//! record does not show these. On the boards made in the three ways above
//! they follow from what the record shows: the engine works them out afresh
//! for a record it reads, and keeps them right across every move its own
//! generator lists. That is what lets the names here go by the record alone,
//! and why no board comes in from outside and no move is played that the
//! generator did not list.

use chess::{Board, BoardStatus, ChessMove, Color, MoveGen, Piece, ALL_SQUARES};
use std::str::FromStr;
use vstd::prelude::*;
use vstd::utf8::is_ascii_chars;

verus! {

/// `chess::Board`, whose fields this library never looks into.
#[verifier::external_type_specification]
#[verifier::external_body]
pub struct ExBoard(chess::Board);

/// One of the two players.
#[derive(Clone, Copy, Debug, PartialEq, Eq, Structural)]
pub enum Side {
    White,
    Black,
}

/// The kind of a chess piece.
#[derive(Clone, Copy, Debug, PartialEq, Eq, Structural)]
pub enum PieceKind {
    Pawn,
    Knight,
    Bishop,
    Rook,
    Queen,
    King,
}

/// Whether a position still has moves, and if not, why.
#[derive(Clone, Copy, Debug, PartialEq, Eq, Structural)]
pub enum Status {
    Ongoing,
    Stalemate,
    Checkmate,
}

/// A move: the squares it leaves and reaches, numbered 0 (a1) to 63 (h8) rank
/// by rank, and the piece a pawn turns into on the last rank.
#[derive(Clone, Copy, Debug, PartialEq, Eq)]
pub struct Move {
    pub source: u8,
    pub dest: u8,
    pub promotion: Option<PieceKind>,
}

impl Move {
    /// Whether two moves are the same move.
    pub fn same(&self, other: &Move) -> (same: bool)
        ensures
            same == (*self == *other),
    {
        let promotion = match (self.promotion, other.promotion) {
            (Some(a), Some(b)) => a == b,
            (None, None) => true,
            _ => false,
        };
        self.source == other.source && self.dest == other.dest && promotion
    }
}

/// What a board holds: the FEN record that its `Display` writes, with the
/// pieces on their squares, the side to move, the castling rights and, where
/// a pawn can be taken in passing, the square that pawn stands on.
pub uninterp spec fn fen_of(board: Board) -> Seq<char>;

/// The moves `MoveGen::new_legal` yields on the board with this record, in
/// the order in which it yields them.
pub uninterp spec fn legal_moves_of(fen: Seq<char>) -> Seq<Move>;

/// The record of the board that `Board::make_move_new` returns.
pub uninterp spec fn fen_after(fen: Seq<char>, m: Move) -> Seq<char>;

/// What `Board::piece_on` finds on a square.
pub uninterp spec fn piece_at(fen: Seq<char>, square: u8) -> Option<PieceKind>;

/// What `Board::status` reports.
pub uninterp spec fn status_of(fen: Seq<char>) -> Status;

/// Whether the first blank of a record stands at `at`.
pub open spec fn is_first_blank(fen: Seq<char>, at: int) -> bool {
    &&& 0 <= at < fen.len()
    &&& fen[at] == ' '
    &&& forall|j: int| 0 <= j < at ==> #[trigger] fen[j] != ' '
}

/// The side to move as a record shows it: White where a `w` follows the
/// first blank, else Black.
pub open spec fn mover_of(fen: Seq<char>) -> Side {
    if exists|at: int| #[trigger]
        is_first_blank(fen, at) && at + 1 < fen.len() && fen[at + 1] == 'w' {
        Side::White
    } else {
        Side::Black
    }
}

/// The bits of `Board::color_combined`: the squares that one side occupies.
pub uninterp spec fn occupancy_of(fen: Seq<char>, side: Side) -> u64;

/// The piece on a square; nothing beyond the board.
pub open spec fn occupant(fen: Seq<char>, square: u8) -> Option<PieceKind> {
    if square < 64 {
        piece_at(fen, square)
    } else {
        None
    }
}

/// Whether a side occupies a square.
pub open spec fn holds(fen: Seq<char>, side: Side, square: u8) -> bool {
    square < 64 && (occupancy_of(fen, side) >> (square as u64)) & 1 == 1
}

/// The side whose piece stands on a square: as `Board::color_on` has it,
/// White where White occupies the square, else Black where Black does.
pub open spec fn owner(fen: Seq<char>, square: u8) -> Option<Side> {
    if holds(fen, Side::White, square) {
        Some(Side::White)
    } else if holds(fen, Side::Black, square) {
        Some(Side::Black)
    } else {
        None
    }
}

/// The piece that stands where a move lands, before the move is made. A pawn
/// taken in passing does not stand there.
pub open spec fn capture_of(fen: Seq<char>, m: Move) -> Option<PieceKind> {
    occupant(fen, m.dest)
}

/// The record of the board that `Board::from_str` reads from a text, where
/// it reads one.
pub uninterp spec fn record_read(text: Seq<char>) -> Option<Seq<char>>;

/// Whether a character stands for a white piece other than the king.
pub open spec fn is_white_letter(c: char) -> bool {
    c == 'P' || c == 'N' || c == 'B' || c == 'R' || c == 'Q'
}

/// Whether a character stands for a black piece other than the king.
pub open spec fn is_black_letter(c: char) -> bool {
    c == 'p' || c == 'n' || c == 'b' || c == 'r' || c == 'q'
}

/// How far the reading of a piece placement has come: the ranks closed, the
/// squares filled in the open rank, the pieces each side has, and whether its
/// king is among them.
pub struct Filled {
    pub ranks: int,
    pub files: int,
    pub white: int,
    pub black: int,
    pub white_king: bool,
    pub black_king: bool,
}

/// How many pieces a side can have.
pub const ARMY: u8 = 16;

/// Whether the piece placement of a record, read on from `at`, fills the
/// board squarely: what follows fills every rank with exactly eight squares,
/// closes seven ranks with a stroke and ends the eighth at a blank or at the
/// end of the text, gives neither side more than sixteen pieces, and by the
/// end has given each side exactly one king.
pub open spec fn placement_holds(text: Seq<char>, at: int, so_far: Filled) -> bool
    decreases text.len() - at,
{
    if at < 0 {
        false
    } else if at >= text.len() || text[at] == ' ' {
        so_far.ranks == 7 && so_far.files == 8 && so_far.white_king && so_far.black_king
    } else if text[at] == '/' {
        so_far.files == 8 && so_far.ranks < 7 && placement_holds(
            text,
            at + 1,
            (Filled { ranks: so_far.ranks + 1, files: 0, ..so_far }),
        )
    } else if '1' <= text[at] <= '8' {
        let run = text[at] as int - '0' as int;
        so_far.files + run <= 8 && placement_holds(
            text,
            at + 1,
            (Filled { files: so_far.files + run, ..so_far }),
        )
    } else if text[at] == 'K' || is_white_letter(text[at]) {
        so_far.files < 8 && so_far.white < ARMY && !(text[at] == 'K' && so_far.white_king)
            && placement_holds(
            text,
            at + 1,
            (Filled {
                files: so_far.files + 1,
                white: so_far.white + 1,
                white_king: so_far.white_king || text[at] == 'K',
                ..so_far
            }),
        )
    } else if text[at] == 'k' || is_black_letter(text[at]) {
        so_far.files < 8 && so_far.black < ARMY && !(text[at] == 'k' && so_far.black_king)
            && placement_holds(
            text,
            at + 1,
            (Filled {
                files: so_far.files + 1,
                black: so_far.black + 1,
                black_king: so_far.black_king || text[at] == 'k',
                ..so_far
            }),
        )
    } else {
        false
    }
}

/// The state before anything is read.
pub open spec fn nothing_filled() -> Filled {
    Filled { ranks: 0, files: 0, white: 0, black: 0, white_king: false, black_king: false }
}

/// Where a field starts that lies `blanks` blanks further on than `at`. A
/// text with fewer blanks than that has no such field, and the answer lies
/// beyond its end.
pub open spec fn field_start(text: Seq<char>, at: int, blanks: nat) -> int
    decreases text.len() - at,
{
    if blanks == 0 {
        at
    } else if at < 0 || at >= text.len() {
        (text.len() + 1) as int
    } else if text[at] == ' ' {
        field_start(text, at + 1, (blanks - 1) as nat)
    } else {
        field_start(text, at + 1, blanks)
    }
}

/// Whether a record grants no capture in passing: it has a fourth field, and
/// that field is a lone `-`.
pub open spec fn grants_no_passing(text: Seq<char>) -> bool {
    let start = field_start(text, 0, 3);
    &&& 0 <= start < text.len()
    &&& text[start] == '-'
    &&& (start + 1 == text.len() || text[start + 1] == ' ')
}

/// Whether a text can be handed to the rules engine as a record: it is plain
/// ASCII, its piece placement fills the board squarely, with one king and at
/// most sixteen pieces a side, and it grants no capture in passing. The
/// engine itself takes less care, and must not be given less. A position in
/// which a pawn can be taken in passing is reached by playing the move that
/// allows it.
pub open spec fn is_whole_record(text: Seq<char>) -> bool {
    &&& is_ascii_chars(text)
    &&& placement_holds(text, 0, nothing_filled())
    &&& grants_no_passing(text)
}

/// Not verified: calls `Board::from_str`. Only whole records are admitted,
/// for four reasons. On a text without a king for the side to move the
/// parser looks up a table beyond its end. On a text that is not ASCII it may
/// index past the characters of the en-passant field. For a side of more
/// than sixteen pieces the move generator has no room. And the parser takes
/// an en-passant square on trust: with the side to move in check from a
/// knight, the generator then lists the capture in passing although it leaves
/// the king in check, a king can be taken a move later, and from there on the
/// boards the engine makes no longer agree with the records they write. The
/// contract claims that the outcome depends on the text alone.
#[verifier::external_body]
fn read_board(text: &str) -> (board: Option<Board>)
    requires
        is_whole_record(text@),
    ensures
        match board {
            Some(b) => record_read(text@) == Some(fen_of(b)),
            None => record_read(text@).is_none(),
        },
{
    Board::from_str(text).ok()
}

/// Whether a record of the given length grants no capture in passing.
fn checks_passing(text: &str, length: usize) -> (none: bool)
    requires
        length == text@.len(),
    ensures
        none == grants_no_passing(text@),
{
    let mut at: usize = 0;
    let mut blanks: u8 = 3;
    while blanks > 0 && at < length
        invariant
            at <= length,
            length == text@.len(),
            blanks <= 3,
            field_start(text@, 0, 3) == field_start(text@, at as int, blanks as nat),
        decreases length - at,
    {
        if text.get_char(at) == ' ' {
            blanks -= 1;
        }
        at += 1;
    }
    if blanks > 0 || at >= length {
        false
    } else if text.get_char(at) != '-' {
        false
    } else {
        at + 1 == length || text.get_char(at + 1) == ' '
    }
}

/// Whether a text is a whole record.
pub fn checks_record(text: &str) -> (whole: bool)
    ensures
        whole == is_whole_record(text@),
{
    if !text.is_ascii() {
        return false;
    }
    let length: usize = text.unicode_len();
    if !checks_passing(text, length) {
        return false;
    }
    let mut at: usize = 0;
    let mut ranks: u8 = 0;
    let mut files: u8 = 0;
    let mut white: u8 = 0;
    let mut black: u8 = 0;
    let mut white_king = false;
    let mut black_king = false;
    while at < length
        invariant
            at <= length,
            length == text@.len(),
            is_ascii_chars(text@),
            grants_no_passing(text@),
            ranks <= 7,
            files <= 8,
            white <= ARMY,
            black <= ARMY,
            placement_holds(text@, 0, nothing_filled()) == placement_holds(
                text@,
                at as int,
                (Filled {
                    ranks: ranks as int,
                    files: files as int,
                    white: white as int,
                    black: black as int,
                    white_king,
                    black_king,
                }),
            ),
        decreases length - at,
    {
        let c = text.get_char(at);
        if c == ' ' {
            return ranks == 7 && files == 8 && white_king && black_king;
        } else if c == '/' {
            if files != 8 || ranks >= 7 {
                return false;
            }
            ranks += 1;
            files = 0;
        } else if '1' <= c && c <= '8' {
            let run: u8 = (c as u32 - '0' as u32) as u8;
            if files + run > 8 {
                return false;
            }
            files += run;
        } else if c == 'K' || c == 'P' || c == 'N' || c == 'B' || c == 'R' || c == 'Q' {
            if files >= 8 || white >= ARMY || (c == 'K' && white_king) {
                return false;
            }
            files += 1;
            white += 1;
            white_king = white_king || c == 'K';
        } else if c == 'k' || c == 'p' || c == 'n' || c == 'b' || c == 'r' || c == 'q' {
            if files >= 8 || black >= ARMY || (c == 'k' && black_king) {
                return false;
            }
            files += 1;
            black += 1;
            black_king = black_king || c == 'k';
        } else {
            return false;
        }
        at += 1;
    }
    ranks == 7 && files == 8 && white_king && black_king
}

/// The record of the standard starting position.
pub open spec fn initial_fen() -> Seq<char> {
    "rnbqkbnr/pppppppp/8/8/8/8/PPPPPPPP/RNBQKBNR w KQkq - 0 1"@
}

/// Not verified: calls `Board::default`. The contract claims that the board
/// has the starting position's record, which is the text `Board::default`
/// parses and the text the crate writes for the board it gets, and that the
/// generator has twenty moves there, which is the count the crate's own
/// documentation shows for this board.
#[verifier::external_body]
fn initial_board() -> (board: Board)
    ensures
        fen_of(board) == initial_fen(),
        legal_moves_of(fen_of(board)).len() == 20,
{
    Board::default()
}

/// Not verified: calls `to_string`, which goes through `Board`'s `Display`.
/// The contract claims that the text is the board's record.
#[verifier::external_body]
fn board_fen(board: &Board) -> (text: String)
    ensures
        text@ == fen_of(*board),
{
    board.to_string()
}

/// Not verified: runs `MoveGen::new_legal` to its end and copies each
/// `ChessMove` field by field. The contract claims that the moves and their
/// order depend on the board's record alone.
#[verifier::external_body]
fn board_legal_moves(board: &Board) -> (moves: Vec<Move>)
    ensures
        moves@ == legal_moves_of(fen_of(*board)),
{
    MoveGen::new_legal(board).map(|m| Move {
        source: m.get_source().to_int(),
        dest: m.get_dest().to_int(),
        promotion: m.get_promotion().map(|p| match p {
            Piece::Pawn => PieceKind::Pawn,
            Piece::Knight => PieceKind::Knight,
            Piece::Bishop => PieceKind::Bishop,
            Piece::Rook => PieceKind::Rook,
            Piece::Queen => PieceKind::Queen,
            Piece::King => PieceKind::King,
        }),
    }).collect()
}

/// Not verified: calls `Board::make_move_new`. That function is only defined
/// for moves the generator produced, so only those are admitted. The contract
/// claims that the record of the new board depends on the old record and the
/// move alone, and that the move passes the turn to the other side, which is
/// the last thing `Board::make_move` does.
#[verifier::external_body]
fn board_after(board: &Board, m: Move) -> (next: Board)
    requires
        legal_moves_of(fen_of(*board)).contains(m),
    ensures
        fen_of(next) == fen_after(fen_of(*board), m),
        mover_of(fen_of(next)) != mover_of(fen_of(*board)),
{
    let promotion = m.promotion.map(|k| match k {
        PieceKind::Pawn => Piece::Pawn,
        PieceKind::Knight => Piece::Knight,
        PieceKind::Bishop => Piece::Bishop,
        PieceKind::Rook => Piece::Rook,
        PieceKind::Queen => Piece::Queen,
        PieceKind::King => Piece::King,
    });
    let source = ALL_SQUARES[m.source as usize];
    let dest = ALL_SQUARES[m.dest as usize];
    board.make_move_new(ChessMove::new(source, dest, promotion))
}

/// Not verified: calls `Board::piece_on` for a square of the board. The
/// contract claims that the answer depends on the record and the square
/// alone.
#[verifier::external_body]
fn board_piece_on(board: &Board, square: u8) -> (piece: Option<PieceKind>)
    requires
        square < 64,
    ensures
        piece == piece_at(fen_of(*board), square),
{
    board.piece_on(ALL_SQUARES[square as usize]).map(|p| match p {
        Piece::Pawn => PieceKind::Pawn,
        Piece::Knight => PieceKind::Knight,
        Piece::Bishop => PieceKind::Bishop,
        Piece::Rook => PieceKind::Rook,
        Piece::Queen => PieceKind::Queen,
        Piece::King => PieceKind::King,
    })
}

/// Not verified: calls `Board::status`. The contract claims that the status
/// depends on the record alone, and that the game goes on exactly where the
/// generator has a move, which is how `Board::status` decides.
#[verifier::external_body]
fn board_status(board: &Board) -> (status: Status)
    ensures
        status == status_of(fen_of(*board)),
        status == Status::Ongoing <==> legal_moves_of(fen_of(*board)).len() > 0,
{
    match board.status() {
        BoardStatus::Ongoing => Status::Ongoing,
        BoardStatus::Stalemate => Status::Stalemate,
        BoardStatus::Checkmate => Status::Checkmate,
    }
}

/// Not verified: calls `Board::side_to_move`. The contract claims that the
/// side is the one the record shows: `Display` writes the pieces without a
/// blank, then a blank, then `w` for White and `b` for Black.
#[verifier::external_body]
fn board_mover(board: &Board) -> (side: Side)
    ensures
        side == mover_of(fen_of(*board)),
{
    match board.side_to_move() {
        Color::White => Side::White,
        Color::Black => Side::Black,
    }
}

/// Not verified: calls `Board::color_combined` and hands out the bits of the
/// `BitBoard`. The contract claims that they depend on the record and the side
/// alone.
#[verifier::external_body]
fn board_occupancy(board: &Board, side: Side) -> (bits: u64)
    ensures
        bits == occupancy_of(fen_of(*board), side),
{
    let color = match side {
        Side::White => Color::White,
        Side::Black => Color::Black,
    };
    board.color_combined(color).0
}

/// In the starting position White is to move.
pub proof fn lemma_white_opens()
    ensures
        mover_of(initial_fen()) == Side::White,
{
    reveal_strlit("rnbqkbnr/pppppppp/8/8/8/8/PPPPPPPP/RNBQKBNR w KQkq - 0 1");
    assert(is_first_blank(initial_fen(), 43));
}

/// A chess position. The board inside is the rules engine's; what the library
/// knows of it is its FEN record, which is the position's view.
#[derive(Clone, Copy, Debug, PartialEq, Eq)]
pub struct Position {
    board: Board,
}

impl View for Position {
    type V = Seq<char>;

    closed spec fn view(&self) -> Seq<char> {
        fen_of(self.board)
    }
}

impl Position {
    /// The standard starting position: White is to move and has twenty
    /// moves.
    pub fn initial() -> (p: Position)
        ensures
            p@ == initial_fen(),
            mover_of(p@) == Side::White,
            legal_moves_of(p@).len() == 20,
    {
        proof {
            lemma_white_opens();
        }
        Position { board: initial_board() }
    }

    /// The position that a record describes. There is none where the text
    /// is not a whole record, and none where the rules engine does not accept
    /// it; a position read has the record the engine read. A whole record
    /// grants no capture in passing: a position with such a right is reached
    /// by `apply`.
    pub fn from_fen(text: &str) -> (read: Option<Position>)
        ensures
            match read {
                Some(p) => is_whole_record(text@) && record_read(text@) == Some(p@),
                None => !is_whole_record(text@) || record_read(text@).is_none(),
            },
    {
        if !checks_record(text) {
            return None;
        }
        match read_board(text) {
            Some(board) => Some(Position { board }),
            None => None,
        }
    }

    /// The position's FEN record.
    pub fn fen(&self) -> (text: String)
        ensures
            text@ == self@,
    {
        board_fen(&self.board)
    }

    /// The side whose turn it is.
    pub fn side_to_move(&self) -> (side: Side)
        ensures
            side == mover_of(self@),
    {
        board_mover(&self.board)
    }

    /// The legal moves, in the order in which the rules engine generates them.
    pub fn legal_moves(&self) -> (moves: Vec<Move>)
        ensures
            moves@ == legal_moves_of(self@),
    {
        board_legal_moves(&self.board)
    }

    /// Whether the game goes on from here, or has ended in mate or stalemate.
    /// It goes on exactly where there is a legal move.
    pub fn status(&self) -> (status: Status)
        ensures
            status == status_of(self@),
            status == Status::Ongoing <==> legal_moves_of(self@).len() > 0,
    {
        board_status(&self.board)
    }

    /// The squares that `side` occupies, one bit per square.
    pub fn fingerprint(&self, side: Side) -> (bits: u64)
        ensures
            bits == occupancy_of(self@, side),
    {
        board_occupancy(&self.board, side)
    }

    /// The piece on a square, if any.
    pub fn piece_on(&self, square: u8) -> (piece: Option<PieceKind>)
        ensures
            piece == occupant(self@, square),
    {
        if square < 64 {
            board_piece_on(&self.board, square)
        } else {
            None
        }
    }

    /// The side whose piece stands on a square, if any.
    pub fn color_on(&self, square: u8) -> (side: Option<Side>)
        ensures
            side == owner(self@, square),
    {
        if square >= 64 {
            None
        } else if (self.fingerprint(Side::White) >> (square as u64)) & 1 == 1 {
            Some(Side::White)
        } else if (self.fingerprint(Side::Black) >> (square as u64)) & 1 == 1 {
            Some(Side::Black)
        } else {
            None
        }
    }

    /// The piece that stands where the move lands, if any.
    pub fn captured_by(&self, m: Move) -> (taken: Option<PieceKind>)
        ensures
            taken == capture_of(self@, m),
    {
        self.piece_on(m.dest)
    }

    /// The position after a legal move. The turn passes to the other side.
    pub fn apply(&self, m: Move) -> (next: Position)
        requires
            legal_moves_of(self@).contains(m),
        ensures
            next@ == fen_after(self@, m),
            mover_of(next@) != mover_of(self@),
    {
        Position { board: board_after(&self.board, m) }
    }

    /// Whether the move is among the legal ones.
    pub fn is_legal(&self, m: Move) -> (legal: bool)
        ensures
            legal == legal_moves_of(self@).contains(m),
    {
        let moves = self.legal_moves();
        let mut i: usize = 0;
        while i < moves.len()
            invariant
                i <= moves.len(),
                moves@ == legal_moves_of(self@),
                forall|j: int| 0 <= j < i ==> moves@[j] != m,
            decreases moves.len() - i,
        {
            if moves[i].same(&m) {
                assert(moves@[i as int] == m);
                return true;
            }
            i += 1;
        }
        false
    }

    /// The position after the move, or nothing where the move is not legal.
    pub fn try_apply(&self, m: Move) -> (next: Option<Position>)
        ensures
            match next {
                Some(p) => {
                    &&& legal_moves_of(self@).contains(m)
                    &&& p@ == fen_after(self@, m)
                    &&& mover_of(p@) != mover_of(self@)
                },
                None => !legal_moves_of(self@).contains(m),
            },
    {
        if self.is_legal(m) {
            Some(self.apply(m))
        } else {
            None
        }
    }
}

} // verus!
