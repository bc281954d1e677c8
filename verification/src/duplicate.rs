//! Repeated boards in a game log.
//!
//! A game log is a list of lines. A line that holds only `#` announces a
//! board: the eighteen lines after it are the board's drawing, and the line
//! after those closes the board, whatever it holds. A board that the log ends
//! in the middle of does not count.
//!
//! Two boards count as the same when their drawings are equal once blanks and
//! line ends around them are trimmed off.

use vstd::prelude::*;
use vstd::string::StringExecFns;

verus! {

/// How many lines a drawing has.
pub const DRAWING_LINES: usize = 18;

/// What `str::trim` leaves of a text.
pub uninterp spec fn trimmed(text: Seq<char>) -> Seq<char>;

/// Whether `part` is a stretch of `whole`: what is left of it when something
/// is taken away from its two ends.
pub open spec fn is_stretch_of(part: Seq<char>, whole: Seq<char>) -> bool {
    exists|from: int, to: int|
        0 <= from <= to <= whole.len() && part == #[trigger] whole.subrange(from, to)
}

/// Not verified: calls `str::trim`. The contract claims that what is left
/// depends on the characters of the text alone, and that it is a stretch of
/// the text: trimming only takes away from the two ends.
#[verifier::external_body]
fn trim_text(text: &str) -> (rest: &str)
    ensures
        rest@ == trimmed(text@),
        is_stretch_of(rest@, text@),
{
    text.trim()
}

/// The line that announces a board.
pub open spec fn marker() -> Seq<char> {
    "#"@
}

/// The `count` lines from `from` on, each closed by a line feed.
pub open spec fn joined(lines: Seq<Seq<char>>, from: int, count: int) -> Seq<char>
    decreases count,
{
    if count <= 0 {
        Seq::empty()
    } else {
        joined(lines, from, count - 1) + lines[from + count - 1] + "\n"@
    }
}

/// The boards that the log holds from line `from` on, in their order.
pub open spec fn boards_in(lines: Seq<Seq<char>>, from: int) -> Seq<Seq<char>>
    decreases lines.len() - from,
{
    if from < 0 || from >= lines.len() {
        Seq::empty()
    } else if lines[from] != marker() {
        boards_in(lines, from + 1)
    } else if from + DRAWING_LINES + 1 >= lines.len() {
        Seq::empty()
    } else {
        seq![joined(lines, from + 1, DRAWING_LINES as int)] + boards_in(
            lines,
            from + DRAWING_LINES + 2,
        )
    }
}

/// Whether two drawings show the same board.
pub open spec fn same_board(first: Seq<char>, second: Seq<char>) -> bool {
    trimmed(first) == trimmed(second)
}

/// The test for showing the same board as `board`.
pub open spec fn shows(board: Seq<char>) -> spec_fn(Seq<char>) -> bool {
    |other: Seq<char>| same_board(other, board)
}

/// How many of the boards show the same board as `board`.
pub open spec fn copies(boards: Seq<Seq<char>>, board: Seq<char>) -> nat {
    boards.filter(shows(board)).len()
}

/// The test for occurring twice or more among `boards`.
pub open spec fn recurs(boards: Seq<Seq<char>>) -> spec_fn(Seq<char>) -> bool {
    |board: Seq<char>| copies(boards, board) >= 2
}

/// A board that a log holds more than once, and how often it holds it.
#[derive(Debug, PartialEq, Eq)]
pub struct Repeat {
    pub board: String,
    pub count: usize,
}

/// Whether `found` lists those of `some` that occur twice or more among
/// `boards`, in their order, each with the number of its occurrences.
pub open spec fn lists_repeats_among(
    boards: Seq<Seq<char>>,
    some: Seq<Seq<char>>,
    found: Seq<Repeat>,
) -> bool {
    let repeated = some.filter(recurs(boards));
    &&& found.len() == repeated.len()
    &&& forall|k: int|
        0 <= k < found.len() ==> (#[trigger] found[k]).board@ == repeated[k] && found[k].count
            == copies(boards, repeated[k])
}

/// Whether `found` lists the boards that occur twice or more, in the order
/// of the boards, each with the number of its occurrences. A board is listed
/// once for every time it occurs.
pub open spec fn lists_repeats(boards: Seq<Seq<char>>, found: Seq<Repeat>) -> bool {
    lists_repeats_among(boards, boards, found)
}

/// Taking one more board into account.
proof fn lemma_filter_step(boards: Seq<Seq<char>>, upto: int, test: spec_fn(Seq<char>) -> bool)
    requires
        0 <= upto < boards.len(),
    ensures
        boards.take(upto + 1).filter(test) == if test(boards[upto]) {
            boards.take(upto).filter(test).push(boards[upto])
        } else {
            boards.take(upto).filter(test)
        },
{
    reveal(Seq::filter);
    assert(boards.take(upto + 1).drop_last() == boards.take(upto));
}

/// The boards of a log.
pub fn boards(lines: &Vec<String>) -> (found: Vec<String>)
    ensures
        found.deep_view() == boards_in(lines.deep_view(), 0),
{
    let hash = "#".to_owned();
    let mut found: Vec<String> = Vec::new();
    let mut i: usize = 0;
    while i < lines.len()
        invariant
            i <= lines.len(),
            hash@ == marker(),
            found.deep_view() + boards_in(lines.deep_view(), i as int) == boards_in(
                lines.deep_view(),
                0,
            ),
        decreases lines.len() - i,
    {
        if lines[i] != hash {
            i += 1;
        } else if lines.len() - i <= DRAWING_LINES + 1 {
            i = lines.len();
        } else {
            let mut board = String::new();
            let mut k: usize = 0;
            while k < DRAWING_LINES
                invariant
                    k <= DRAWING_LINES,
                    i + DRAWING_LINES + 1 < lines.len(),
                    board@ == joined(lines.deep_view(), i + 1, k as int),
                decreases DRAWING_LINES - k,
            {
                board.append(lines[i + 1 + k].as_str());
                board.append("\n");
                k += 1;
            }
            found.push(board);
            i += DRAWING_LINES + 2;
        }
    }
    found
}

/// Whether two drawings show the same board.
pub fn is_same_board(first: &String, second: &String) -> (same: bool)
    ensures
        same == same_board(first@, second@),
{
    trim_text(first.as_str()).to_owned() == trim_text(second.as_str()).to_owned()
}

/// How many of the boards show the same board as `board`.
pub fn count_copies(boards: &Vec<String>, board: &String) -> (count: usize)
    ensures
        count == copies(boards.deep_view(), board@),
{
    let mut count: usize = 0;
    let mut j: usize = 0;
    proof {
        reveal(Seq::filter);
    }
    while j < boards.len()
        invariant
            j <= boards.len(),
            count <= j,
            count == copies(boards.deep_view().take(j as int), board@),
        decreases boards.len() - j,
    {
        proof {
            lemma_filter_step(boards.deep_view(), j as int, shows(board@));
        }
        if is_same_board(&boards[j], board) {
            count += 1;
        }
        j += 1;
    }
    assert(boards.deep_view().take(j as int) == boards.deep_view());
    count
}

/// The boards that occur twice or more, each with the number of its
/// occurrences. A board is listed once for every time it occurs.
pub fn duplicates(boards: &Vec<String>) -> (found: Vec<Repeat>)
    ensures
        lists_repeats(boards.deep_view(), found@),
{
    let ghost texts = boards.deep_view();
    let mut found: Vec<Repeat> = Vec::new();
    let mut i: usize = 0;
    proof {
        reveal(Seq::filter);
    }
    while i < boards.len()
        invariant
            i <= boards.len(),
            texts == boards.deep_view(),
            lists_repeats_among(texts, texts.take(i as int), found@),
        decreases boards.len() - i,
    {
        proof {
            lemma_filter_step(texts, i as int, recurs(texts));
        }
        let count: usize = count_copies(boards, &boards[i]);
        if count >= 2 {
            found.push(Repeat { board: boards[i].clone(), count });
        }
        i += 1;
    }
    assert(texts.take(i as int) == texts);
    found
}

} // verus!
