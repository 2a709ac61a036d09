//! Text forms of a board: Forsyth-Edwards Notation and a character grid.

use vstd::prelude::*;
use crate::board::{Board, Color, Piece, piece_byte};
use crate::square::board_index;

verus! {

/// The character of a piece letter.
pub open spec fn piece_char(p: Piece) -> char {
    piece_byte(p) as char
}

/// The decimal digit of `n`, for `n` in `[0, 9]`.
pub open spec fn digit_char(n: nat) -> char {
    ((48 + n) as u8) as char
}

/// The count of pending empty squares as text: nothing when there are none.
pub open spec fn flush(pending: nat) -> Seq<char> {
    if pending == 0 {
        Seq::empty()
    } else {
        seq![digit_char(pending)]
    }
}

/// Run-length encoding of a row of slots, with `pending` empty squares
/// already counted before it: each run of empty squares becomes its length
/// as a digit, each piece its letter.
pub open spec fn run_encode(cells: Seq<Option<Piece>>, pending: nat) -> Seq<char>
    decreases cells.len(),
{
    if cells.len() == 0 {
        flush(pending)
    } else {
        match cells[0] {
            Some(p) => flush(pending) + seq![piece_char(p)] + run_encode(cells.drop_first(), 0),
            None => run_encode(cells.drop_first(), pending + 1),
        }
    }
}

/// The eight slots of a rank, file 0 first.
pub open spec fn rank_cells(b: Board, rank: int) -> Seq<Option<Piece>> {
    b.squares@.subrange(8 * rank, 8 * rank + 8)
}

/// The FEN field of one rank.
pub open spec fn rank_field(b: Board, rank: int) -> Seq<char> {
    run_encode(rank_cells(b, rank), 0)
}

/// The FEN fields of ranks 7 down to `rank`, separated by `/`.
pub open spec fn ranks_from_top(b: Board, rank: int) -> Seq<char>
    decreases 7 - rank,
{
    if rank >= 7 {
        rank_field(b, 7)
    } else {
        ranks_from_top(b, rank + 1) + seq!['/'] + rank_field(b, rank)
    }
}

/// The board field of a FEN: all eight ranks, top first.
pub open spec fn board_field(b: Board) -> Seq<char> {
    ranks_from_top(b, 0)
}

/// The FEN letter of the side to move.
pub open spec fn turn_char(c: Color) -> char {
    match c {
        Color::White => 'w',
        Color::Black => 'b',
    }
}

/// The full FEN of a board: board field, side to move, and the fixed
/// castling, en-passant and move-counter fields.
pub open spec fn fen_of(b: Board) -> Seq<char> {
    board_field(b) + seq![' ', turn_char(b.turn)] + " - - 0 1"@
}

/// The grid character of a slot: the piece letter, or `.` when empty.
pub open spec fn cell_char(o: Option<Piece>) -> char {
    match o {
        Some(p) => piece_char(p),
        None => '.',
    }
}

/// One grid line: the eight slots of a rank, then a newline.
pub open spec fn grid_row(b: Board, rank: int) -> Seq<char> {
    Seq::new(8, |f: int| cell_char(b.squares@[8 * rank + f])).push('\n')
}

/// The grid lines of ranks 7 down to `rank`.
pub open spec fn rows_from_top(b: Board, rank: int) -> Seq<char>
    decreases 7 - rank,
{
    if rank >= 7 {
        grid_row(b, 7)
    } else {
        rows_from_top(b, rank + 1) + grid_row(b, rank)
    }
}

/// The grid text of a board: its eight lines, then the side to move.
pub open spec fn grid_of(b: Board) -> Seq<char> {
    rows_from_top(b, 0) + match b.turn {
        Color::White => "Turn: White"@,
        Color::Black => "Turn: Black"@,
    }
}

/// Relies on `String::push`: appends one character.
#[verifier::external_body]
fn push_char(s: &mut String, c: char)
    ensures
        final(s)@ == old(s)@.push(c),
{
    s.push(c)
}

/// Relies on `String::push_str`: appends the characters of `t`.
#[verifier::external_body]
fn push_text(s: &mut String, t: &str)
    ensures
        final(s)@ == old(s)@ + t@,
{
    s.push_str(t)
}

/// The digit of a count of empty squares, as a character.
fn count_char(n: u8) -> (r: char)
    requires
        n <= 9,
    ensures
        r == digit_char(n as nat),
{
    (48u8 + n) as char
}

impl Board {
    /// Returns the FEN of the board.
    pub fn to_str_fen(&self) -> (r: String)
        ensures
            r@ == fen_of(*self),
            r@.len() >= 9,
            r@[r@.len() - 9] == turn_char(self.turn),
            r@.subrange(r@.len() - 8, r@.len() as int) == " - - 0 1"@,
    {
        let mut fen = String::new();
        let mut rank: usize = 8;
        while rank > 0
            invariant
                rank <= 8,
                rank == 8 ==> fen@.len() == 0,
                rank < 8 ==> fen@ == ranks_from_top(*self, rank as int),
            decreases rank,
        {
            rank -= 1;
            if rank < 7 {
                push_char(&mut fen, '/');
            }
            let ghost before = fen@;
            let ghost cells = rank_cells(*self, rank as int);
            let mut empty_squares_count: u8 = 0;
            let mut file: usize = 0;
            assert(cells.subrange(0, 8) =~= cells);
            while file < 8
                invariant
                    rank < 8,
                    file <= 8,
                    empty_squares_count <= file,
                    cells == rank_cells(*self, rank as int),
                    fen@ + run_encode(cells.subrange(file as int, 8), empty_squares_count as nat)
                        == before + run_encode(cells, 0),
                decreases 8 - file,
            {
                let ghost rest = cells.subrange(file as int, 8);
                assert(rest.drop_first() =~= cells.subrange(file + 1, 8));
                assert(rest[0] == self.squares@[8 * rank + file]);
                let square = &self.squares[board_index(file, rank)];
                match square {
                    Some(piece) => {
                        let ghost prev = fen@;
                        let ghost k = empty_squares_count as nat;
                        if empty_squares_count != 0 {
                            let c = count_char(empty_squares_count);
                            push_char(&mut fen, c);
                            empty_squares_count = 0;
                        }
                        assert(fen@ =~= prev + flush(k));
                        push_char(&mut fen, piece.to_char() as char);
                        assert(fen@ + run_encode(cells.subrange(file + 1, 8), 0) =~= prev
                            + run_encode(rest, k));
                    },
                    None => {
                        empty_squares_count += 1;
                    },
                }
                file += 1;
            }
            let ghost prev = fen@;
            let ghost k = empty_squares_count as nat;
            assert(cells.subrange(8, 8) =~= Seq::<Option<Piece>>::empty());
            if empty_squares_count != 0 {
                let c = count_char(empty_squares_count);
                push_char(&mut fen, c);
            }
            assert(fen@ =~= prev + flush(k));
            assert(fen@ =~= before + rank_field(*self, rank as int));
        }
        push_char(&mut fen, ' ');
        let t = match self.turn {
            Color::White => 'w',
            Color::Black => 'b',
        };
        push_char(&mut fen, t);
        push_text(&mut fen, " - - 0 1");
        proof {
            reveal_strlit(" - - 0 1");
        }
        fen
    }

    /// Returns the board as a grid of characters, rank 7 first, one line per
    /// rank (`.` for an empty square), followed by the side to move.
    pub fn to_str(&self) -> (r: String)
        ensures
            r@ == grid_of(*self),
    {
        let mut s = String::new();
        let mut rank: usize = 8;
        while rank > 0
            invariant
                rank <= 8,
                rank == 8 ==> s@.len() == 0,
                rank < 8 ==> s@ == rows_from_top(*self, rank as int),
            decreases rank,
        {
            rank -= 1;
            let ghost before = s@;
            let mut file: usize = 0;
            while file < 8
                invariant
                    rank < 8,
                    file <= 8,
                    s@ == before + Seq::new(
                        file as nat,
                        |f: int| cell_char(self.squares@[8 * rank + f]),
                    ),
                decreases 8 - file,
            {
                let square = &self.squares[board_index(file, rank)];
                match square {
                    Some(piece) => push_char(&mut s, piece.to_char() as char),
                    None => push_char(&mut s, '.'),
                }
                assert(s@ =~= before + Seq::new(
                    (file + 1) as nat,
                    |f: int| cell_char(self.squares@[8 * rank + f]),
                ));
                file += 1;
            }
            push_char(&mut s, '\n');
            assert(s@ =~= before + grid_row(*self, rank as int));
        }
        match self.turn {
            Color::White => push_text(&mut s, "Turn: White"),
            Color::Black => push_text(&mut s, "Turn: Black"),
        }
        s
    }
}

} // verus!
