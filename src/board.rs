//! The board model: 64 square slots, each empty or holding one piece, plus
//! the side to move; and the placement of two kings that are not adjacent.

use vstd::prelude::*;
use crate::square::{N_SQUARES, within_king_step};

verus! {

/// Side of a piece, or side to move.
#[derive(Debug, Clone, Copy, PartialEq, Eq, Structural)]
pub enum Color {
    White,
    Black,
}

/// Kind of a chess piece.
#[derive(Debug, Clone, Copy, PartialEq, Eq, Structural)]
pub enum PieceType {
    Pawn,
    Rook,
    Knight,
    Bishop,
    Queen,
    King,
}

/// A piece: its kind and its side.
#[derive(Debug, Clone, Copy, PartialEq, Eq, Structural)]
pub struct Piece {
    pub piece_type: PieceType,
    pub color: Color,
}

/// The lowercase ASCII letter of a piece kind.
pub open spec fn lower_letter(t: PieceType) -> u8 {
    match t {
        PieceType::Pawn => 112u8,  // 'p'
        PieceType::Rook => 114u8,  // 'r'
        PieceType::Knight => 110u8,  // 'n'
        PieceType::Bishop => 98u8,  // 'b'
        PieceType::Queen => 113u8,  // 'q'
        PieceType::King => 107u8,  // 'k'
    }
}

/// The ASCII letter of a piece: lowercase for Black, uppercase for White.
pub open spec fn piece_byte(p: Piece) -> u8 {
    match p.color {
        Color::White => (lower_letter(p.piece_type) - 32) as u8,
        Color::Black => lower_letter(p.piece_type),
    }
}

impl Piece {
    /// Returns the corresponding ASCII character of the piece:
    /// `p r n b q k` for Black, `P R N B Q K` for White.
    pub fn to_char(&self) -> (r: u8)
        ensures
            r == piece_byte(*self),
    {
        let letter: u8 = match self.piece_type {
            PieceType::Pawn => 112u8,  // 'p'
            PieceType::Rook => 114u8,  // 'r'
            PieceType::Knight => 110u8,  // 'n'
            PieceType::Bishop => 98u8,  // 'b'
            PieceType::Queen => 113u8,  // 'q'
            PieceType::King => 107u8,  // 'k'
        };
        match self.color {
            Color::White => letter - 32,  // ASCII upper case
            Color::Black => letter,
        }
    }
}

/// A 64-square board and the side to move.
pub struct Board {
    pub squares: [Option<Piece>; N_SQUARES],
    pub turn: Color,
}

/// The White King.
pub open spec fn white_king() -> Piece {
    Piece { piece_type: PieceType::King, color: Color::White }
}

/// The Black King.
pub open spec fn black_king() -> Piece {
    Piece { piece_type: PieceType::King, color: Color::Black }
}

/// The squares in `[from, 64)` that are neither `wk` nor one king step
/// away from it, in ascending order.
pub open spec fn free_from(wk: int, from: int) -> Seq<usize>
    decreases 64 - from,
{
    if from >= 64 {
        Seq::empty()
    } else if within_king_step(wk, from) {
        free_from(wk, from + 1)
    } else {
        seq![from as usize] + free_from(wk, from + 1)
    }
}

/// The squares where a Black King may stand beside a White King on `wk`,
/// in ascending order.
pub open spec fn free_squares_of(wk: int) -> Seq<usize> {
    free_from(wk, 0)
}

impl Board {
    /// The board holds a White King on `wk`, a Black King on `bk`, and
    /// nothing else; the two kings are on distinct squares more than one king
    /// step apart.
    pub open spec fn kings_placed(&self, wk: int, bk: int) -> bool {
        &&& 0 <= wk < 64
        &&& 0 <= bk < 64
        &&& wk != bk
        &&& !within_king_step(wk, bk)
        &&& forall|i: int|
            0 <= i < 64 ==> #[trigger] self.squares@[i] == if i == wk {
                Some(white_king())
            } else if i == bk {
                Some(black_king())
            } else {
                None::<Piece>
            }
    }

    /// The board holds exactly one White King and one Black King, on
    /// distinct squares more than one king step apart, and no other piece.
    pub open spec fn has_lone_kings(&self) -> bool {
        exists|wk: int, bk: int| #[trigger] self.kings_placed(wk, bk)
    }

    /// Creates a new empty board, White to move.
    pub fn new() -> (r: Board)
        ensures
            forall|i: int| 0 <= i < 64 ==> #[trigger] r.squares@[i] == None::<Piece>,
            r.turn == Color::White,
    {
        Board { squares: [None; N_SQUARES], turn: Color::White }
    }
}

} // verus!
