//! Random chess positions with two non-adjacent kings, written out in
//! Forsyth-Edwards Notation.

pub mod board;
pub mod draw;
pub mod fen;
pub mod fields;
pub mod placement;
pub mod square;

use vstd::prelude::*;
use crate::board::Board;
use crate::draw::thread_rng;
use crate::fen::fen_of;

verus! {

/// Returns the FEN of a random position: a White King and a Black King on
/// distinct, non-adjacent squares, no other piece, and a random side to move.
pub fn random_fen() -> (r: String)
    ensures
        exists|b: Board| b.has_lone_kings() && r@ == #[trigger] fen_of(b),
        r@.len() >= 9,
        r@[r@.len() - 9] == 'w' || r@[r@.len() - 9] == 'b',
        r@.subrange(r@.len() - 8, r@.len() as int) == " - - 0 1"@,
{
    let mut rng = thread_rng();
    let board = Board::random(&mut rng);
    board.to_str_fen()
}

} // verus!
