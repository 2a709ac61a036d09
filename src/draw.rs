//! Random generation of a board, drawing from rand's thread-local generator.

use vstd::prelude::*;
use rand::Rng;
use rand::rngs::ThreadRng;
use crate::board::{Board, free_squares_of};
use crate::placement::{free_squares, lemma_free_squares};
use crate::square::N_SQUARES;

verus! {

#[verifier::external_type_specification]
#[verifier::external_body]
pub struct ExThreadRng(ThreadRng);

/// Relies on `rand::rng`: a handle to the thread-local random generator.
#[verifier::external_body]
pub(crate) fn thread_rng() -> ThreadRng {
    rand::rng()
}

/// Relies on `Rng::random_ratio(1, 2)`: a fair coin. It panics only when the
/// denominator is 0 or the numerator exceeds it, which 1 and 2 rule out.
#[verifier::external_body]
fn coin(rng: &mut ThreadRng) -> bool {
    rng.random_ratio(1, 2)
}

/// Relies on `Rng::random_range` over `0..n`: a value drawn uniformly from
/// `[0, n)`. It panics on an empty range, which `n > 0` rules out.
#[verifier::external_body]
fn draw_below(rng: &mut ThreadRng, n: usize) -> (r: usize)
    requires
        n > 0,
    ensures
        r < n,
{
    rng.random_range(0..n)
}

impl Board {
    /// Generates a random board: a fair coin picks the side to move, the
    /// White King goes on a uniformly drawn square, and the Black King on a
    /// uniformly drawn square outside the White King's exclusion set.
    pub fn random(rng: &mut ThreadRng) -> (r: Board)
        ensures
            r.has_lone_kings(),
    {
        let white_to_move = coin(rng);
        let wk = draw_below(rng, N_SQUARES);
        let free = free_squares(wk);
        proof {
            lemma_free_squares(wk as int);
        }
        let pick = draw_below(rng, free.len());
        let board = Board::from_draws(white_to_move, wk, pick);
        assert(board.kings_placed(wk as int, free_squares_of(wk as int)[pick as int] as int));
        board
    }
}

} // verus!
