//! Placement of the two kings: the squares a White King excludes, the squares
//! left for the Black King, and the board built from the random draws.

use vstd::prelude::*;
use crate::board::{Board, Color, Piece, PieceType, free_from, free_squares_of};
use crate::square::{N_SQUARES, board_index_reverse, within_king_step};

verus! {

/// Whether squares `a` and `b` (both in range) are equal or one king step
/// apart.
fn near(a: usize, b: usize) -> (r: bool)
    requires
        a < N_SQUARES,
        b < N_SQUARES,
    ensures
        r == within_king_step(a as int, b as int),
{
    let (af, ar) = board_index_reverse(a);
    let (bf, br) = board_index_reverse(b);
    let df: usize = if af >= bf { af - bf } else { bf - af };
    let dr: usize = if ar >= br { ar - br } else { br - ar };
    df <= 1 && dr <= 1
}

/// The exclusion set of a White King on `wk`, as one flag per square: `wk`
/// itself and every square one king step from it, clipped to the board.
pub fn exclusion_squares(wk: usize) -> (r: [bool; N_SQUARES])
    requires
        wk < N_SQUARES,
    ensures
        forall|i: int| 0 <= i < 64 ==> #[trigger] r@[i] == within_king_step(wk as int, i),
{
    let mut excluded: [bool; N_SQUARES] = [false; N_SQUARES];
    let mut i: usize = 0;
    while i < N_SQUARES
        invariant
            wk < N_SQUARES,
            i <= N_SQUARES,
            forall|j: int| 0 <= j < i ==> #[trigger] excluded@[j] == within_king_step(wk as int, j),
        decreases N_SQUARES - i,
    {
        let e = near(wk, i);
        excluded[i] = e;
        i += 1;
    }
    excluded
}

/// Facts about `free_from`: its squares lie in `[from, 64)`, are not within
/// a king step of `wk`, are strictly ascending, and include every such square.
proof fn lemma_free_from(wk: int, from: int)
    requires
        0 <= from <= 64,
    ensures
        forall|j: int| 0 <= j < free_from(wk, from).len() ==> {
            &&& from <= #[trigger] free_from(wk, from)[j] < 64
            &&& !within_king_step(wk, free_from(wk, from)[j] as int)
        },
        forall|j: int, k: int|
            0 <= j < k < free_from(wk, from).len() ==> #[trigger] free_from(wk, from)[j]
                < #[trigger] free_from(wk, from)[k],
        forall|s: int|
            from <= s < 64 && !within_king_step(wk, s) ==> #[trigger] free_from(wk, from).contains(
                s as usize,
            ),
    decreases 64 - from,
{
    if from < 64 {
        lemma_free_from(wk, from + 1);
        let rest = free_from(wk, from + 1);
        if !within_king_step(wk, from) {
            let all = free_from(wk, from);
            assert(all == seq![from as usize] + rest);
            assert forall|s: int| from <= s < 64 && !within_king_step(wk, s) implies #[trigger] all.contains(
                s as usize,
            ) by {
                if s == from {
                    assert(all[0] == s as usize);
                } else {
                    assert(rest.contains(s as usize));
                    let k = choose|k: int| 0 <= k < rest.len() && rest[k] == s as usize;
                    assert(all[k + 1] == s as usize);
                }
            }
        }
    }
}

/// Every White King square leaves at least one square free for the Black
/// King, and each free square is more than a king step from it.
pub proof fn lemma_free_squares(wk: int)
    requires
        0 <= wk < 64,
    ensures
        free_squares_of(wk).len() > 0,
        forall|j: int| 0 <= j < free_squares_of(wk).len() ==> {
            &&& #[trigger] free_squares_of(wk)[j] < 64
            &&& !within_king_step(wk, free_squares_of(wk)[j] as int)
        },
{
    lemma_free_from(wk, 0);
    let far: int = if wk < 32 { 63 } else { 0 };
    assert(!within_king_step(wk, far));
    assert(free_from(wk, 0).contains(far as usize));
}

/// The squares not in the exclusion set of a White King on `wk`, in
/// ascending order.
pub fn free_squares(wk: usize) -> (r: Vec<usize>)
    requires
        wk < N_SQUARES,
    ensures
        r@ == free_squares_of(wk as int),
{
    let excluded = exclusion_squares(wk);
    let mut free: Vec<usize> = Vec::new();
    let mut i: usize = 0;
    while i < N_SQUARES
        invariant
            wk < N_SQUARES,
            i <= N_SQUARES,
            forall|j: int| 0 <= j < 64 ==> #[trigger] excluded@[j] == within_king_step(wk as int, j),
            free@ + free_from(wk as int, i as int) == free_from(wk as int, 0),
        decreases N_SQUARES - i,
    {
        if !excluded[i] {
            assert(free_from(wk as int, i as int) == seq![i] + free_from(wk as int, i + 1));
            free.push(i);
            assert(free@ + free_from(wk as int, i + 1) =~= free_from(wk as int, 0));
        }
        i += 1;
    }
    assert(free@ =~= free@ + free_from(wk as int, 64));
    free
}

impl Board {
    /// A board with `turn` to move, a White King on `wk`, a Black King on
    /// `bk`, and no other piece.
    pub fn with_kings(turn: Color, wk: usize, bk: usize) -> (r: Board)
        requires
            wk < N_SQUARES,
            bk < N_SQUARES,
            !within_king_step(wk as int, bk as int),
        ensures
            r.kings_placed(wk as int, bk as int),
            r.turn == turn,
    {
        let mut board = Board::new();
        board.turn = turn;
        board.squares[wk] = Some(Piece { piece_type: PieceType::King, color: Color::White });
        board.squares[bk] = Some(Piece { piece_type: PieceType::King, color: Color::Black });
        board
    }

    /// The board that the random draws select: White to move when
    /// `white_to_move`, the White King on square `wk`, and the Black King on
    /// the `pick`-th square (from 0, ascending) not excluded by it.
    pub fn from_draws(white_to_move: bool, wk: usize, pick: usize) -> (r: Board)
        requires
            wk < N_SQUARES,
            pick < free_squares_of(wk as int).len(),
        ensures
            r.kings_placed(wk as int, free_squares_of(wk as int)[pick as int] as int),
            r.turn == if white_to_move { Color::White } else { Color::Black },
    {
        let turn = if white_to_move { Color::White } else { Color::Black };
        let free = free_squares(wk);
        proof {
            lemma_free_squares(wk as int);
        }
        let bk = free[pick];
        Board::with_kings(turn, wk, bk)
    }
}

} // verus!
