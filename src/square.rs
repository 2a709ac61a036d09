//! Squares of the board: a linear index in `[0, 64)` and its (file, rank) pair.

use vstd::prelude::*;

verus! {

/// Number of squares on the board.
pub const N_SQUARES: usize = 64;

/// The file (column) of a square index.
pub open spec fn file_of(index: int) -> int {
    index % 8
}

/// The rank (row) of a square index.
pub open spec fn rank_of(index: int) -> int {
    index / 8
}

/// The linear index of a (file, rank) pair.
pub open spec fn index_spec(file: int, rank: int) -> int {
    8 * rank + file
}

/// Absolute value on mathematical integers.
pub open spec fn abs(x: int) -> int {
    if x < 0 { -x } else { x }
}

/// Chebyshev (king-move) distance between two squares.
pub open spec fn king_distance(a: int, b: int) -> int {
    let df = abs(file_of(a) - file_of(b));
    let dr = abs(rank_of(a) - rank_of(b));
    if df >= dr { df } else { dr }
}

/// Square `b` is `a` itself or one king step away from it.
pub open spec fn within_king_step(a: int, b: int) -> bool {
    king_distance(a, b) <= 1
}

/// Takes a file and a rank (0..8) and returns a square number (0..64).
pub fn board_index(file: usize, rank: usize) -> (r: usize)
    requires
        file < 8,
        rank < 8,
    ensures
        r == index_spec(file as int, rank as int),
        r < N_SQUARES,
        file_of(r as int) == file,
        rank_of(r as int) == rank,
{
    8 * rank + file
}

/// Takes an index (0..64) and returns (file, rank).
pub fn board_index_reverse(index: usize) -> (r: (usize, usize))
    requires
        index < N_SQUARES,
    ensures
        r.0 == file_of(index as int),
        r.1 == rank_of(index as int),
        r.0 < 8,
        r.1 < 8,
        index_spec(r.0 as int, r.1 as int) == index,
{
    (index % 8, index / 8)
}

/// Converting a (file, rank) pair to an index and back gives the pair again.
pub proof fn lemma_coords_of_index(file: int, rank: int)
    requires
        0 <= file < 8,
        0 <= rank < 8,
    ensures
        file_of(index_spec(file, rank)) == file,
        rank_of(index_spec(file, rank)) == rank,
{
}

/// The 64 (file, rank) pairs map onto the 64 indices of `[0, 64)`, one to one:
/// every pair lands in range, distinct pairs land on distinct indices, and
/// every index is reached by some pair.
pub proof fn lemma_index_bijective()
    ensures
        forall|f: int, r: int| 0 <= f < 8 && 0 <= r < 8 ==> 0 <= #[trigger] index_spec(f, r) < 64,
        forall|f1: int, r1: int, f2: int, r2: int|
            0 <= f1 < 8 && 0 <= r1 < 8 && 0 <= f2 < 8 && 0 <= r2 < 8 && (f1 != f2 || r1 != r2)
                ==> #[trigger] index_spec(f1, r1) != #[trigger] index_spec(f2, r2),
        forall|i: int|
            0 <= i < 64 ==> {
                &&& 0 <= #[trigger] file_of(i) < 8
                &&& 0 <= rank_of(i) < 8
                &&& index_spec(file_of(i), rank_of(i)) == i
            },
{
}

} // verus!
