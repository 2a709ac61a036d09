//! The shape of a FEN's board field: eight `/`-separated rank fields, each
//! covering exactly eight squares.

use vstd::prelude::*;
use crate::board::{Board, Piece};
use crate::fen::{board_field, digit_char, fen_of, flush, piece_char, rank_cells, rank_field, ranks_from_top, run_encode, turn_char};

verus! {

/// An ASCII letter.
pub open spec fn is_letter(c: char) -> bool {
    ('a' <= c && c <= 'z') || ('A' <= c && c <= 'Z')
}

/// An ASCII decimal digit.
pub open spec fn is_digit(c: char) -> bool {
    '0' <= c && c <= '9'
}

/// How many squares a character of a rank field covers: a digit its value,
/// a letter one, anything else none.
pub open spec fn char_width(c: char) -> int {
    if is_digit(c) {
        c as u32 as int - 48
    } else if is_letter(c) {
        1
    } else {
        0
    }
}

/// How many squares a rank field covers: digit values plus letter count.
pub open spec fn field_width(s: Seq<char>) -> int
    decreases s.len(),
{
    if s.len() == 0 {
        0
    } else {
        char_width(s[0]) + field_width(s.drop_first())
    }
}

/// The pieces of `s` between occurrences of `sep`, as `str::split` gives
/// them: one more piece than there are separators.
pub open spec fn split_on(s: Seq<char>, sep: char) -> Seq<Seq<char>>
    decreases s.len(),
{
    if s.len() == 0 {
        seq![Seq::empty()]
    } else {
        let rest = split_on(s.drop_first(), sep);
        if s[0] == sep {
            seq![Seq::empty()] + rest
        } else {
            rest.update(0, seq![s[0]] + rest[0])
        }
    }
}

proof fn lemma_split_nonempty(s: Seq<char>, sep: char)
    ensures
        split_on(s, sep).len() >= 1,
    decreases s.len(),
{
    if s.len() > 0 {
        lemma_split_nonempty(s.drop_first(), sep);
    }
}

proof fn lemma_split_plain(s: Seq<char>, sep: char)
    requires
        !s.contains(sep),
    ensures
        split_on(s, sep) == seq![s],
    decreases s.len(),
{
    if s.len() > 0 {
        assert(!s.drop_first().contains(sep)) by {
            if s.drop_first().contains(sep) {
                let i = choose|i: int| 0 <= i < s.drop_first().len() && s.drop_first()[i] == sep;
                assert(s[i + 1] == sep);
            }
        }
        lemma_split_plain(s.drop_first(), sep);
        assert(s[0] != sep);
        assert(seq![s[0]] + s.drop_first() =~= s);
        assert(split_on(s, sep) =~= seq![s]);
    } else {
        assert(s =~= Seq::<char>::empty());
    }
}

proof fn lemma_split_join(x: Seq<char>, y: Seq<char>, sep: char)
    ensures
        split_on(x + seq![sep] + y, sep) == split_on(x, sep) + split_on(y, sep),
    decreases x.len(),
{
    let s = x + seq![sep] + y;
    if x.len() == 0 {
        assert(s.drop_first() =~= y);
        assert(split_on(s, sep) =~= split_on(x, sep) + split_on(y, sep));
    } else {
        assert(s.drop_first() =~= x.drop_first() + seq![sep] + y);
        lemma_split_join(x.drop_first(), y, sep);
        lemma_split_nonempty(x.drop_first(), sep);
        lemma_split_nonempty(y, sep);
        assert(split_on(s, sep) =~= split_on(x, sep) + split_on(y, sep));
    }
}

proof fn lemma_split_append_plain(x: Seq<char>, y: Seq<char>, sep: char)
    requires
        !y.contains(sep),
    ensures
        split_on(x + y, sep).len() == split_on(x, sep).len(),
    decreases x.len(),
{
    if x.len() == 0 {
        assert(x + y =~= y);
        lemma_split_plain(y, sep);
    } else {
        assert((x + y).drop_first() =~= x.drop_first() + y);
        lemma_split_append_plain(x.drop_first(), y, sep);
        lemma_split_nonempty(x.drop_first(), sep);
        lemma_split_nonempty(x.drop_first() + y, sep);
    }
}

/// A character of a rank field: a digit from 1 to 8, or a letter.
pub open spec fn is_rank_char(c: char) -> bool {
    ('1' <= c && c <= '8') || is_letter(c)
}

proof fn lemma_digit_char(n: nat)
    requires
        1 <= n <= 8,
    ensures
        '1' <= digit_char(n) <= '8',
        char_width(digit_char(n)) == n,
{
    if n == 1 {
        assert(digit_char(n) == '1');
    } else if n == 2 {
        assert(digit_char(n) == '2');
    } else if n == 3 {
        assert(digit_char(n) == '3');
    } else if n == 4 {
        assert(digit_char(n) == '4');
    } else if n == 5 {
        assert(digit_char(n) == '5');
    } else if n == 6 {
        assert(digit_char(n) == '6');
    } else if n == 7 {
        assert(digit_char(n) == '7');
    } else {
        assert(digit_char(n) == '8');
    }
}

proof fn lemma_piece_char(p: Piece)
    ensures
        is_letter(piece_char(p)),
        char_width(piece_char(p)) == 1,
{
}

proof fn lemma_run_encode(cells: Seq<Option<Piece>>, pending: nat)
    requires
        cells.len() + pending <= 8,
    ensures
        field_width(run_encode(cells, pending)) == cells.len() + pending,
        forall|i: int|
            0 <= i < run_encode(cells, pending).len() ==> is_rank_char(
                #[trigger] run_encode(cells, pending)[i],
            ),
    decreases cells.len(),
{
    let f = flush(pending);
    assert(field_width(f) == pending) by {
        if pending > 0 {
            assert(f.drop_first() =~= Seq::<char>::empty());
            assert(field_width(f.drop_first()) == 0);
            lemma_digit_char(pending);
            assert(f[0] == digit_char(pending));
        }
    }
    if cells.len() == 0 {
        if pending > 0 {
            lemma_digit_char(pending);
        }
    } else {
        match cells[0] {
            Some(p) => {
                lemma_run_encode(cells.drop_first(), 0);
                lemma_piece_char(p);
                let rest = run_encode(cells.drop_first(), 0);
                let head = f + seq![piece_char(p)];
                lemma_width_concat(f, seq![piece_char(p)]);
                assert(seq![piece_char(p)].drop_first() =~= Seq::<char>::empty());
                assert(field_width(seq![piece_char(p)].drop_first()) == 0);
                assert(field_width(seq![piece_char(p)]) == 1);
                lemma_width_concat(head, rest);
                let all = run_encode(cells, pending);
                assert(all == head + rest);
                assert forall|i: int| 0 <= i < all.len() implies is_rank_char(#[trigger] all[i]) by {
                    if i >= head.len() {
                        assert(all[i] == rest[i - head.len()]);
                    } else if i >= f.len() {
                        assert(all[i] == piece_char(p));
                    } else {
                        lemma_digit_char(pending);
                    }
                }
            },
            None => {
                lemma_run_encode(cells.drop_first(), pending + 1);
            },
        }
    }
}

proof fn lemma_width_concat(x: Seq<char>, y: Seq<char>)
    ensures
        field_width(x + y) == field_width(x) + field_width(y),
    decreases x.len(),
{
    if x.len() > 0 {
        assert((x + y).drop_first() =~= x.drop_first() + y);
        lemma_width_concat(x.drop_first(), y);
    } else {
        assert(x + y =~= y);
    }
}

proof fn lemma_rank_field(b: Board, rank: int)
    requires
        0 <= rank < 8,
    ensures
        field_width(rank_field(b, rank)) == 8,
        !rank_field(b, rank).contains('/'),
        !rank_field(b, rank).contains(' '),
{
    lemma_run_encode(rank_cells(b, rank), 0);
}

proof fn lemma_ranks_split(b: Board, rank: int)
    requires
        0 <= rank <= 7,
    ensures
        split_on(ranks_from_top(b, rank), '/') == Seq::new(
            (8 - rank) as nat,
            |k: int| rank_field(b, 7 - k),
        ),
        !ranks_from_top(b, rank).contains(' '),
    decreases 7 - rank,
{
    lemma_rank_field(b, rank);
    if rank == 7 {
        lemma_split_plain(rank_field(b, 7), '/');
        assert(split_on(ranks_from_top(b, rank), '/') =~= Seq::new(
            (8 - rank) as nat,
            |k: int| rank_field(b, 7 - k),
        ));
    } else {
        lemma_ranks_split(b, rank + 1);
        lemma_split_join(ranks_from_top(b, rank + 1), rank_field(b, rank), '/');
        lemma_split_plain(rank_field(b, rank), '/');
        assert(split_on(ranks_from_top(b, rank), '/') =~= Seq::new(
            (8 - rank) as nat,
            |k: int| rank_field(b, 7 - k),
        ));
        let s = ranks_from_top(b, rank);
        let top = ranks_from_top(b, rank + 1);
        assert(!s.contains(' ')) by {
            if s.contains(' ') {
                let i = choose|i: int| 0 <= i < s.len() && s[i] == ' ';
                if i < top.len() {
                    assert(top[i] == ' ');
                } else if i > top.len() {
                    assert(rank_field(b, rank)[i - top.len() - 1] == ' ');
                }
            }
        }
    }
}

/// Splitting the board field of a board's FEN on `/` gives eight fields, in
/// each of which the digit values plus the letter count come to eight. The
/// board field holds no space, so it is the FEN's text before its first
/// space; and the whole FEN splits on `/` into eight fields as well.
pub proof fn lemma_fen_fields(b: Board)
    ensures
        split_on(board_field(b), '/').len() == 8,
        forall|k: int| 0 <= k < 8 ==> field_width(#[trigger] split_on(board_field(b), '/')[k]) == 8,
        !board_field(b).contains(' '),
        fen_of(b) == board_field(b) + fen_of(b).subrange(board_field(b).len() as int, fen_of(b).len() as int),
        fen_of(b)[board_field(b).len() as int] == ' ',
        split_on(fen_of(b), '/').len() == 8,
{
    lemma_ranks_split(b, 0);
    assert forall|k: int| 0 <= k < 8 implies field_width(#[trigger] split_on(board_field(b), '/')[k]) == 8 by {
        lemma_rank_field(b, 7 - k);
    }
    let tail = seq![' ', turn_char(b.turn)] + " - - 0 1"@;
    reveal_strlit(" - - 0 1");
    assert(fen_of(b) == board_field(b) + tail);
    assert(fen_of(b).subrange(board_field(b).len() as int, fen_of(b).len() as int) =~= tail);
    assert(!tail.contains('/')) by {
        if tail.contains('/') {
            let i = choose|i: int| 0 <= i < tail.len() && tail[i] == '/';
            assert(tail[i] == '/');
        }
    }
    lemma_split_append_plain(board_field(b), tail, '/');
}

} // verus!
