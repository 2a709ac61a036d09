use random_fen::board::{Board, Color, Piece, PieceType};
use random_fen::placement::{exclusion_squares, free_squares};

fn kings_of(board: &Board) -> (usize, usize) {
    let mut white = Vec::new();
    let mut black = Vec::new();
    for (i, sq) in board.squares.iter().enumerate() {
        match sq {
            Some(Piece { piece_type: PieceType::King, color: Color::White }) => white.push(i),
            Some(Piece { piece_type: PieceType::King, color: Color::Black }) => black.push(i),
            Some(_) => panic!("unexpected piece on square {}", i),
            None => {}
        }
    }
    assert_eq!(white.len(), 1);
    assert_eq!(black.len(), 1);
    (white[0], black[0])
}

fn chebyshev(a: usize, b: usize) -> usize {
    let df = (a % 8).abs_diff(b % 8);
    let dr = (a / 8).abs_diff(b / 8);
    df.max(dr)
}

#[test]
fn random_kings_are_never_adjacent() {
    let mut rng = rand::rng();
    for _ in 0..10_000 {
        let board = Board::random(&mut rng);
        let (wk, bk) = kings_of(&board);
        assert_ne!(wk, bk);
        assert!(chebyshev(wk, bk) >= 2);
    }
}

#[test]
fn random_board_holds_exactly_two_kings() {
    let mut rng = rand::rng();
    for _ in 0..1000 {
        let board = Board::random(&mut rng);
        let pieces = board.squares.iter().filter(|s| s.is_some()).count();
        assert_eq!(pieces, 2);
        kings_of(&board);
    }
}

#[test]
fn random_boards_vary() {
    let mut rng = rand::rng();
    let mut white_squares = std::collections::HashSet::new();
    let mut turns = std::collections::HashSet::new();
    for _ in 0..2000 {
        let board = Board::random(&mut rng);
        white_squares.insert(kings_of(&board).0);
        turns.insert(format!("{:?}", board.turn));
    }
    assert!(white_squares.len() > 10);
    assert_eq!(turns.len(), 2);
}

#[test]
fn corner_king_excludes_four_squares() {
    let ex = exclusion_squares(0);
    let members: Vec<usize> = (0..64).filter(|&i| ex[i]).collect();
    assert_eq!(members, vec![0, 1, 8, 9]);
}

#[test]
fn interior_king_excludes_nine_squares() {
    let ex = exclusion_squares(27);
    let members: Vec<usize> = (0..64).filter(|&i| ex[i]).collect();
    assert_eq!(members, vec![18, 19, 20, 26, 27, 28, 34, 35, 36]);
}

#[test]
fn edge_king_excludes_six_squares() {
    let ex = exclusion_squares(4);
    let members: Vec<usize> = (0..64).filter(|&i| ex[i]).collect();
    assert_eq!(members, vec![3, 4, 5, 11, 12, 13]);
    let ex = exclusion_squares(15);
    let members: Vec<usize> = (0..64).filter(|&i| ex[i]).collect();
    assert_eq!(members, vec![6, 7, 14, 15, 22, 23]);
}

#[test]
fn free_squares_are_the_complement_in_order() {
    let corner = free_squares(0);
    assert_eq!(corner.len(), 60);
    assert_eq!(corner[0], 2);
    assert_eq!(corner[5], 7);
    assert_eq!(corner[6], 10);
    assert_eq!(corner[59], 63);
    let interior = free_squares(27);
    assert_eq!(interior.len(), 55);
    assert!(interior.windows(2).all(|w| w[0] < w[1]));
    assert!(!interior.contains(&27));
    assert!(!interior.contains(&36));
    assert!(interior.contains(&37));
    let last = free_squares(63);
    assert_eq!(last.len(), 60);
    assert_eq!(last[59], 61);
    assert_eq!(last[53], 53);
}

#[test]
fn with_kings_places_only_the_kings() {
    let board = Board::with_kings(Color::Black, 0, 63);
    assert_eq!(kings_of(&board), (0, 63));
    assert_eq!(board.turn, Color::Black);
    assert_eq!(board.squares.iter().filter(|s| s.is_some()).count(), 2);
}

#[test]
fn from_draws_picks_among_free_squares() {
    let board = Board::from_draws(true, 0, 59);
    assert_eq!(kings_of(&board), (0, 63));
    assert_eq!(board.turn, Color::White);
    let board = Board::from_draws(false, 27, 0);
    assert_eq!(kings_of(&board), (27, 0));
    assert_eq!(board.turn, Color::Black);
    let board = Board::from_draws(true, 0, 0);
    assert_eq!(kings_of(&board), (0, 2));
}

#[test]
fn new_board_is_empty_white_to_move() {
    let board = Board::new();
    assert!(board.squares.iter().all(|s| s.is_none()));
    assert_eq!(board.turn, Color::White);
}
